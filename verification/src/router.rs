//! The router: the queue connecting pumps to writers. It holds only the
//! messages currently queued, in arrival order; closing is cooperative — a
//! closed router rejects further sends, while a drain still yields the
//! remaining messages and only then reports closure.

use vstd::prelude::*;
use crate::message::Message;

verus! {

/// The queue between pumps and writers.
pub struct Router {
    queue: Vec<Message>,
    closed: bool,
}

/// What one receive from the router yields.
pub enum RecvOutcome {
    /// The message that has waited longest.
    Msg(Message),
    /// The router is closed and fully drained: the terminal signal.
    Closed,
    /// The router is open but momentarily empty: a real channel would block
    /// here until a message or a close arrives.
    Pending,
}

impl Router {
    /// The queued messages, oldest first.
    pub closed spec fn pending(&self) -> Seq<Message> {
        self.queue@
    }

    /// Whether the router has been closed from either side.
    pub closed spec fn is_closed(&self) -> bool {
        self.closed
    }

    pub fn new() -> (r: Router)
        ensures
            r.pending() == Seq::<Message>::empty(),
            !r.is_closed(),
    {
        let queue: Vec<Message> = Vec::new();
        assert(queue@ =~= Seq::<Message>::empty());
        Router { queue, closed: false }
    }

    /// Queues a message behind everything already queued. A closed router
    /// rejects the send and hands the message back.
    pub fn send(&mut self, m: Message) -> (r: Result<(), Message>)
        ensures
            !old(self).is_closed() ==> (r matches Ok(u)
                && u == ()
                && final(self).pending() == old(self).pending().push(m)
                && !final(self).is_closed()),
            old(self).is_closed() ==> (r matches Err(back)
                && back == m
                && *final(self) == *old(self)),
    {
        if self.closed {
            Err(m)
        } else {
            self.queue.push(m);
            Ok(())
        }
    }

    /// Takes the oldest queued message. Once the queue is drained, a closed
    /// router reports `Closed`; an open one reports `Pending`.
    pub fn recv(&mut self) -> (r: RecvOutcome)
        ensures
            old(self).pending().len() > 0 ==> (r matches RecvOutcome::Msg(m)
                && m == old(self).pending()[0]
                && final(self).pending() == old(self).pending().drop_first()
                && final(self).is_closed() == old(self).is_closed()),
            old(self).pending().len() == 0 && old(self).is_closed() ==> (r is Closed
                && *final(self) == *old(self)),
            old(self).pending().len() == 0 && !old(self).is_closed() ==> (r is Pending
                && *final(self) == *old(self)),
    {
        if self.queue.len() > 0 {
            let m = self.queue.remove(0);
            assert(self.queue@ =~= old(self).pending().drop_first());
            RecvOutcome::Msg(m)
        } else if self.closed {
            RecvOutcome::Closed
        } else {
            RecvOutcome::Pending
        }
    }

    /// Closes the router. What is already queued stays and can still be
    /// drained.
    pub fn close(&mut self)
        ensures
            final(self).is_closed(),
            final(self).pending() == old(self).pending(),
    {
        self.closed = true;
    }
}

/// Law: the router is first-in first-out. Two messages sent one after the
/// other stand in the queue in that order, whatever was queued before them —
/// and since each receive takes index 0 and shifts the rest down, the earlier
/// send is received on the earlier draw.
pub proof fn lemma_router_fifo(q: Seq<Message>, a: Message, b: Message)
    ensures
        q.push(a).push(b)[q.len() as int] == a,
        q.push(a).push(b)[q.len() as int + 1] == b,
{
}

/// Law: a drain yields the queue in order: after any number of receives, the
/// head of what remains is the oldest message not yet delivered.
pub proof fn lemma_drain_in_order(q: Seq<Message>, k: int)
    requires
        0 <= k < q.len(),
    ensures
        q.skip(k)[0] == q[k],
{
}

} // verus!
