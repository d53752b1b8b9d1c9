//! Pump decisions. A stream pump reads a local source chunk by chunk and
//! turns each non-empty read into one tagged message; on end of stream or a
//! read error it emits exactly one zero-length sentinel for its tag and
//! closes its producer side. A transport pump does the same for frames
//! decoded off the wire.

use vstd::prelude::*;
use crate::codec::{
    Decoded, Parsed, decoded_model, frames_bytes, lemma_frames_decode_in_order, parse_all,
};
use crate::message::Message;

verus! {

/// What one read from a local source came back with.
pub enum ReadEvent {
    /// The bytes of one read; a zero-length read is end of stream.
    Data(Vec<u8>),
    /// The source reported end of stream.
    Eof,
    /// The read failed; an error is terminal for the pipeline, as an end of
    /// stream is.
    ReadFailed,
}

/// What the pump does with one read.
pub enum PumpAction {
    /// Queue this message for the writers.
    Forward(Message),
    /// Emit the sentinel for this pump's tag, close the producer side, and
    /// stop.
    Finish,
}

/// One step of a stream pump: a non-empty read becomes one tagged message;
/// end of stream, a zero-length read, and a read error all finish the pump.
pub fn pump_step(tag: u8, ev: ReadEvent) -> (r: PumpAction)
    ensures
        ev matches ReadEvent::Data(d) ==> {
            if d@.len() > 0 {
                r matches PumpAction::Forward(m) && m.tag() == tag && m.payload() == d@
            } else {
                r is Finish
            }
        },
        ev is Eof ==> r is Finish,
        ev is ReadFailed ==> r is Finish,
{
    match ev {
        ReadEvent::Data(d) => {
            if d.len() > 0 {
                PumpAction::Forward(Message::new(tag, d))
            } else {
                PumpAction::Finish
            }
        },
        ReadEvent::Eof => PumpAction::Finish,
        ReadEvent::ReadFailed => PumpAction::Finish,
    }
}

/// What the transport pump does with one decoded frame.
pub enum TransportAction {
    /// Queue this message for the writers.
    Deliver(Message),
    /// Orderly end: true end of stream, or a sentinel frame — a size-0 frame
    /// ends the stream for its tag and is never delivered as data.
    Finish,
    /// A truncated frame: a framing error ends the session, with no retry.
    Fail,
}

/// One step of a transport pump over one parse outcome.
pub fn transport_pump_step(d: Decoded) -> (r: TransportAction)
    ensures
        decoded_model(d) matches Parsed::Frame { tag, payload, .. } ==> {
            if payload.len() > 0 {
                r matches TransportAction::Deliver(m) && m.tag() == tag && m.payload() == payload
            } else {
                r is Finish
            }
        },
        decoded_model(d) is Eof ==> r is Finish,
        decoded_model(d) is Truncated ==> r is Fail,
{
    match d {
        Decoded::Frame { tag, payload, next: _ } => {
            if payload.len() > 0 {
                TransportAction::Deliver(Message::new(tag, payload))
            } else {
                TransportAction::Finish
            }
        },
        Decoded::Eof => TransportAction::Finish,
        Decoded::Truncated => TransportAction::Fail,
    }
}

/// The payloads of a run of messages, concatenated in order.
pub open spec fn payload_concat(ms: Seq<Message>) -> Seq<u8>
    decreases ms.len(),
{
    if ms.len() == 0 {
        Seq::empty()
    } else {
        ms[0].payload() + payload_concat(ms.drop_first())
    }
}

/// Appending one message appends its payload to the concatenation.
pub proof fn lemma_payload_concat_push(ms: Seq<Message>, m: Message)
    ensures
        payload_concat(ms.push(m)) == payload_concat(ms) + m.payload(),
    decreases ms.len(),
{
    if ms.len() == 0 {
        let single = ms.push(m);
        assert(single[0] == m);
        assert(single.drop_first() =~= Seq::<Message>::empty());
        assert(payload_concat(single.drop_first()) == Seq::<u8>::empty());
        assert(payload_concat(single) == m.payload() + payload_concat(single.drop_first()));
        assert(payload_concat(ms) == Seq::<u8>::empty());
        assert(m.payload() + Seq::<u8>::empty() =~= Seq::<u8>::empty() + m.payload());
    } else {
        assert(ms.push(m)[0] == ms[0]);
        assert(ms.push(m).drop_first() =~= ms.drop_first().push(m));
        lemma_payload_concat_push(ms.drop_first(), m);
        assert(payload_concat(ms.push(m)) == ms[0].payload() + payload_concat(
            ms.drop_first().push(m),
        ));
        assert(ms[0].payload() + (payload_concat(ms.drop_first()) + m.payload()) =~= (
        ms[0].payload() + payload_concat(ms.drop_first())) + m.payload());
    }
}

/// Splits one local write into tagged messages of at most `chunk` bytes each:
/// what a pump's bounded reads do to a source that hands it `data`. Every
/// message is non-empty and carries the pump's tag, and the payloads in order
/// reassemble `data` exactly — nothing lost, nothing reordered.
pub fn split_into_messages(tag: u8, data: &Vec<u8>, chunk: usize) -> (r: Vec<Message>)
    requires
        1 <= chunk <= 255,
    ensures
        payload_concat(r@) == data@,
        forall|i: int|
            0 <= i < r@.len() ==> (#[trigger] r@[i]).tag() == tag && 0 < r@[i].payload().len()
                <= chunk,
{
    let mut out: Vec<Message> = Vec::new();
    let mut at: usize = 0;
    let total = data.len();
    assert(out@ =~= Seq::<Message>::empty());
    assert(data@.subrange(0, 0) =~= Seq::<u8>::empty());
    while at < total
        invariant
            at <= data@.len(),
            total == data@.len(),
            1 <= chunk <= 255,
            payload_concat(out@) == data@.subrange(0, at as int),
            forall|i: int|
                0 <= i < out@.len() ==> (#[trigger] out@[i]).tag() == tag && 0 < out@[i].payload().len()
                    <= chunk,
        decreases data@.len() - at,
    {
        let take = if data.len() - at < chunk {
            data.len() - at
        } else {
            chunk
        };
        let mut piece: Vec<u8> = Vec::new();
        let mut i: usize = 0;
        while i < take
            invariant
                i <= take,
                at + take <= data@.len(),
                data@.len() <= usize::MAX,
                piece@ == data@.subrange(at as int, at + i),
            decreases take - i,
        {
            piece.push(data[at + i]);
            assert(piece@ =~= data@.subrange(at as int, at + i + 1));
            i += 1;
        }
        let m = Message::new(tag, piece);
        proof {
            lemma_payload_concat_push(out@, m);
        }
        out.push(m);
        assert(payload_concat(out@) =~= data@.subrange(0, at + take)) by {
            assert(data@.subrange(0, at as int) + data@.subrange(at as int, at + take)
                =~= data@.subrange(0, at + take));
        }
        at += take;
    }
    assert(data@.subrange(0, data@.len() as int) =~= data@);
    out
}

/// The frames a run of messages puts on the wire: each message's tag and
/// payload.
pub open spec fn wire_of(ms: Seq<Message>) -> Seq<(u8, Seq<u8>)> {
    ms.map_values(|m: Message| (m.tag(), m.payload()))
}

/// The payloads of a run of wire frames, concatenated in order.
pub open spec fn wire_payloads(fs: Seq<(u8, Seq<u8>)>) -> Seq<u8>
    decreases fs.len(),
{
    if fs.len() == 0 {
        Seq::empty()
    } else {
        fs[0].1 + wire_payloads(fs.drop_first())
    }
}

/// A message run's wire frames carry exactly its payloads.
pub proof fn lemma_wire_payloads(ms: Seq<Message>)
    ensures
        wire_payloads(wire_of(ms)) == payload_concat(ms),
    decreases ms.len(),
{
    if ms.len() > 0 {
        assert(wire_of(ms).drop_first() =~= wire_of(ms.drop_first()));
        lemma_wire_payloads(ms.drop_first());
    }
}

/// Law: a split write crosses the wire whole. The messages a pump split a
/// write into, each encoded as one frame and laid back to back, parse again
/// into exactly those tags and payloads, in order — and those payloads
/// reassemble the original write.
pub proof fn lemma_split_wire_reassembly(ms: Seq<Message>)
    requires
        forall|i: int| 0 <= i < ms.len() ==> (#[trigger] ms[i]).payload().len() <= 255,
    ensures
        parse_all(frames_bytes(wire_of(ms)), 0) == Some(wire_of(ms)),
        wire_payloads(wire_of(ms)) == payload_concat(ms),
{
    assert(forall|i: int| 0 <= i < wire_of(ms).len() ==> (#[trigger] wire_of(ms)[i]).1.len() <= 255);
    lemma_frames_decode_in_order(wire_of(ms));
    lemma_wire_payloads(ms);
}

} // verus!
