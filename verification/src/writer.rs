//! Writer decisions. A stream writer drains a router and writes each payload
//! to the local sink registered for its tag; one writer may serve only a
//! subset of the three tags. A zero-length payload is the end-of-stream
//! sentinel: the writer closes the router from its side and exits — it never
//! hands a sentinel to a sink as data.

use vstd::prelude::*;
use crate::message::Message;

verus! {

/// Which of the three logical streams this writer has a sink for.
pub struct SinkSet {
    pub input: bool,
    pub output: bool,
    pub diagnostic: bool,
}

/// Whether a writer with sinks `s` can write messages of tag `tag`.
pub open spec fn has_sink(s: SinkSet, tag: u8) -> bool {
    if tag == 0 {
        s.input
    } else if tag == 1 {
        s.output
    } else if tag == 2 {
        s.diagnostic
    } else {
        false
    }
}

/// What the writer does with one received message.
pub enum WriteAction {
    /// Write these bytes to the sink for this tag, then flush at once — no
    /// batching.
    Write { tag: u8, data: Vec<u8> },
    /// The message was a sentinel: close the router from this side and exit,
    /// leaving the sink itself to its owner.
    CloseRouter,
    /// Drop the message: its tag is outside the three streams, or no sink is
    /// registered for it.
    Skip,
}

impl SinkSet {
    pub fn new(input: bool, output: bool, diagnostic: bool) -> (r: SinkSet)
        ensures
            r.input == input,
            r.output == output,
            r.diagnostic == diagnostic,
    {
        SinkSet { input, output, diagnostic }
    }

    /// Whether this writer has a sink for `tag`.
    pub fn covers(&self, tag: u8) -> (r: bool)
        ensures
            r == has_sink(*self, tag),
    {
        if tag == 0 {
            self.input
        } else if tag == 1 {
            self.output
        } else if tag == 2 {
            self.diagnostic
        } else {
            false
        }
    }
}

/// One step of a stream writer: tags outside the three streams are dropped;
/// a sentinel closes the router and is never written as data; a data payload
/// goes to its tag's sink if one is registered, and is dropped otherwise.
pub fn writer_step(sinks: &SinkSet, m: Message) -> (r: WriteAction)
    ensures
        m.tag() > 2 ==> r is Skip,
        m.tag() <= 2 && m.is_sentinel() ==> r is CloseRouter,
        m.tag() <= 2 && !m.is_sentinel() && has_sink(*sinks, m.tag()) ==> (r
            matches WriteAction::Write { tag, data } && tag == m.tag() && data@ == m.payload()),
        m.tag() <= 2 && !m.is_sentinel() && !has_sink(*sinks, m.tag()) ==> r is Skip,
        m.is_sentinel() ==> !(r is Write),
{
    let (tag, data) = m.into_parts();
    if tag > 2 {
        WriteAction::Skip
    } else if data.len() == 0 {
        WriteAction::CloseRouter
    } else if sinks.covers(tag) {
        WriteAction::Write { tag, data }
    } else {
        WriteAction::Skip
    }
}

} // verus!
