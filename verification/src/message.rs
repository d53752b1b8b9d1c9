//! The internal unit of the engine: a payload of bytes tagged with the
//! logical stream it belongs to (0 = input, 1 = output, 2 = diagnostic).
//! A zero-length payload is the end-of-stream sentinel for its tag and is
//! never real application data.

use vstd::prelude::*;

verus! {

/// One tagged chunk of bytes travelling between a pump and a writer.
pub struct Message {
    fd: u8,
    data: Vec<u8>,
}

impl Message {
    /// The logical stream this chunk belongs to.
    pub closed spec fn tag(&self) -> u8 {
        self.fd
    }

    /// The bytes carried by this chunk.
    pub closed spec fn payload(&self) -> Seq<u8> {
        self.data@
    }

    /// A zero-length payload marks the end of its stream.
    pub open spec fn is_sentinel(&self) -> bool {
        self.payload().len() == 0
    }

    pub fn new(fd: u8, data: Vec<u8>) -> (m: Message)
        ensures
            m.tag() == fd,
            m.payload() == data@,
    {
        Message { fd, data }
    }

    /// The end-of-stream sentinel for the given tag.
    pub fn sentinel(fd: u8) -> (m: Message)
        ensures
            m.tag() == fd,
            m.payload() == Seq::<u8>::empty(),
            m.is_sentinel(),
    {
        let data: Vec<u8> = Vec::new();
        assert(data@ =~= Seq::<u8>::empty());
        Message { fd, data }
    }

    pub fn fd(&self) -> (r: u8)
        ensures
            r == self.tag(),
    {
        self.fd
    }

    pub fn data(&self) -> (r: &Vec<u8>)
        ensures
            r@ == self.payload(),
    {
        &self.data
    }

    /// Takes the message apart into its tag and its payload.
    pub fn into_parts(self) -> (r: (u8, Vec<u8>))
        ensures
            r.0 == self.tag(),
            r.1@ == self.payload(),
    {
        (self.fd, self.data)
    }
}

} // verus!
