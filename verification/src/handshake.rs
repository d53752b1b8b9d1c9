//! The one-shot handshake: the initiating side names the target it wants and
//! passes its arguments on, once, right after the transport opens and before
//! any data frame. On the wire the handshake is a two-byte length field
//! (low byte first) followed by that many bytes of serialized payload — no
//! tag byte, unlike data frames.

use vstd::prelude::*;
use crate::codec::CodecError;

verus! {

/// What the initiating side asks for: a target by name, and the arguments to
/// hand it.
pub struct InitMessage {
    host_extension_name: String,
    args: Vec<String>,
}

impl InitMessage {
    /// The requested target's name.
    pub closed spec fn name_spec(&self) -> Seq<char> {
        self.host_extension_name@
    }

    /// The arguments to hand the target, in order.
    pub closed spec fn args_spec(&self) -> Seq<Seq<char>> {
        self.args.deep_view()
    }

    pub fn new(host_extension_name: String, args: Vec<String>) -> (m: InitMessage)
        ensures
            m.name_spec() == host_extension_name@,
            m.args_spec() == args.deep_view(),
    {
        InitMessage { host_extension_name, args }
    }

    pub fn host_extension_name(&self) -> (r: &String)
        ensures
            r@ == self.name_spec(),
    {
        &self.host_extension_name
    }

    pub fn args(&self) -> (r: &Vec<String>)
        ensures
            r.deep_view() == self.args_spec(),
    {
        &self.args
    }
}

/// The handshake's length field: the payload length as two bytes, low byte
/// first.
pub open spec fn handshake_len_bytes(n: int) -> Seq<u8>
    recommends
        0 <= n <= 0xFFFF,
{
    seq![(n % 256) as u8, (n / 256) as u8]
}

/// The bytes of one framed handshake.
pub open spec fn handshake_bytes(payload: Seq<u8>) -> Seq<u8>
    recommends
        payload.len() <= 0xFFFF,
{
    handshake_len_bytes(payload.len() as int) + payload
}

/// What one attempt to take the handshake off the front of a byte stream
/// yields.
pub enum ParsedHandshake {
    /// The whole serialized payload and the index of the first byte after it.
    Payload { payload: Seq<u8>, next: int },
    /// The stream ended mid-length-field or mid-payload.
    Truncated,
}

/// Parses the handshake from `b` starting at `from`: the mathematical meaning
/// of `decode_handshake`.
pub open spec fn parse_handshake(b: Seq<u8>, from: int) -> ParsedHandshake
    recommends
        0 <= from <= b.len(),
{
    let rem = b.len() - from;
    if rem < 2 {
        ParsedHandshake::Truncated
    } else {
        let size = b[from] + 256 * (b[from + 1] as int);
        if rem < 2 + size {
            ParsedHandshake::Truncated
        } else {
            ParsedHandshake::Payload {
                payload: b.subrange(from + 2, from + 2 + size),
                next: from + 2 + size,
            }
        }
    }
}

/// What `decode_handshake` returns.
pub enum DecodedHandshake {
    Payload { payload: Vec<u8>, next: usize },
    Truncated,
}

/// The parse outcome a `DecodedHandshake` value stands for.
pub open spec fn decoded_handshake_model(d: DecodedHandshake) -> ParsedHandshake {
    match d {
        DecodedHandshake::Payload { payload, next } => ParsedHandshake::Payload {
            payload: payload@,
            next: next as int,
        },
        DecodedHandshake::Truncated => ParsedHandshake::Truncated,
    }
}

/// Frames a serialized handshake payload: two bytes of length, low byte
/// first, then the payload. A payload over 65535 bytes does not fit the
/// length field and is rejected whole.
pub fn encode_handshake(payload: &Vec<u8>) -> (r: Result<Vec<u8>, CodecError>)
    ensures
        payload@.len() <= 0xFFFF ==> (r matches Ok(b) && b@ == handshake_bytes(payload@)),
        payload@.len() > 0xFFFF ==> (r matches Err(e) && e == CodecError::PayloadTooLarge),
{
    if payload.len() > 0xFFFF {
        Err(CodecError::PayloadTooLarge)
    } else {
        let n = payload.len();
        let mut out: Vec<u8> = Vec::new();
        out.push((n % 256) as u8);
        out.push((n / 256) as u8);
        let mut i: usize = 0;
        while i < payload.len()
            invariant
                i <= payload@.len(),
                payload@.len() <= 0xFFFF,
                n == payload@.len(),
                out@ == handshake_len_bytes(n as int) + payload@.subrange(0, i as int),
            decreases payload@.len() - i,
        {
            out.push(payload[i]);
            assert(out@ =~= handshake_len_bytes(n as int) + payload@.subrange(0, i as int + 1));
            i += 1;
        }
        assert(out@ =~= handshake_bytes(payload@));
        Ok(out)
    }
}

/// Takes the handshake off `buf` starting at `from`, exactly as
/// `parse_handshake` reads it.
pub fn decode_handshake(buf: &Vec<u8>, from: usize) -> (r: DecodedHandshake)
    requires
        from <= buf@.len(),
    ensures
        decoded_handshake_model(r) == parse_handshake(buf@, from as int),
{
    let rem = buf.len() - from;
    if rem < 2 {
        DecodedHandshake::Truncated
    } else {
        let size = buf[from] as usize + 256 * (buf[from + 1] as usize);
        if rem < 2 + size {
            DecodedHandshake::Truncated
        } else {
            let mut payload: Vec<u8> = Vec::new();
            let mut i: usize = 0;
            while i < size
                invariant
                    i <= size,
                    from + 2 + size <= buf@.len(),
                    buf@.len() <= usize::MAX,
                    payload@ == buf@.subrange(from + 2, from + 2 + i),
                decreases size - i,
            {
                payload.push(buf[from + 2 + i]);
                assert(payload@ =~= buf@.subrange(from + 2, from + 2 + i + 1));
                i += 1;
            }
            assert(payload@ =~= buf@.subrange(from + 2, from + 2 + size));
            DecodedHandshake::Payload { payload, next: from + 2 + size }
        }
    }
}

/// Law: decoding a framed handshake gives back exactly the payload that was
/// framed and consumes exactly the handshake's bytes — whatever follows in
/// the stream.
pub proof fn lemma_handshake_round_trip(payload: Seq<u8>, rest: Seq<u8>)
    requires
        payload.len() <= 0xFFFF,
    ensures
        parse_handshake(handshake_bytes(payload) + rest, 0) == (ParsedHandshake::Payload {
            payload,
            next: 2 + payload.len() as int,
        }),
{
    let n = payload.len() as int;
    let b = handshake_bytes(payload) + rest;
    assert(b[0] == (n % 256) as u8);
    assert(b[1] == (n / 256) as u8);
    assert(b[0] + 256 * (b[1] as int) == n % 256 + 256 * (n / 256));
    assert(n % 256 + 256 * (n / 256) == n) by {
        vstd::arithmetic::div_mod::lemma_fundamental_div_mod(n, 256);
    }
    assert(b.subrange(2, 2 + n) =~= payload);
}

} // verus!
