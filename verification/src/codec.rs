//! The data-frame codec. One frame on the wire is
//! `[size: 1 byte][tag: 1 byte][payload: size bytes]`; a size of 0 is the
//! end-of-stream sentinel for its tag, never an error and never data.

use vstd::prelude::*;
use vstd::string::{StrSliceExecFns, StringSliceAdditionalSpecFns};

verus! {

/// Errors of the frame and handshake codecs.
#[derive(Debug)]
pub enum CodecError {
    /// The payload does not fit the frame's length field.
    PayloadTooLarge,
}

/// The bytes of one encoded frame.
pub open spec fn frame_bytes(tag: u8, payload: Seq<u8>) -> Seq<u8>
    recommends
        payload.len() <= 255,
{
    seq![payload.len() as u8, tag] + payload
}

/// What one attempt to take a frame off the front of a byte stream yields.
pub enum Parsed {
    /// A whole frame: its tag, its payload, and the index of the first byte
    /// after it.
    Frame { tag: u8, payload: Seq<u8>, next: int },
    /// The stream ended before any header byte: orderly end of stream.
    Eof,
    /// The stream ended mid-header or mid-payload: a framing error.
    Truncated,
}

/// Parses one frame from `b` starting at `from`: the mathematical meaning of
/// `decode`.
pub open spec fn parse_frame(b: Seq<u8>, from: int) -> Parsed
    recommends
        0 <= from <= b.len(),
{
    let rem = b.len() - from;
    if rem == 0 {
        Parsed::Eof
    } else if rem < 2 {
        Parsed::Truncated
    } else {
        let size = b[from] as int;
        if rem < 2 + size {
            Parsed::Truncated
        } else {
            Parsed::Frame {
                tag: b[from + 1],
                payload: b.subrange(from + 2, from + 2 + size),
                next: from + 2 + size,
            }
        }
    }
}

/// What `decode` returns.
pub enum Decoded {
    /// A whole frame and the position just after it.
    Frame { tag: u8, payload: Vec<u8>, next: usize },
    /// Orderly end of stream before any header byte.
    Eof,
    /// End of stream mid-header or mid-payload.
    Truncated,
}

/// The parse outcome a `Decoded` value stands for.
pub open spec fn decoded_model(d: Decoded) -> Parsed {
    match d {
        Decoded::Frame { tag, payload, next } => Parsed::Frame {
            tag,
            payload: payload@,
            next: next as int,
        },
        Decoded::Eof => Parsed::Eof,
        Decoded::Truncated => Parsed::Truncated,
    }
}

/// Encodes one frame: one byte of payload length, one byte of tag, then the
/// payload. A payload over 255 bytes does not fit the length field and is
/// rejected whole — never truncated.
pub fn encode(tag: u8, payload: &Vec<u8>) -> (r: Result<Vec<u8>, CodecError>)
    ensures
        payload@.len() <= 255 ==> (r matches Ok(b) && b@ == frame_bytes(tag, payload@)),
        payload@.len() > 255 ==> (r matches Err(e) && e == CodecError::PayloadTooLarge),
{
    if payload.len() > 255 {
        Err(CodecError::PayloadTooLarge)
    } else {
        let mut out: Vec<u8> = Vec::new();
        out.push(payload.len() as u8);
        out.push(tag);
        let mut i: usize = 0;
        while i < payload.len()
            invariant
                i <= payload@.len(),
                payload@.len() <= 255,
                out@ == seq![payload@.len() as u8, tag] + payload@.subrange(0, i as int),
            decreases payload@.len() - i,
        {
            out.push(payload[i]);
            assert(out@ =~= seq![payload@.len() as u8, tag] + payload@.subrange(
                0,
                i as int + 1,
            ));
            i += 1;
        }
        assert(out@ =~= frame_bytes(tag, payload@));
        Ok(out)
    }
}

/// Takes one frame off `buf` starting at `from`, exactly as `parse_frame`
/// reads it: a size-0 header decodes as a frame with an empty payload — the
/// sentinel — never as an error.
pub fn decode(buf: &Vec<u8>, from: usize) -> (r: Decoded)
    requires
        from <= buf@.len(),
    ensures
        decoded_model(r) == parse_frame(buf@, from as int),
{
    let rem = buf.len() - from;
    if rem == 0 {
        Decoded::Eof
    } else if rem < 2 {
        Decoded::Truncated
    } else {
        let size = buf[from] as usize;
        if rem < 2 + size {
            Decoded::Truncated
        } else {
            let tag = buf[from + 1];
            let mut payload: Vec<u8> = Vec::new();
            let mut i: usize = 0;
            while i < size
                invariant
                    i <= size,
                    from + 2 + size <= buf@.len(),
                    buf@.len() <= usize::MAX,
                    payload@ == buf@.subrange(from + 2, from + 2 + i),
                decreases size - i,
            {
                payload.push(buf[from + 2 + i]);
                assert(payload@ =~= buf@.subrange(from + 2, from + 2 + i + 1));
                i += 1;
            }
            assert(payload@ =~= buf@.subrange(from + 2, from + 2 + size));
            Decoded::Frame { tag, payload, next: from + 2 + size }
        }
    }
}

/// Encodes one diagnostic frame: the text's bytes under tag 2, the
/// diagnostic stream. Text whose bytes exceed a frame's payload is rejected,
/// as by `encode`.
pub fn encode_diagnostic(text: &str) -> (r: Result<Vec<u8>, CodecError>)
    ensures
        text.spec_bytes().len() <= 255 ==> (r matches Ok(b) && b@ == frame_bytes(
            2,
            text.spec_bytes(),
        )),
        text.spec_bytes().len() > 255 ==> (r matches Err(e) && e == CodecError::PayloadTooLarge),
{
    let bytes = text.as_bytes_vec();
    encode(2, &bytes)
}

/// Law: decoding an encoded frame gives back exactly the tag and payload that
/// were encoded, and consumes exactly the frame's bytes — whatever follows the
/// frame in the stream.
pub proof fn lemma_frame_round_trip(tag: u8, payload: Seq<u8>, rest: Seq<u8>)
    requires
        payload.len() <= 255,
    ensures
        parse_frame(frame_bytes(tag, payload) + rest, 0) == (Parsed::Frame {
            tag,
            payload,
            next: 2 + payload.len() as int,
        }),
{
    let b = frame_bytes(tag, payload) + rest;
    assert(b[0] == payload.len() as u8);
    assert(b[0] as int == payload.len());
    assert(b[1] == tag);
    assert(b.subrange(2, 2 + payload.len() as int) =~= payload);
}

/// The bytes of a run of frames, each given as its tag and payload, laid out
/// back to back.
pub open spec fn frames_bytes(fs: Seq<(u8, Seq<u8>)>) -> Seq<u8>
    decreases fs.len(),
{
    if fs.len() == 0 {
        Seq::empty()
    } else {
        frame_bytes(fs[0].0, fs[0].1) + frames_bytes(fs.drop_first())
    }
}

/// Every payload of the run fits one frame.
pub open spec fn frames_fit(fs: Seq<(u8, Seq<u8>)>) -> bool {
    forall|i: int| 0 <= i < fs.len() ==> (#[trigger] fs[i]).1.len() <= 255
}

/// Parses frames off `b` from `from` until orderly end of stream; a truncated
/// frame anywhere spoils the whole parse.
pub open spec fn parse_all(b: Seq<u8>, from: int) -> Option<Seq<(u8, Seq<u8>)>>
    decreases b.len() - from,
    when 0 <= from <= b.len()
{
    match parse_frame(b, from) {
        Parsed::Eof => Some(Seq::empty()),
        Parsed::Truncated => None,
        Parsed::Frame { tag, payload, next } => match parse_all(b, next) {
            None => None,
            Some(tail) => Some(seq![(tag, payload)] + tail),
        },
    }
}

/// A parsed value with its continuation point moved by `k`: how a parse reads
/// after `k` bytes were put in front of the stream.
pub open spec fn shift_parsed(p: Parsed, k: int) -> Parsed {
    match p {
        Parsed::Frame { tag, payload, next } => Parsed::Frame { tag, payload, next: next + k },
        Parsed::Eof => Parsed::Eof,
        Parsed::Truncated => Parsed::Truncated,
    }
}

/// One frame parses the same after any prefix: only the bytes from the parse
/// position on matter.
pub proof fn lemma_parse_frame_shift(a: Seq<u8>, b: Seq<u8>, i: int)
    requires
        0 <= i <= b.len(),
    ensures
        parse_frame(a + b, a.len() + i) == shift_parsed(parse_frame(b, i), a.len() as int),
{
    let ab = a + b;
    let at = a.len() + i;
    if b.len() - i >= 2 {
        assert(ab[at] == b[i]);
        assert(ab[at + 1] == b[i + 1]);
        let size = b[i] as int;
        if b.len() - i >= 2 + size {
            assert(ab.subrange(at + 2, at + 2 + size) =~= b.subrange(i + 2, i + 2 + size));
        }
    }
}

/// A run of frames parses the same after any prefix.
pub proof fn lemma_parse_all_shift(a: Seq<u8>, b: Seq<u8>, i: int)
    requires
        0 <= i <= b.len(),
    ensures
        parse_all(a + b, a.len() + i) == parse_all(b, i),
    decreases b.len() - i,
{
    lemma_parse_frame_shift(a, b, i);
    match parse_frame(b, i) {
        Parsed::Frame { tag, payload, next } => {
            lemma_parse_all_shift(a, b, next);
        },
        Parsed::Eof => {
        },
        Parsed::Truncated => {
        },
    }
}

/// Law: a run of encoded frames decodes back, frame by frame, to exactly the
/// tags and payloads that were encoded, in their original order — what lets a
/// writer reassemble a split write from its independently decoded pieces.
pub proof fn lemma_frames_decode_in_order(fs: Seq<(u8, Seq<u8>)>)
    requires
        frames_fit(fs),
    ensures
        parse_all(frames_bytes(fs), 0) == Some(fs),
    decreases fs.len(),
{
    if fs.len() == 0 {
        assert(fs =~= Seq::<(u8, Seq<u8>)>::empty());
        assert(frames_bytes(fs) =~= Seq::<u8>::empty());
    } else {
        let head = frame_bytes(fs[0].0, fs[0].1);
        let tail_bytes = frames_bytes(fs.drop_first());
        assert(fs[0].1.len() <= 255);
        lemma_frame_round_trip(fs[0].0, fs[0].1, tail_bytes);
        assert(head.len() == 2 + fs[0].1.len());
        lemma_parse_all_shift(head, tail_bytes, 0);
        assert(frames_fit(fs.drop_first())) by {
            assert(forall|i: int|
                0 <= i < fs.drop_first().len() ==> (#[trigger] fs.drop_first()[i]) == fs[i + 1]);
        }
        lemma_frames_decode_in_order(fs.drop_first());
        assert(seq![(fs[0].0, fs[0].1)] + fs.drop_first() =~= fs);
    }
}

} // verus!
