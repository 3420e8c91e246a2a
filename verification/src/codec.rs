//! The binary form of a frame stream, and its reading back.
//!
//! A frame travels as a four-byte big-endian length followed by a body of
//! that length. The body starts with the frame's kind (0 data, 1 diagnostic,
//! 2 status) as a variable-width integer. A chunk follows as its length in
//! variable width and its bytes; a status as one byte that says whether
//! there is a code, and the zigzag form of the code in variable width.

use vstd::prelude::*;
use vstd::slice::slice_subrange;
use vstd::slice::slice_to_vec;
use crate::frame::Frame;
use crate::frame::FrameView;
use crate::frame::frame_views;
use crate::wire::be32;
use crate::wire::be32_value;
use crate::wire::varint;
use crate::wire::varint_at;
use crate::wire::zigzag;
use crate::wire::unzigzag;
use crate::wire::get_be32;
use crate::wire::put_be32;
use crate::wire::get_varint;
use crate::wire::put_varint;
use crate::wire::zigzag_encode;
use crate::wire::zigzag_decode;
use crate::wire::lemma_varint_len;
use crate::wire::lemma_varint_round_trip;
use crate::wire::lemma_zigzag_round_trip;
use crate::wire::lemma_be32_round_trip;

verus! {

/// The size of the buffer between the writer of frames and the reader
/// of the response body: room for one full data chunk with its kind and
/// length.
pub const BUF_SIZE: usize = 65545;

/// The largest data chunk that is read from a stage at once.
pub const CHUNK_SIZE: usize = 65536;

/// Kind number of a data chunk.
pub const KIND_STDOUT: u8 = 0;

/// Kind number of a diagnostic chunk.
pub const KIND_STDERR: u8 = 1;

/// Kind number of the terminal marker.
pub const KIND_STATUS: u8 = 2;

/// Why a frame could not be written.
#[derive(Debug, Clone, Copy, PartialEq, Eq)]
pub enum EncodeError {
    /// The body is longer than a four-byte length can say.
    TooLarge,
}

/// Why a byte stream could not be read as frames.
#[derive(Debug, Clone, Copy, PartialEq, Eq)]
pub enum DecodeError {
    /// The stream ends in the middle of a frame.
    Truncated,
    /// A body of the announced length is not the body of a frame.
    Malformed,
}

/// The body of a chunk of the given kind.
pub open spec fn chunk_body(kind: u8, payload: Seq<u8>) -> Seq<u8> {
    seq![kind] + varint(payload.len()) + payload
}

/// The body of a frame.
pub open spec fn body(frame: FrameView) -> Seq<u8> {
    match frame {
        FrameView::Stdout(payload) => chunk_body(0, payload),
        FrameView::Stderr(payload) => chunk_body(1, payload),
        FrameView::Status(None) => seq![2u8, 0u8],
        FrameView::Status(Some(code)) => seq![2u8, 1u8] + varint(zigzag(code as int)),
    }
}

/// A frame can be written when its body fits the length prefix.
pub open spec fn encodable(frame: FrameView) -> bool {
    body(frame).len() <= u32::MAX
}

/// The binary form of one frame.
pub open spec fn encoded(frame: FrameView) -> Seq<u8> {
    be32(body(frame).len()) + body(frame)
}

/// Every frame of the sequence can be written.
pub open spec fn all_encodable(frames: Seq<FrameView>) -> bool {
    forall|i: int| 0 <= i < frames.len() ==> encodable(#[trigger] frames[i])
}

/// The binary form of a frame sequence: the frames' forms one after another.
pub open spec fn encoded_all(frames: Seq<FrameView>) -> Seq<u8>
    decreases frames.len(),
{
    if frames.len() == 0 {
        Seq::empty()
    } else {
        encoded(frames[0]) + encoded_all(frames.skip(1))
    }
}

/// Reads a body. A body may be longer than the frame in it needs.
pub open spec fn parse_body(bytes: Seq<u8>) -> Option<FrameView> {
    match varint_at(bytes, 0) {
        None => None,
        Some((kind, at)) => if kind == 0 || kind == 1 {
            match varint_at(bytes, at) {
                None => None,
                Some((len, start)) => if start + len <= bytes.len() {
                    let payload = bytes.subrange(start as int, (start + len) as int);
                    if kind == 0 {
                        Some(FrameView::Stdout(payload))
                    } else {
                        Some(FrameView::Stderr(payload))
                    }
                } else {
                    None
                },
            }
        } else if kind == 2 {
            if at >= bytes.len() {
                None
            } else if bytes[at as int] == 0 {
                Some(FrameView::Status(None))
            } else if bytes[at as int] == 1 {
                match varint_at(bytes, at + 1) {
                    None => None,
                    Some((code, _)) => if code <= u32::MAX {
                        Some(FrameView::Status(Some(unzigzag(code) as i32)))
                    } else {
                        None
                    },
                }
            } else {
                None
            }
        } else {
            None
        },
    }
}

/// What the front of a byte stream holds.
pub enum Parsed {
    /// Less than one whole frame.
    Incomplete,
    /// A whole body that is not a frame's.
    Malformed,
    /// A frame, and the number of bytes it took.
    Frame(FrameView, nat),
}

/// Reads the frame at the front of a byte stream.
pub open spec fn parse(bytes: Seq<u8>) -> Parsed {
    if bytes.len() < 4 {
        Parsed::Incomplete
    } else if bytes.len() < 4 + be32_value(bytes) {
        Parsed::Incomplete
    } else {
        match parse_body(bytes.subrange(4, (4 + be32_value(bytes)) as int)) {
            Some(frame) => Parsed::Frame(frame, 4 + be32_value(bytes)),
            None => Parsed::Malformed,
        }
    }
}

/// Reads a whole byte stream as frames, front to back.
pub open spec fn parse_all(bytes: Seq<u8>) -> Result<Seq<FrameView>, DecodeError>
    decreases bytes.len(),
{
    if bytes.len() == 0 {
        Ok(Seq::empty())
    } else {
        match parse(bytes) {
            Parsed::Incomplete => Err(DecodeError::Truncated),
            Parsed::Malformed => Err(DecodeError::Malformed),
            Parsed::Frame(frame, used) => match parse_all(bytes.skip(used as int)) {
                Ok(rest) => Ok(seq![frame] + rest),
                Err(e) => Err(e),
            },
        }
    }
}

/// The outcome of reading the front of a byte stream.
#[derive(Debug)]
pub enum Decoded {
    /// Less than one whole frame is there.
    Incomplete,
    /// A whole body is there and it is not a frame's.
    Malformed,
    /// A frame, and the number of bytes it took.
    Frame(Frame, usize),
}

impl View for Decoded {
    type V = Parsed;

    open spec fn view(&self) -> Parsed {
        match self {
            Decoded::Incomplete => Parsed::Incomplete,
            Decoded::Malformed => Parsed::Malformed,
            Decoded::Frame(frame, used) => Parsed::Frame(frame@, *used as nat),
        }
    }
}

/// The number of bytes a variable-width integer takes.
pub fn varint_len(n: u64) -> (len: usize)
    ensures
        len == varint(n as nat).len(),
{
    proof {
        lemma_varint_len(n as nat);
        crate::wire::lemma_le_bytes_len(n as nat, 2);
        crate::wire::lemma_le_bytes_len(n as nat, 4);
        crate::wire::lemma_le_bytes_len(n as nat, 8);
    }
    if n <= 250 {
        1
    } else if n <= 0xffff {
        3
    } else if n <= 0xffff_ffff {
        5
    } else {
        9
    }
}

/// Appends `src` to `out`.
fn append_bytes(out: &mut Vec<u8>, src: &[u8])
    ensures
        final(out)@ == old(out)@ + src@,
{
    let mut i: usize = 0;
    while i < src.len()
        invariant
            i <= src@.len(),
            out@ == old(out)@ + src@.subrange(0, i as int),
        decreases src@.len() - i,
    {
        out.push(src[i]);
        i += 1;
        assert(out@ =~= old(out)@ + src@.subrange(0, i as int));
    }
    assert(src@.subrange(0, i as int) =~= src@);
}

/// Writes a chunk of the given kind, length prefix included, where it fits.
fn encode_chunk(kind: u8, payload: &Vec<u8>) -> (r: Result<Vec<u8>, EncodeError>)
    ensures
        match r {
            Ok(bytes) => chunk_body(kind, payload@).len() <= u32::MAX && bytes@ == be32(
                chunk_body(kind, payload@).len(),
            ) + chunk_body(kind, payload@),
            Err(_) => chunk_body(kind, payload@).len() > u32::MAX,
        },
{
    let len: usize = payload.len();
    proof {
        lemma_varint_len(len as nat);
    }
    if len > 0xffff_ffff {
        return Err(EncodeError::TooLarge);
    }
    let size: u64 = 1 + varint_len(len as u64) as u64 + len as u64;
    if size > 0xffff_ffff {
        return Err(EncodeError::TooLarge);
    }
    let mut out: Vec<u8> = Vec::new();
    put_be32(&mut out, size as u32);
    out.push(kind);
    put_varint(&mut out, len as u64);
    append_bytes(&mut out, payload.as_slice());
    assert(out@ =~= be32(chunk_body(kind, payload@).len()) + chunk_body(kind, payload@));
    Ok(out)
}

/// Writes one frame: its length prefix and its body.
///
/// Fails exactly on a frame whose body is longer than the prefix can say.
pub fn encode_frame(frame: &Frame) -> (r: Result<Vec<u8>, EncodeError>)
    ensures
        match r {
            Ok(bytes) => encodable(frame@) && bytes@ == encoded(frame@),
            Err(e) => !encodable(frame@) && e == EncodeError::TooLarge,
        },
{
    match frame {
        Frame::Stdout(payload) => encode_chunk(KIND_STDOUT, payload),
        Frame::Stderr(payload) => encode_chunk(KIND_STDERR, payload),
        Frame::Status(None) => {
            let mut out: Vec<u8> = Vec::new();
            put_be32(&mut out, 2);
            out.push(KIND_STATUS);
            out.push(0);
            assert(out@ =~= encoded(frame@));
            Ok(out)
        },
        Frame::Status(Some(code)) => {
            let z: u32 = zigzag_encode(*code);
            proof {
                lemma_varint_len(z as nat);
            }
            let size: usize = 2 + varint_len(z as u64);
            let mut out: Vec<u8> = Vec::new();
            put_be32(&mut out, size as u32);
            out.push(KIND_STATUS);
            out.push(1);
            put_varint(&mut out, z as u64);
            assert(out@ =~= encoded(frame@));
            Ok(out)
        },
    }
}

/// Writes a frame sequence, frame after frame.
///
/// Fails exactly where some frame of the sequence cannot be written.
pub fn encode(frames: &Vec<Frame>) -> (r: Result<Vec<u8>, EncodeError>)
    ensures
        match r {
            Ok(bytes) => all_encodable(frame_views(frames@)) && bytes@ == encoded_all(
                frame_views(frames@),
            ),
            Err(e) => !all_encodable(frame_views(frames@)) && e == EncodeError::TooLarge,
        },
{
    let ghost views = frame_views(frames@);
    let mut out: Vec<u8> = Vec::new();
    let mut i: usize = 0;
    while i < frames.len()
        invariant
            i <= frames@.len(),
            views == frame_views(frames@),
            all_encodable(views.take(i as int)),
            out@ == encoded_all(views.take(i as int)),
        decreases frames@.len() - i,
    {
        match encode_frame(&frames[i]) {
            Ok(bytes) => {
                proof {
                    lemma_encoded_all_push(views.take(i as int), views[i as int]);
                    assert(views.take(i as int).push(views[i as int]) =~= views.take(i + 1));
                }
                append_bytes(&mut out, bytes.as_slice());
            },
            Err(e) => {
                assert(!encodable(views[i as int]));
                return Err(e);
            },
        }
        i += 1;
    }
    assert(views.take(i as int) =~= views);
    Ok(out)
}

/// Reads a body as a frame.
pub fn decode_body(bytes: &[u8]) -> (r: Option<Frame>)
    ensures
        match parse_body(bytes@) {
            Some(frame) => r.is_some() && r.unwrap()@ == frame,
            None => r.is_none(),
        },
{
    let (kind, at) = match get_varint(bytes, 0) {
        Some(pair) => pair,
        None => {
            return None;
        },
    };
    if kind == 0 || kind == 1 {
        let (len, start) = match get_varint(bytes, at) {
            Some(pair) => pair,
            None => {
                return None;
            },
        };
        if len > (bytes.len() - start) as u64 {
            return None;
        }
        let payload: Vec<u8> = slice_to_vec(slice_subrange(bytes, start, start + len as usize));
        if kind == 0 {
            Some(Frame::Stdout(payload))
        } else {
            Some(Frame::Stderr(payload))
        }
    } else if kind == 2 {
        if at >= bytes.len() {
            None
        } else if bytes[at] == 0 {
            Some(Frame::Status(None))
        } else if bytes[at] == 1 {
            match get_varint(bytes, at + 1) {
                Some((code, _)) => {
                    if code <= 0xffff_ffff {
                        Some(Frame::Status(Some(zigzag_decode(code as u32))))
                    } else {
                        None
                    }
                },
                None => None,
            }
        } else {
            None
        }
    } else {
        None
    }
}

/// Reads the frame at the front of `bytes`, where a whole one is there.
pub fn decode_frame(bytes: &[u8]) -> (r: Decoded)
    ensures
        r@ == parse(bytes@),
{
    if bytes.len() < 4 {
        return Decoded::Incomplete;
    }
    let size: u32 = get_be32(bytes);
    if ((bytes.len() - 4) as u64) < size as u64 {
        return Decoded::Incomplete;
    }
    let end: usize = 4 + size as usize;
    match decode_body(slice_subrange(bytes, 4, end)) {
        Some(frame) => Decoded::Frame(frame, end),
        None => Decoded::Malformed,
    }
}

/// Reads a whole byte stream as frames.
///
/// Gives the frames where the stream is a sequence of whole frames, says
/// `Truncated` where it ends inside one, and `Malformed` where a body is
/// not a frame's.
pub fn decode(bytes: &[u8]) -> (r: Result<Vec<Frame>, DecodeError>)
    ensures
        match parse_all(bytes@) {
            Ok(frames) => r.is_ok() && frame_views(r.unwrap()@) == frames,
            Err(e) => r == Err::<Vec<Frame>, DecodeError>(e),
        },
{
    let mut frames: Vec<Frame> = Vec::new();
    let mut at: usize = 0;
    proof {
        assert(bytes@.skip(0) =~= bytes@);
        match parse_all(bytes@) {
            Ok(all) => {
                assert(frame_views(frames@) + all =~= all);
            },
            Err(_) => {},
        }
    }
    while at < bytes.len()
        invariant
            at <= bytes@.len(),
            parse_all(bytes@) == match parse_all(bytes@.skip(at as int)) {
                Ok(rest) => Ok::<Seq<FrameView>, DecodeError>(frame_views(frames@) + rest),
                Err(e) => Err(e),
            },
        decreases bytes@.len() - at,
    {
        let rest = slice_subrange(bytes, at, bytes.len());
        assert(rest@ =~= bytes@.skip(at as int));
        match decode_frame(rest) {
            Decoded::Incomplete => {
                return Err(DecodeError::Truncated);
            },
            Decoded::Malformed => {
                return Err(DecodeError::Malformed);
            },
            Decoded::Frame(frame, used) => {
                let ghost before = frame_views(frames@);
                frames.push(frame);
                proof {
                    assert(bytes@.skip(at as int).skip(used as int) =~= bytes@.skip(at + used));
                    assert(frame_views(frames@) =~= before.push(frame@));
                    match parse_all(bytes@.skip(at + used)) {
                        Ok(tail) => {
                            assert(before + (seq![frame@] + tail) =~= frame_views(frames@) + tail);
                        },
                        Err(_) => {},
                    }
                }
                at = at + used;
            },
        }
    }
    assert(bytes@.skip(at as int) =~= Seq::<u8>::empty());
    assert(frame_views(frames@) + Seq::<FrameView>::empty() =~= frame_views(frames@));
    Ok(frames)
}

/// A body is read back as the frame it was written from, whatever follows
/// it within the announced length.
pub proof fn lemma_body_round_trip(frame: FrameView, extra: Seq<u8>)
    requires
        encodable(frame),
    ensures
        parse_body(body(frame) + extra) == Some(frame),
{
    let bytes = body(frame) + extra;
    assert(bytes[0] == body(frame)[0]);
    match frame {
        FrameView::Stdout(payload) => {
            lemma_chunk_round_trip(0, payload, extra);
        },
        FrameView::Stderr(payload) => {
            lemma_chunk_round_trip(1, payload, extra);
        },
        FrameView::Status(None) => {
            assert(bytes[1] == 0);
        },
        FrameView::Status(Some(code)) => {
            let z = zigzag(code as int);
            lemma_zigzag_round_trip(code);
            lemma_varint_len(z);
            assert(bytes[1] == 1);
            assert(bytes.subrange(2, (2 + varint(z).len()) as int) =~= varint(z));
            lemma_varint_round_trip(bytes, 2, z);
        },
    }
}

/// A chunk's body is read back as the chunk.
proof fn lemma_chunk_round_trip(kind: u8, payload: Seq<u8>, extra: Seq<u8>)
    requires
        kind == 0 || kind == 1,
        payload.len() <= u64::MAX,
    ensures
        parse_body(chunk_body(kind, payload) + extra) == Some(
            if kind == 0 {
                FrameView::Stdout(payload)
            } else {
                FrameView::Stderr(payload)
            },
        ),
{
    let bytes = chunk_body(kind, payload) + extra;
    let n = payload.len();
    lemma_varint_len(n);
    assert(bytes[0] == kind);
    assert(bytes.subrange(1, (1 + varint(n).len()) as int) =~= varint(n));
    lemma_varint_round_trip(bytes, 1, n);
    let start = 1 + varint(n).len();
    assert(bytes.subrange(start as int, (start + n) as int) =~= payload);
}

/// The front of a stream that starts with a frame's binary form is read
/// as that frame, and the reading takes exactly that form.
pub proof fn lemma_frame_round_trip(frame: FrameView, rest: Seq<u8>)
    requires
        encodable(frame),
    ensures
        parse(encoded(frame) + rest) == Parsed::Frame(frame, encoded(frame).len()),
        (encoded(frame) + rest).skip(encoded(frame).len() as int) == rest,
        encoded(frame).len() >= 4,
{
    let bytes = encoded(frame) + rest;
    let size = body(frame).len();
    lemma_be32_round_trip(size);
    assert(be32_value(bytes) == be32_value(be32(size))) by {
        assert(bytes[0] == be32(size)[0]);
        assert(bytes[1] == be32(size)[1]);
        assert(bytes[2] == be32(size)[2]);
        assert(bytes[3] == be32(size)[3]);
    }
    assert(bytes.subrange(4, (4 + size) as int) =~= body(frame));
    assert(body(frame) + Seq::<u8>::empty() =~= body(frame));
    lemma_body_round_trip(frame, Seq::empty());
    assert(bytes.skip(encoded(frame).len() as int) =~= rest);
}

/// The binary form of a sequence with one more frame at its end.
pub proof fn lemma_encoded_all_push(frames: Seq<FrameView>, frame: FrameView)
    ensures
        encoded_all(frames.push(frame)) == encoded_all(frames) + encoded(frame),
    decreases frames.len(),
{
    let longer = frames.push(frame);
    let last = encoded(frame);
    assert(encoded_all(longer) == encoded(longer[0]) + encoded_all(longer.skip(1)));
    if frames.len() == 0 {
        assert(longer.skip(1) =~= Seq::<FrameView>::empty());
        assert(encoded_all(longer.skip(1)) == Seq::<u8>::empty());
        assert(encoded_all(frames) == Seq::<u8>::empty());
        assert(last + Seq::<u8>::empty() =~= Seq::<u8>::empty() + last);
    } else {
        let first = encoded(frames[0]);
        let middle = encoded_all(frames.skip(1));
        lemma_encoded_all_push(frames.skip(1), frame);
        assert(longer.skip(1) =~= frames.skip(1).push(frame));
        assert(longer[0] == frames[0]);
        assert(encoded_all(frames) == first + middle);
        assert(first + (middle + last) =~= (first + middle) + last);
    }
}

/// Round trip: reading the binary form of a sequence of frames gives back
/// exactly that sequence, for every sequence whose frames can be written.
pub proof fn lemma_round_trip(frames: Seq<FrameView>)
    requires
        all_encodable(frames),
    ensures
        parse_all(encoded_all(frames)) == Ok::<Seq<FrameView>, DecodeError>(frames),
    decreases frames.len(),
{
    if frames.len() == 0 {
        assert(frames =~= Seq::<FrameView>::empty());
    } else {
        let rest = encoded_all(frames.skip(1));
        assert(all_encodable(frames.skip(1))) by {
            assert forall|i: int| 0 <= i < frames.skip(1).len() implies encodable(
                #[trigger] frames.skip(1)[i],
            ) by {
                assert(frames.skip(1)[i] == frames[i + 1]);
            }
        }
        lemma_round_trip(frames.skip(1));
        assert(encodable(frames[0]));
        lemma_frame_round_trip(frames[0], rest);
        assert(seq![frames[0]] + frames.skip(1) =~= frames);
    }
}

} // verus!

verus! {

/// Reads frames from a byte stream that arrives piece by piece.
pub struct Decoder {
    buf: Vec<u8>,
}

impl Decoder {
    /// The bytes that arrived and were not yet read as frames.
    pub closed spec fn pending(&self) -> Seq<u8> {
        self.buf@
    }

    /// A decoder that has seen no bytes.
    pub fn new() -> (d: Decoder)
        ensures
            d.pending() == Seq::<u8>::empty(),
    {
        Decoder { buf: Vec::new() }
    }

    /// Takes in the next piece of the stream.
    pub fn feed(&mut self, bytes: &[u8])
        ensures
            final(self).pending() == old(self).pending() + bytes@,
    {
        append_bytes(&mut self.buf, bytes);
    }

    /// Hands out the next frame once all of it has arrived.
    ///
    /// `Ok(None)` says that more bytes are needed; nothing is consumed then,
    /// nor on an error.
    pub fn next_frame(&mut self) -> (r: Result<Option<Frame>, DecodeError>)
        ensures
            match parse(old(self).pending()) {
                Parsed::Incomplete => r == Ok::<Option<Frame>, DecodeError>(None)
                    && final(self).pending() == old(self).pending(),
                Parsed::Malformed => r == Err::<Option<Frame>, DecodeError>(
                    DecodeError::Malformed,
                ) && final(self).pending() == old(self).pending(),
                Parsed::Frame(frame, used) => r.is_ok() && r.unwrap().is_some()
                    && r.unwrap().unwrap()@ == frame && final(self).pending() == old(
                    self,
                ).pending().skip(used as int),
            },
    {
        match decode_frame(self.buf.as_slice()) {
            Decoded::Incomplete => Ok(None),
            Decoded::Malformed => Err(DecodeError::Malformed),
            Decoded::Frame(frame, used) => {
                let rest: Vec<u8> = self.buf.split_off(used);
                self.buf = rest;
                assert(self.buf@ =~= old(self).buf@.skip(used as int));
                Ok(Some(frame))
            },
        }
    }

    /// Called when the stream has ended: a stream that stops inside a frame
    /// is truncated.
    pub fn finish(&self) -> (r: Result<(), DecodeError>)
        ensures
            r == if self.pending().len() == 0 {
                Ok::<(), DecodeError>(())
            } else {
                Err::<(), DecodeError>(DecodeError::Truncated)
            },
    {
        if self.buf.len() == 0 {
            Ok(())
        } else {
            Err(DecodeError::Truncated)
        }
    }
}

} // verus!
