//! The frame: a four-byte header, then the payload.
//!
//! The header is a big-endian number: its low 30 bits are the payload's
//! length, its high 2 bits say how the payload is compressed.

use bytes::BytesMut;
use vstd::prelude::*;

use super::buffer::{buf_as_slice, buf_extend, buf_len, buf_new, buf_split_to, buffered};
use super::compress::{
    appended, codec_tag, compress, decompress, deflated_by, inflated_by, GZIP, LZ4, ZSTD,
};
use crate::error::KvError;
use crate::pb::abi::{CommandRequest, CommandResponse};
use crate::pb::messages::{
    decode_response, encode_response, lemma_response_round_trip, response_fits, response_parsed,
    response_wire,
};
use crate::pb::model::{RequestModel, ResponseModel};
use crate::pb::requests::{
    decode_request, encode_request, lemma_request_round_trip, request_fits, request_parsed,
    request_wire,
};

verus! {

/// The header's length in bytes.
pub const LEN_LEN: usize = 4;

/// The largest payload the header's 30 length bits can announce: one byte
/// short of 1 GiB.
pub const MAX_FRAME: usize = 0x3FFF_FFFF;

/// The header bit at which the compression tag starts.
pub const COMPRESSION_BIT: usize = 30;

/// A message longer than this is compressed: what is shorter fits one packet
/// on a common network path.
pub const COMPRESSION_LIMIT: usize = 1436;

/// The header's value for a payload of `len` bytes under compression `tag`.
pub open spec fn header_of(len: int, tag: int) -> int {
    len + tag * 0x4000_0000
}

/// The compression tag in a header's value.
pub open spec fn header_tag(header: int) -> int {
    (header / 0x4000_0000) % 4
}

/// The payload length in a header's value.
pub open spec fn header_len(header: int) -> int {
    header - header_tag(header) * 0x4000_0000
}

/// The four bytes of `n`, most significant first.
pub open spec fn be32(n: int) -> Seq<u8> {
    seq![
        ((n / 0x100_0000) % 0x100) as u8,
        ((n / 0x1_0000) % 0x100) as u8,
        ((n / 0x100) % 0x100) as u8,
        (n % 0x100) as u8,
    ]
}

/// The number whose four bytes, most significant first, `bytes` starts with.
pub open spec fn from_be32(bytes: Seq<u8>) -> int {
    bytes[0] * 0x100_0000 + bytes[1] * 0x1_0000 + bytes[2] * 0x100 + bytes[3]
}

/// The frame of `payload` under compression `tag`.
pub open spec fn frame_bytes(tag: int, payload: Seq<u8>) -> Seq<u8> {
    be32(header_of(payload.len() as int, tag)) + payload
}

/// The first frame of `bytes`, as tag and payload, with what follows it;
/// `None` where `bytes` is cut short.
pub open spec fn split_frame(bytes: Seq<u8>) -> Option<(int, Seq<u8>, Seq<u8>)> {
    if bytes.len() < 4 {
        None
    } else if bytes.len() - 4 < header_len(from_be32(bytes)) {
        None
    } else {
        Some(
            (
                header_tag(from_be32(bytes)),
                bytes.subrange(4, 4 + header_len(from_be32(bytes))),
                bytes.skip(4 + header_len(from_be32(bytes))),
            ),
        )
    }
}

/// A header read back gives the length and the tag it was made of.
pub proof fn lemma_header_round_trip(len: int, tag: int)
    requires
        0 <= len <= MAX_FRAME,
        0 <= tag < 4,
    ensures
        header_tag(header_of(len, tag)) == tag,
        header_len(header_of(len, tag)) == len,
        0 <= header_of(len, tag) <= u32::MAX,
{
}

/// Four big-endian bytes read back give the number they were made of.
pub proof fn lemma_be32_round_trip(n: int)
    requires
        0 <= n <= u32::MAX,
    ensures
        be32(n).len() == 4,
        from_be32(be32(n)) == n,
{
}

/// A frame, whatever follows it, splits into the tag and the payload it was
/// made of and what follows.
pub proof fn lemma_split_frame(tag: int, payload: Seq<u8>, rest: Seq<u8>)
    requires
        payload.len() <= MAX_FRAME,
        0 <= tag < 4,
    ensures
        split_frame(frame_bytes(tag, payload) + rest) == Some((tag, payload, rest)),
{
    let len = payload.len() as int;
    let header = header_of(len, tag);
    lemma_header_round_trip(len, tag);
    lemma_be32_round_trip(header);
    let bytes = frame_bytes(tag, payload) + rest;
    assert(bytes[0] == be32(header)[0]);
    assert(bytes[1] == be32(header)[1]);
    assert(bytes[2] == be32(header)[2]);
    assert(bytes[3] == be32(header)[3]);
    assert(from_be32(bytes) == header);
    assert(bytes.subrange(4, 4 + len) =~= payload);
    assert(bytes.skip(4 + len) =~= rest);
}

/// Splits a header's value into the payload length and the compression tag.
pub fn decode_header(header: usize) -> (r: (usize, usize))
    ensures
        r.0 == header_len(header as int),
        r.1 == header_tag(header as int),
{
    let compressed = (header / 0x4000_0000) % 4;
    let len = header - compressed * 0x4000_0000;
    (len, compressed)
}

/// The header's value for a payload of `len` bytes under compression `tag`.
pub fn encode_header(len: usize, tag: usize) -> (header: u32)
    requires
        len <= MAX_FRAME,
        tag < 4,
    ensures
        header == header_of(len as int, tag as int),
{
    (len + tag * 0x4000_0000) as u32
}

/// The four bytes of `n`, most significant first.
fn be32_bytes(n: u32) -> (bytes: [u8; 4])
    ensures
        bytes@ == be32(n as int),
{
    let bytes = [
        ((n / 0x100_0000) % 0x100) as u8,
        ((n / 0x1_0000) % 0x100) as u8,
        ((n / 0x100) % 0x100) as u8,
        (n % 0x100) as u8,
    ];
    assert(bytes@ =~= be32(n as int));
    bytes
}

/// The number whose four bytes, most significant first, `bytes` starts with.
fn read_be32(bytes: &[u8]) -> (n: u32)
    requires
        bytes@.len() >= 4,
    ensures
        n == from_be32(bytes@),
{
    let b0: u32 = bytes[0] as u32;
    let b1: u32 = bytes[1] as u32;
    let b2: u32 = bytes[2] as u32;
    let b3: u32 = bytes[3] as u32;
    b0 * 0x100_0000 + b1 * 0x1_0000 + b2 * 0x100 + b3
}

/// Adds the frame of `payload` under compression `tag` at the end of `buf`.
/// Fails with a frame error, leaving `buf` as it is, exactly where the payload
/// is longer than a header can announce or `buf` cannot grow by the frame.
pub fn write_frame(tag: usize, payload: &[u8], buf: &mut BytesMut) -> (r: Result<(), KvError>)
    requires
        tag < 4,
    ensures
        payload@.len() <= MAX_FRAME && buffered(*old(buf)).len() + 4 + payload@.len() <= usize::MAX
            ==> r is Ok && buffered(*final(buf)) == buffered(*old(buf)) + frame_bytes(
            tag as int,
            payload@,
        ),
        !(payload@.len() <= MAX_FRAME && buffered(*old(buf)).len() + 4 + payload@.len()
            <= usize::MAX) ==> r == Err::<(), KvError>(KvError::FrameError) && buffered(*final(buf))
            == buffered(*old(buf)),
{
    let len = payload.len();
    if len > MAX_FRAME {
        return Err(KvError::FrameError);
    }
    let held = buf_len(buf);
    if held > usize::MAX - 4 - len {
        return Err(KvError::FrameError);
    }
    let header = be32_bytes(encode_header(len, tag));
    buf_extend(buf, header.as_slice());
    buf_extend(buf, payload);
    proof {
        assert(buffered(*buf) =~= buffered(*old(buf)) + frame_bytes(tag as int, payload@));
    }
    Ok(())
}

/// Takes the first frame off `buf` and returns its compression tag and its
/// payload. Fails with a frame error, leaving `buf` as it is, exactly where
/// `buf` is cut short.
pub fn take_frame(buf: &mut BytesMut) -> (r: Result<(usize, BytesMut), KvError>)
    ensures
        match split_frame(buffered(*old(buf))) {
            Some((tag, payload, rest)) => r matches Ok((t, p)) && t == tag && buffered(p) == payload
                && buffered(*final(buf)) == rest,
            None => r matches Err(KvError::FrameError) && buffered(*final(buf)) == buffered(
                *old(buf),
            ),
        },
{
    if buf_len(buf) < LEN_LEN {
        return Err(KvError::FrameError);
    }
    let header = read_be32(buf_as_slice(buf)) as usize;
    let (len, tag) = decode_header(header);
    if buf_len(buf) - LEN_LEN < len {
        return Err(KvError::FrameError);
    }
    let ghost all = buffered(*buf);
    let _ = buf_split_to(buf, LEN_LEN);
    let payload = buf_split_to(buf, len);
    proof {
        assert(buffered(payload) =~= all.subrange(4, 4 + len));
        assert(buffered(*buf) =~= all.skip(4 + len));
    }
    Ok((tag, payload))
}

/// The compression tag of the frame of a message whose bytes are `wire`, sent
/// with the codec `comp`: the codec's tag where the message is long enough to
/// be compressed, and 0 where it is not.
pub open spec fn frame_tag(wire: Seq<u8>, comp: usize) -> int {
    if wire.len() > COMPRESSION_LIMIT {
        codec_tag(comp) as int
    } else {
        0
    }
}

/// The payload of the frame of a message whose bytes are `wire`, sent with the
/// codec `comp`: what the codec writes for the bytes where the message is long
/// enough to be compressed, and the bytes themselves where it is not; `None`
/// where the codec fails.
pub open spec fn frame_payload(wire: Seq<u8>, comp: usize) -> Option<Seq<u8>> {
    if wire.len() > COMPRESSION_LIMIT {
        deflated_by(comp, wire)
    } else {
        Some(wire)
    }
}

/// Whether a buffer that held `before` holds `after`, with the outcome `r`,
/// once a message whose bytes are `wire` was framed onto it with the codec
/// `comp`.
pub open spec fn framed(
    wire: Seq<u8>,
    comp: usize,
    before: Seq<u8>,
    after: Seq<u8>,
    r: Result<(), KvError>,
) -> bool {
    if wire.len() > MAX_FRAME {
        r matches Err(KvError::FrameError) && after == before
    } else {
        match frame_payload(wire, comp) {
            None => r matches Err(KvError::IOError(_)) && after == before,
            Some(payload) => if payload.len() <= MAX_FRAME && before.len() + 4 + payload.len()
                <= usize::MAX {
                &&& r is Ok
                &&& after == before + frame_bytes(frame_tag(wire, comp), payload)
                &&& inflated_by(frame_tag(wire, comp) as usize, payload) == Some(wire)
            } else {
                r matches Err(KvError::FrameError) && after == before
            },
        }
    }
}

/// The header of a frame, behind whatever the buffer held, says the tag and
/// the length the frame was made with.
pub proof fn lemma_frame_header(tag: int, payload: Seq<u8>, before: Seq<u8>)
    requires
        payload.len() <= MAX_FRAME,
        0 <= tag < 4,
    ensures
        appended(before, before + frame_bytes(tag, payload)) == frame_bytes(tag, payload),
        header_tag(from_be32(frame_bytes(tag, payload))) == tag,
        header_len(from_be32(frame_bytes(tag, payload))) == payload.len(),
{
    let frame = frame_bytes(tag, payload);
    let header = header_of(payload.len() as int, tag);
    assert(appended(before, before + frame) =~= frame);
    lemma_header_round_trip(payload.len() as int, tag);
    lemma_be32_round_trip(header);
    assert(frame[0] == be32(header)[0]);
    assert(frame[1] == be32(header)[1]);
    assert(frame[2] == be32(header)[2]);
    assert(frame[3] == be32(header)[3]);
}

/// A message that travels in frames.
pub trait FrameCoder: View + Sized {
    /// The bytes that stand for a message.
    spec fn wire(m: Self::V) -> Seq<u8>;

    /// The message that bytes stand for, if they stand for one.
    spec fn parsed(bytes: Seq<u8>) -> Option<Self::V>;

    /// Whether a message is small enough to be handled: every value of the
    /// type is.
    spec fn fits(m: Self::V) -> bool;

    /// The bytes of a message stand for that message.
    proof fn wire_round_trip(m: Self::V)
        requires
            Self::fits(m),
        ensures
            Self::parsed(Self::wire(m)) == Some(m),
    ;

    /// The bytes that stand for this message.
    fn encode(&self) -> (bytes: Vec<u8>)
        ensures
            Self::fits(self@),
            bytes@ == Self::wire(self@),
    ;

    /// The message that `bytes` stand for; a decode error where they stand
    /// for none.
    fn decode(bytes: &[u8]) -> (r: Result<Self, KvError>)
        ensures
            match Self::parsed(bytes@) {
                Some(m) => r matches Ok(v) && v@ == m,
                None => r matches Err(KvError::DecodeError),
            },
    ;

    /// Adds this message's frame at the end of `buf`. A message of more than
    /// [`COMPRESSION_LIMIT`] bytes is compressed with the codec
    /// `compressor_type` and the header says so; a shorter one goes as it is.
    /// It fails with a frame error where the message, or its compressed form,
    /// is longer than a header can announce or `buf` cannot grow by the frame,
    /// and with an I/O error where the codec fails. On any failure `buf`
    /// stays as it was.
    fn encode_frame_with_compressor(&self, buf: &mut BytesMut, compressor_type: usize) -> (r:
        Result<(), KvError>)
        ensures
            framed(
                Self::wire(self@),
                compressor_type,
                buffered(*old(buf)),
                buffered(*final(buf)),
                r,
            ),
            r is Ok ==> header_tag(from_be32(appended(buffered(*old(buf)), buffered(*final(buf)))))
                == frame_tag(Self::wire(self@), compressor_type),
    {
        let message = self.encode();
        let size = message.len();
        if size > MAX_FRAME {
            return Err(KvError::FrameError);
        }
        let ghost wire = Self::wire(self@);
        let ghost before = buffered(*buf);
        if size > COMPRESSION_LIMIT {
            let mut payload = buf_new();
            match compress(compressor_type, &message, &mut payload) {
                Err(e) => {
                    proof {
                        assert(codec_tag(compressor_type) != 0);
                    }
                    Err(e)
                },
                Ok(_) => {
                    let tag = if compressor_type == GZIP || compressor_type == LZ4
                        || compressor_type == ZSTD {
                        compressor_type
                    } else {
                        0
                    };
                    proof {
                        assert(buffered(payload) =~= deflated_by(compressor_type, wire)->Some_0);
                        assert(frame_tag(wire, compressor_type) == tag);
                    }
                    let r = write_frame(tag, buf_as_slice(&payload), buf);
                    proof {
                        if r is Ok {
                            lemma_frame_header(tag as int, buffered(payload), before);
                        }
                    }
                    r
                },
            }
        } else {
            let r = write_frame(0, message.as_slice(), buf);
            proof {
                assert(frame_tag(wire, compressor_type) == 0);
                if r is Ok {
                    lemma_frame_header(0, message@, before);
                }
            }
            r
        }
    }

    /// Adds this message's frame at the end of `buf`, compressing with gzip
    /// where the message is long.
    fn encode_frame(&self, buf: &mut BytesMut) -> (r: Result<(), KvError>)
        ensures
            framed(Self::wire(self@), GZIP, buffered(*old(buf)), buffered(*final(buf)), r),
            r is Ok ==> header_tag(from_be32(appended(buffered(*old(buf)), buffered(*final(buf)))))
                == frame_tag(Self::wire(self@), GZIP),
    {
        self.encode_frame_with_compressor(buf, GZIP)
    }

    /// Takes the first frame off `buf` and returns the message in it. Fails
    /// with a frame error, leaving `buf` as it is, where `buf` is cut short;
    /// with an I/O error where the payload does not decompress; with a decode
    /// error where the bytes stand for no message.
    fn decode_frame(buf: &mut BytesMut) -> (r: Result<Self, KvError>)
        ensures
            match split_frame(buffered(*old(buf))) {
                None => r matches Err(KvError::FrameError) && buffered(*final(buf)) == buffered(
                    *old(buf),
                ),
                Some((tag, payload, rest)) => buffered(*final(buf)) == rest && (match inflated_by(
                    tag as usize,
                    payload,
                ) {
                    None => r matches Err(KvError::IOError(_)),
                    Some(message) => match Self::parsed(message) {
                        Some(m) => r matches Ok(v) && v@ == m,
                        None => r matches Err(KvError::DecodeError),
                    },
                }),
            },
    {
        match take_frame(buf) {
            Err(e) => Err(e),
            Ok((tag, payload)) => {
                let mut message: Vec<u8> = Vec::new();
                match decompress(tag, &payload, &mut message) {
                    Err(e) => Err(e),
                    Ok(()) => {
                        proof {
                            assert(message@ =~= inflated_by(tag, buffered(payload))->Some_0);
                        }
                        Self::decode(message.as_slice())
                    },
                }
            },
        }
    }
}

/// A message that was framed, under any codec, comes back from its frame as it
/// went in, and what followed the frame is left in the buffer.
pub proof fn law_frame_round_trip<T: FrameCoder>(
    m: T::V,
    comp: usize,
    payload: Seq<u8>,
    rest: Seq<u8>,
)
    requires
        T::fits(m),
        payload.len() <= MAX_FRAME,
        inflated_by(frame_tag(T::wire(m), comp) as usize, payload) == Some(T::wire(m)),
    ensures
        split_frame(frame_bytes(frame_tag(T::wire(m), comp), payload) + rest) == Some(
            (frame_tag(T::wire(m), comp), payload, rest),
        ),
        T::parsed(inflated_by(frame_tag(T::wire(m), comp) as usize, payload)->Some_0) == Some(m),
        header_tag(from_be32(frame_bytes(frame_tag(T::wire(m), comp), payload))) == frame_tag(
            T::wire(m),
            comp,
        ),
{
    let tag = frame_tag(T::wire(m), comp);
    lemma_split_frame(tag, payload, rest);
    T::wire_round_trip(m);
    lemma_split_frame(tag, payload, Seq::empty());
    let frame = frame_bytes(tag, payload);
    assert(frame + Seq::<u8>::empty() =~= frame);
    lemma_header_round_trip(payload.len() as int, tag);
    lemma_be32_round_trip(header_of(payload.len() as int, tag));
    assert(frame[0] == be32(header_of(payload.len() as int, tag))[0]);
    assert(frame[1] == be32(header_of(payload.len() as int, tag))[1]);
    assert(frame[2] == be32(header_of(payload.len() as int, tag))[2]);
    assert(frame[3] == be32(header_of(payload.len() as int, tag))[3]);
}

impl FrameCoder for CommandRequest {
    open spec fn wire(m: RequestModel) -> Seq<u8> {
        request_wire(m)
    }

    open spec fn parsed(bytes: Seq<u8>) -> Option<RequestModel> {
        request_parsed(bytes)
    }

    open spec fn fits(m: RequestModel) -> bool {
        request_fits(m)
    }

    proof fn wire_round_trip(m: RequestModel) {
        lemma_request_round_trip(m);
    }

    fn encode(&self) -> (bytes: Vec<u8>) {
        let bytes = encode_request(self);
        proof {
            assert(Self::fits(self@) && bytes@ == Self::wire(self@));
        }
        bytes
    }

    fn decode(bytes: &[u8]) -> (r: Result<Self, KvError>) {
        proof {
            assert(Self::parsed(bytes@) == request_parsed(bytes@));
        }
        match decode_request(bytes) {
            Some(v) => Ok(v),
            None => Err(KvError::DecodeError),
        }
    }
}

impl FrameCoder for CommandResponse {
    open spec fn wire(m: ResponseModel) -> Seq<u8> {
        response_wire(m)
    }

    open spec fn parsed(bytes: Seq<u8>) -> Option<ResponseModel> {
        response_parsed(bytes)
    }

    open spec fn fits(m: ResponseModel) -> bool {
        response_fits(m)
    }

    proof fn wire_round_trip(m: ResponseModel) {
        lemma_response_round_trip(m);
    }

    fn encode(&self) -> (bytes: Vec<u8>) {
        let bytes = encode_response(self);
        proof {
            assert(Self::fits(self@) && bytes@ == Self::wire(self@));
        }
        bytes
    }

    fn decode(bytes: &[u8]) -> (r: Result<Self, KvError>) {
        proof {
            assert(Self::parsed(bytes@) == response_parsed(bytes@));
        }
        match decode_response(bytes) {
            Some(v) => Ok(v),
            None => Err(KvError::DecodeError),
        }
    }
}

} // verus!
