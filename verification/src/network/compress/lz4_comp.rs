use bytes::BufMut;
use bytes::BytesMut;
use lz4::Decoder;
use lz4::EncoderBuilder;
use std::io::Read;
use std::io::Write;
use vstd::prelude::*;

use super::super::buffer::{buf_as_slice, buf_len, buffered, io_error_text};
use super::{appended, compressed, Compressor};
use crate::error::KvError;

verus! {

/// What `lz4`'s frame decoder reads out of `bytes`; `None` where it reports an
/// error.
pub uninterp spec fn lz4_inflated(bytes: Seq<u8>) -> Option<Seq<u8>>;

/// What `lz4`'s frame encoder at level 4 writes for `src`; `None` where it reports an
/// error.
pub uninterp spec fn lz4_deflated(src: Seq<u8>) -> Option<Seq<u8>>;

/// An `Encoder` built by `EncoderBuilder` at level 4, writing through
/// `BufMut::writer`: on success the buffer has grown by an lz4 frame that the
/// decoder reads back as `src`.
/// Whether the encoder succeeds, and what it writes, is a matter of `src`
/// alone. Whatever the outcome, the writer only adds to the buffer: what it
/// held stays in front.
#[verifier::external_body]
fn lz4_deflate(src: &[u8], dst: &mut BytesMut) -> (r: Result<(), std::io::Error>)
    ensures
        buffered(*old(dst)).is_prefix_of(buffered(*final(dst))),
        r is Ok == lz4_deflated(src@) is Some,
        r is Ok ==> appended(buffered(*old(dst)), buffered(*final(dst))) == lz4_deflated(
            src@,
        )->Some_0,
        r is Ok ==> lz4_inflated(appended(buffered(*old(dst)), buffered(*final(dst)))) == Some(
            src@,
        ),
{
    let mut encoder = EncoderBuilder::new().level(4).build(dst.writer())?;
    encoder.write_all(src)?;
    encoder.finish().1
}

/// `Decoder` read to its end: succeeds exactly where the decoder is set up and
/// reads `src` without error, and then adds what it read to `dst`.
#[verifier::external_body]
fn lz4_inflate(src: &[u8], dst: &mut Vec<u8>) -> (r: Result<(), std::io::Error>)
    ensures
        r is Ok == lz4_inflated(src@) is Some,
        r is Ok ==> final(dst)@ == old(dst)@ + lz4_inflated(src@)->Some_0,
{
    let mut decoder = Decoder::new(src)?;
    decoder.read_to_end(dst)?;
    Ok(())
}

/// The lz4 codec.
#[derive(Debug)]
pub struct Lz4 {}

impl Compressor for Lz4 {
    open spec fn deflated(src: Seq<u8>) -> Option<Seq<u8>> {
        lz4_deflated(src)
    }

    open spec fn inflated(bytes: Seq<u8>) -> Option<Seq<u8>> {
        lz4_inflated(bytes)
    }

    fn compress(src: &[u8], dst: &mut BytesMut) -> (r: Result<usize, KvError>) {
        let outcome = lz4_deflate(src, dst);
        proof {
            assert(Self::deflated(src@) == lz4_deflated(src@));
            if outcome is Ok {
                assert(Self::inflated(appended(buffered(*old(dst)), buffered(*dst))) == Some(
                    src@,
                ));
            }
        }
        compressed(outcome, buf_len(dst))
    }

    fn decompress(src: &BytesMut, dst: &mut Vec<u8>) -> (r: Result<(), KvError>) {
        match lz4_inflate(buf_as_slice(src), dst) {
            Ok(_) => Ok(()),
            Err(e) => Err(KvError::IOError(io_error_text(&e))),
        }
    }
}

} // verus!
