use bytes::BufMut;
use bytes::BytesMut;
use zstd::Decoder;
use zstd::Encoder;
use std::io::Read;
use std::io::Write;
use vstd::prelude::*;

use super::super::buffer::{buf_as_slice, buf_len, buffered, io_error_text};
use super::{appended, compressed, Compressor};
use crate::error::KvError;

verus! {

/// What `zstd`'s stream decoder reads out of `bytes`; `None` where it reports
/// an error.
pub uninterp spec fn zstd_inflated(bytes: Seq<u8>) -> Option<Seq<u8>>;

/// What `zstd`'s stream encoder at level 1 writes for `src`; `None` where it reports an
/// error.
pub uninterp spec fn zstd_deflated(src: Seq<u8>) -> Option<Seq<u8>>;

/// `Encoder` at level 1, writing through `BufMut::writer`: on success the
/// buffer has grown by a zstd frame that the decoder reads back as `src`.
/// Whether the encoder succeeds, and what it writes, is a matter of `src`
/// alone. Whatever the outcome, the writer only adds to the buffer: what it
/// held stays in front.
#[verifier::external_body]
fn zstd_deflate(src: &[u8], dst: &mut BytesMut) -> (r: Result<(), std::io::Error>)
    ensures
        buffered(*old(dst)).is_prefix_of(buffered(*final(dst))),
        r is Ok == zstd_deflated(src@) is Some,
        r is Ok ==> appended(buffered(*old(dst)), buffered(*final(dst))) == zstd_deflated(
            src@,
        )->Some_0,
        r is Ok ==> zstd_inflated(appended(buffered(*old(dst)), buffered(*final(dst)))) == Some(
            src@,
        ),
{
    let mut encoder = Encoder::new(dst.writer(), 1)?;
    encoder.write_all(src)?;
    encoder.finish()?;
    Ok(())
}

/// `Decoder` read to its end: succeeds exactly where the decoder is set up and
/// reads `src` without error, and then adds what it read to `dst`.
#[verifier::external_body]
fn zstd_inflate(src: &[u8], dst: &mut Vec<u8>) -> (r: Result<(), std::io::Error>)
    ensures
        r is Ok == zstd_inflated(src@) is Some,
        r is Ok ==> final(dst)@ == old(dst)@ + zstd_inflated(src@)->Some_0,
{
    let mut decoder = Decoder::new(src)?;
    decoder.read_to_end(dst)?;
    Ok(())
}

/// The zstd codec.
#[derive(Debug)]
pub struct Zstd {}

impl Compressor for Zstd {
    open spec fn deflated(src: Seq<u8>) -> Option<Seq<u8>> {
        zstd_deflated(src)
    }

    open spec fn inflated(bytes: Seq<u8>) -> Option<Seq<u8>> {
        zstd_inflated(bytes)
    }

    fn compress(src: &[u8], dst: &mut BytesMut) -> (r: Result<usize, KvError>) {
        let outcome = zstd_deflate(src, dst);
        proof {
            assert(Self::deflated(src@) == zstd_deflated(src@));
            if outcome is Ok {
                assert(Self::inflated(appended(buffered(*old(dst)), buffered(*dst))) == Some(
                    src@,
                ));
            }
        }
        compressed(outcome, buf_len(dst))
    }

    fn decompress(src: &BytesMut, dst: &mut Vec<u8>) -> (r: Result<(), KvError>) {
        match zstd_inflate(buf_as_slice(src), dst) {
            Ok(_) => Ok(()),
            Err(e) => Err(KvError::IOError(io_error_text(&e))),
        }
    }
}

} // verus!
