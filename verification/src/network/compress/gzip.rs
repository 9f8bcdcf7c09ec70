use bytes::BufMut;
use bytes::BytesMut;
use flate2::read::GzDecoder;
use flate2::write::GzEncoder;
use flate2::Compression;
use std::io::Read;
use std::io::Write;
use vstd::prelude::*;

use super::super::buffer::{buf_as_slice, buf_len, buffered, io_error_text};
use super::{appended, compressed, Compressor};
use crate::error::KvError;

verus! {

/// What `flate2`'s gzip decoder reads out of `bytes`; `None` where it reports
/// an error.
pub uninterp spec fn gzip_inflated(bytes: Seq<u8>) -> Option<Seq<u8>>;

/// What `flate2`'s gzip encoder at the default level writes for `src`; `None` where it reports an
/// error.
pub uninterp spec fn gzip_deflated(src: Seq<u8>) -> Option<Seq<u8>>;

/// `GzEncoder` at the default level, writing through `BufMut::writer`: on
/// success the buffer has grown by a gzip stream that the decoder reads back
/// as `src`.
/// Whether the encoder succeeds, and what it writes, is a matter of `src`
/// alone. Whatever the outcome, the writer only adds to the buffer: what it
/// held stays in front.
#[verifier::external_body]
fn gzip_deflate(src: &[u8], dst: &mut BytesMut) -> (r: Result<(), std::io::Error>)
    ensures
        buffered(*old(dst)).is_prefix_of(buffered(*final(dst))),
        r is Ok == gzip_deflated(src@) is Some,
        r is Ok ==> appended(buffered(*old(dst)), buffered(*final(dst))) == gzip_deflated(
            src@,
        )->Some_0,
        r is Ok ==> gzip_inflated(appended(buffered(*old(dst)), buffered(*final(dst)))) == Some(
            src@,
        ),
{
    let mut encoder = GzEncoder::new(dst.writer(), Compression::default());
    encoder.write_all(src)?;
    encoder.finish()?;
    Ok(())
}

/// `GzDecoder` read to its end: succeeds exactly where the decoder reads
/// `src` without error, and then adds what it read to `dst`.
#[verifier::external_body]
fn gzip_inflate(src: &[u8], dst: &mut Vec<u8>) -> (r: Result<(), std::io::Error>)
    ensures
        r is Ok == gzip_inflated(src@) is Some,
        r is Ok ==> final(dst)@ == old(dst)@ + gzip_inflated(src@)->Some_0,
{
    let mut decoder = GzDecoder::new(src);
    decoder.read_to_end(dst)?;
    Ok(())
}

/// The gzip codec.
#[derive(Debug)]
pub struct Gzip {}

impl Compressor for Gzip {
    open spec fn deflated(src: Seq<u8>) -> Option<Seq<u8>> {
        gzip_deflated(src)
    }

    open spec fn inflated(bytes: Seq<u8>) -> Option<Seq<u8>> {
        gzip_inflated(bytes)
    }

    fn compress(src: &[u8], dst: &mut BytesMut) -> (r: Result<usize, KvError>) {
        let outcome = gzip_deflate(src, dst);
        proof {
            assert(Self::deflated(src@) == gzip_deflated(src@));
            if outcome is Ok {
                assert(Self::inflated(appended(buffered(*old(dst)), buffered(*dst))) == Some(
                    src@,
                ));
            }
        }
        compressed(outcome, buf_len(dst))
    }

    fn decompress(src: &BytesMut, dst: &mut Vec<u8>) -> (r: Result<(), KvError>) {
        match gzip_inflate(buf_as_slice(src), dst) {
            Ok(_) => Ok(()),
            Err(e) => Err(KvError::IOError(io_error_text(&e))),
        }
    }
}

} // verus!
