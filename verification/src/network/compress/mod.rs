//! Compression of frame payloads.

use bytes::BytesMut;
use vstd::prelude::*;

pub mod gzip;
pub mod lz4_comp;
pub mod zstd_comp;

use super::buffer::{buf_as_slice, buf_extend, buf_len, buffered, io_error_text};
use crate::error::KvError;
use gzip::{gzip_deflated, gzip_inflated, Gzip};
use lz4_comp::{lz4_deflated, lz4_inflated, Lz4};
use zstd_comp::{zstd_deflated, zstd_inflated, Zstd};

verus! {

/// Tag of the gzip codec.
pub const GZIP: usize = 1;

/// Tag of the lz4 codec.
pub const LZ4: usize = 2;

/// Tag of the zstd codec.
pub const ZSTD: usize = 3;

/// What `after` holds behind `before`.
pub open spec fn appended(before: Seq<u8>, after: Seq<u8>) -> Seq<u8> {
    after.skip(before.len() as int)
}

/// What a codec's `compress` returns for what the codec reported: the length
/// the buffer then has where the codec succeeded, and an I/O error that carries
/// the codec's report where it failed.
pub fn compressed(outcome: Result<(), std::io::Error>, len: usize) -> (r: Result<usize, KvError>)
    ensures
        outcome is Ok ==> r == Ok::<usize, KvError>(len),
        outcome is Err ==> r matches Err(KvError::IOError(_)),
{
    match outcome {
        Ok(_) => Ok(len),
        Err(e) => Err(KvError::IOError(io_error_text(&e))),
    }
}

/// A codec for frame payloads.
pub trait Compressor {
    /// What compression writes for `src`; `None` where it fails.
    spec fn deflated(src: Seq<u8>) -> Option<Seq<u8>>;

    /// What decompression reads out of `bytes`; `None` where it fails.
    spec fn inflated(bytes: Seq<u8>) -> Option<Seq<u8>>;

    /// Adds the compressed form of `src` at the end of `dst` and returns the
    /// length `dst` then has. What was added decompresses to `src`. Where the
    /// codec fails, the error is an I/O error, and `dst` still starts with
    /// what it held.
    fn compress(src: &[u8], dst: &mut BytesMut) -> (r: Result<usize, KvError>)
        ensures
            buffered(*old(dst)).is_prefix_of(buffered(*final(dst))),
            r is Ok == Self::deflated(src@) is Some,
            r matches Ok(n) ==> n == buffered(*final(dst)).len() && appended(
                buffered(*old(dst)),
                buffered(*final(dst)),
            ) == Self::deflated(src@)->Some_0 && Self::inflated(Self::deflated(src@)->Some_0)
                == Some(src@),
            r matches Err(e) ==> e is IOError,
    ;

    /// Adds what `src` decompresses to at the end of `dst`; fails exactly where
    /// `src` is no compressed form of anything.
    fn decompress(src: &BytesMut, dst: &mut Vec<u8>) -> (r: Result<(), KvError>)
        ensures
            r is Ok == Self::inflated(buffered(*src)) is Some,
            r is Ok ==> final(dst)@ == old(dst)@ + Self::inflated(buffered(*src))->Some_0,
            r matches Err(e) ==> e is IOError,
    ;
}

/// The tag a frame compressed with codec `comp` carries: `comp` itself where it
/// names a codec, and 0, for no compression, where it names none.
pub open spec fn codec_tag(comp: usize) -> usize {
    if comp == GZIP || comp == LZ4 || comp == ZSTD {
        comp
    } else {
        0
    }
}

/// What the codec `comp` reads out of `bytes`; a `comp` that names no codec
/// leaves the bytes as they are.
pub open spec fn inflated_by(comp: usize, bytes: Seq<u8>) -> Option<Seq<u8>> {
    if comp == GZIP {
        gzip_inflated(bytes)
    } else if comp == LZ4 {
        lz4_inflated(bytes)
    } else if comp == ZSTD {
        zstd_inflated(bytes)
    } else {
        Some(bytes)
    }
}

/// What the codec `comp` writes for `src`; a `comp` that names no codec
/// leaves the bytes as they are.
pub open spec fn deflated_by(comp: usize, src: Seq<u8>) -> Option<Seq<u8>> {
    if comp == GZIP {
        gzip_deflated(src)
    } else if comp == LZ4 {
        lz4_deflated(src)
    } else if comp == ZSTD {
        zstd_deflated(src)
    } else {
        Some(src)
    }
}

/// Compresses `src` with the codec `comp` onto the end of `dst` and returns
/// the length `dst` then has. A `comp` that names no codec copies `src` and
/// returns its length. It fails with an I/O error where the codec fails, and
/// with a frame error where `dst` cannot grow by the copy; `dst` then still
/// starts with what it held.
pub fn compress(comp: usize, src: &Vec<u8>, dst: &mut BytesMut) -> (r: Result<usize, KvError>)
    ensures
        buffered(*old(dst)).is_prefix_of(buffered(*final(dst))),
        codec_tag(comp) != 0 ==> (r is Ok == deflated_by(comp, src@) is Some) && (r matches Err(
            e,
        ) ==> e is IOError),
        codec_tag(comp) == 0 ==> (if buffered(*old(dst)).len() + src@.len() <= usize::MAX {
            r is Ok
        } else {
            r == Err::<usize, KvError>(KvError::FrameError) && buffered(*final(dst)) == buffered(
                *old(dst),
            )
        }),
        r is Ok ==> buffered(*final(dst)) == buffered(*old(dst)) + deflated_by(
            comp,
            src@,
        )->Some_0 && inflated_by(comp, deflated_by(comp, src@)->Some_0) == Some(src@),
        r matches Ok(n) ==> n == (if codec_tag(comp) == 0 {
            src@.len()
        } else {
            buffered(*final(dst)).len()
        }),
{
    let ghost before = buffered(*dst);
    let r = if comp == GZIP {
        Gzip::compress(src.as_slice(), dst)
    } else if comp == LZ4 {
        Lz4::compress(src.as_slice(), dst)
    } else if comp == ZSTD {
        Zstd::compress(src.as_slice(), dst)
    } else {
        if buf_len(dst) > usize::MAX - src.len() {
            return Err(KvError::FrameError);
        }
        buf_extend(dst, src.as_slice());
        Ok(src.len())
    };
    proof {
        if r is Ok {
            assert(buffered(*dst) =~= before + appended(before, buffered(*dst)));
        }
    }
    r
}

/// Decompresses `src` with the codec `comp` onto the end of `dst`. A `comp`
/// that names no codec copies `src`.
pub fn decompress(comp: usize, src: &BytesMut, dst: &mut Vec<u8>) -> (r: Result<(), KvError>)
    ensures
        r is Ok == inflated_by(comp, buffered(*src)) is Some,
        r is Ok ==> final(dst)@ == old(dst)@ + inflated_by(comp, buffered(*src))->Some_0,
        r matches Err(e) ==> e is IOError,
{
    if comp == GZIP {
        Gzip::decompress(src, dst)
    } else if comp == LZ4 {
        Lz4::decompress(src, dst)
    } else if comp == ZSTD {
        Zstd::decompress(src, dst)
    } else {
        dst.extend_from_slice(buf_as_slice(src));
        Ok(())
    }
}

} // verus!
