use bytes::BytesMut;
use simple_kv::{compress, decompress, Compressor, Gzip, KvError, Lz4, Zstd};

#[test]
fn compress_and_decompress_via_lz4_should_work() {
    let ctx = b"Hello World";
    let mut buf = BytesMut::with_capacity(32);
    Lz4::compress(ctx, &mut buf).unwrap();
    let mut res = Vec::with_capacity(ctx.len());
    Lz4::decompress(&buf, &mut res).unwrap();
    assert_eq!(res, ctx[..]);
}

#[test]
fn compress_and_decompress_via_gzip_should_work() {
    let ctx = b"Hello World";
    let mut buf = BytesMut::with_capacity(32);
    Gzip::compress(ctx, &mut buf).unwrap();
    let mut res = Vec::with_capacity(ctx.len());
    Gzip::decompress(&buf, &mut res).unwrap();
    assert_eq!(res, ctx[..]);
}

#[test]
fn compress_and_decompress_via_zstd_should_work() {
    let ctx = b"Hello World";
    let mut buf = BytesMut::with_capacity(32);
    Zstd::compress(ctx, &mut buf).unwrap();
    let mut res = Vec::with_capacity(ctx.len());
    Zstd::decompress(&buf, &mut res).unwrap();
    assert_eq!(res, ctx[..]);
}

#[test]
fn compress_and_decompress_should_work() {
    let src: Vec<u8> = "Hello World".into();
    let mut buf_1 = BytesMut::with_capacity(32);
    let mut buf_2 = BytesMut::with_capacity(32);
    let mut buf_3 = BytesMut::with_capacity(32);
    let mut buf_0 = BytesMut::with_capacity(32);
    let mut dst_1 = Vec::with_capacity(src.len());
    let mut dst_2 = Vec::with_capacity(src.len());
    let mut dst_3 = Vec::with_capacity(src.len());
    let mut dst_0 = Vec::with_capacity(src.len());
    let len1 = compress(1, &src, &mut buf_1).unwrap();
    decompress(1, &buf_1, &mut dst_1).unwrap();
    let len2 = compress(2, &src, &mut buf_2).unwrap();
    decompress(2, &buf_2, &mut dst_2).unwrap();
    assert_ne!(len1, len2);
    assert_ne!(buf_1, buf_2);
    assert_eq!(dst_1, dst_2);

    let len3 = compress(3, &src, &mut buf_3).unwrap();
    decompress(3, &buf_3, &mut dst_3).unwrap();
    let len0 = compress(0, &src, &mut buf_0).unwrap();
    decompress(0, &buf_0, &mut dst_0).unwrap();
    assert_ne!(len0, len3);
    assert_ne!(buf_3, buf_0);
    assert_eq!(dst_3, dst_0);
    assert_eq!(src, dst_0);
    assert_eq!(len0, src.len());
}

#[test]
fn compressed_bytes_differ_from_the_input() {
    let src = vec![7u8; 4096];
    for codec in [1usize, 2, 3] {
        let mut packed = BytesMut::new();
        let len = compress(codec, &src, &mut packed).unwrap();
        assert_eq!(len, packed.len());
        assert!(len < src.len());
        assert_ne!(&packed[..], &src[..]);
        let mut back = Vec::new();
        decompress(codec, &packed, &mut back).unwrap();
        assert_eq!(back, src);
    }
}

#[test]
fn compress_appends_behind_what_the_buffer_holds() {
    let src = vec![1u8, 2, 3];
    let mut buf = BytesMut::new();
    buf.extend_from_slice(b"xy");
    let len = compress(0, &src, &mut buf).unwrap();
    assert_eq!(len, 3);
    assert_eq!(&buf[..], b"xy\x01\x02\x03");
    let mut gz = BytesMut::new();
    gz.extend_from_slice(b"xy");
    let total = compress(1, &src, &mut gz).unwrap();
    assert_eq!(total, gz.len());
    assert_eq!(&gz[..2], b"xy");
    let tail = gz.split_off(2);
    let mut back = vec![9u8];
    decompress(1, &tail, &mut back).unwrap();
    assert_eq!(back, vec![9u8, 1, 2, 3]);
}

#[test]
fn decompress_of_garbage_is_an_io_error() {
    let mut junk = BytesMut::new();
    junk.extend_from_slice(b"this is not a compressed stream");
    for codec in [1usize, 2, 3] {
        let mut out = Vec::new();
        let r = decompress(codec, &junk, &mut out);
        assert!(matches!(r, Err(KvError::IOError(_))));
    }
}
