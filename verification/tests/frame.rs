use bytes::BytesMut;
use simple_kv::{
    decode_header, encode_header, take_frame, write_frame, CommandRequest, CommandResponse,
    FrameCoder, KvError, Kvpair, Value, COMPRESSION_LIMIT, MAX_FRAME,
};

fn is_compressed(buf: &BytesMut) -> bool {
    if let &[v] = &buf[..1] {
        (v >> 6) != 0
    } else {
        true
    }
}

#[test]
fn read_frame_should_work() {
    let mut buf = BytesMut::new();
    let cmd = CommandRequest::new_hdel("t1", "k1");
    cmd.encode_frame(&mut buf).unwrap();

    // what a reader of a byte stream does: four bytes of header, then as many
    // bytes as the header announces
    let mut stream = std::io::Cursor::new(buf.to_vec());
    let mut header = [0u8; 4];
    std::io::Read::read_exact(&mut stream, &mut header).unwrap();
    let (len, _compressed) = decode_header(u32::from_be_bytes(header) as usize);
    let mut payload = vec![0u8; len];
    std::io::Read::read_exact(&mut stream, &mut payload).unwrap();
    let mut data = BytesMut::new();
    data.extend_from_slice(&header);
    data.extend_from_slice(&payload);

    let cmd1 = CommandRequest::decode_frame(&mut data).unwrap();
    assert_eq!(cmd, cmd1);
}

#[test]
fn command_request_encode_decode_should_work() {
    let mut buf = BytesMut::new();
    let cmd = CommandRequest::new_hdel("t1", "k1");
    cmd.encode_frame(&mut buf).unwrap();

    assert!(!is_compressed(&buf));

    let cmd1 = CommandRequest::decode_frame(&mut buf).unwrap();
    assert_eq!(cmd1, cmd);
}

#[test]
fn command_response_encode_decode_should_work() {
    let mut buf = BytesMut::new();
    let values: Vec<Value> = vec![1.into(), "hello".into(), "world".into()];

    let res: CommandResponse = values.into();
    res.encode_frame(&mut buf).unwrap();

    assert!(!is_compressed(&buf));

    let res1 = CommandResponse::decode_frame(&mut buf).unwrap();
    assert_eq!(res, res1);
}

#[test]
fn command_response_compressed_encode_decode_should_work() {
    let mut buf = BytesMut::new();
    let value: Value = vec![0u8; COMPRESSION_LIMIT + 1].into();
    let res: CommandResponse = value.into();
    res.encode_frame(&mut buf).unwrap();

    assert!(is_compressed(&buf));

    let res1 = CommandResponse::decode_frame(&mut buf).unwrap();
    assert_eq!(res, res1);
}

#[test]
fn header_holds_length_and_tag() {
    assert_eq!(encode_header(5, 0), 5);
    assert_eq!(encode_header(5, 1), 0x4000_0005);
    assert_eq!(encode_header(MAX_FRAME, 3), 0xFFFF_FFFF);
    assert_eq!(decode_header(0x4000_0005), (5, 1));
    assert_eq!(decode_header(0xFFFF_FFFF), (MAX_FRAME, 3));
    assert_eq!(decode_header(0x8000_0000), (0, 2));
    assert_eq!(decode_header(1436), (1436, 0));
    for tag in 0..4usize {
        for len in [0usize, 1, 1436, 1437, MAX_FRAME] {
            assert_eq!(decode_header(encode_header(len, tag) as usize), (len, tag));
        }
    }
}

#[test]
fn frame_of_a_short_message_is_header_and_message() {
    let mut buf = BytesMut::new();
    let cmd = CommandRequest::new_hget("t1", "k1");
    cmd.encode_frame(&mut buf).unwrap();
    // field 1 (hget), 8 bytes: field 1 "t1", field 2 "k1"
    let message = [0x0a, 0x08, 0x0a, 0x02, b't', b'1', 0x12, 0x02, b'k', b'1'];
    let mut expected = vec![0u8, 0, 0, message.len() as u8];
    expected.extend_from_slice(&message);
    assert_eq!(&buf[..], &expected[..]);
}

#[test]
fn every_codec_marks_its_tag_and_round_trips() {
    let value: Value = vec![0u8; 16384].into();
    let cmd = CommandRequest::new_hset("t1", "k1", value);
    for codec in [1usize, 2, 3] {
        let mut buf = BytesMut::new();
        cmd.encode_frame_with_compressor(&mut buf, codec).unwrap();
        assert_eq!((buf[0] >> 6) as usize, codec);
        assert!(buf.len() < 16384);
        let back = CommandRequest::decode_frame(&mut buf).unwrap();
        assert_eq!(back, cmd);
        assert!(buf.is_empty());
    }
    let mut buf = BytesMut::new();
    cmd.encode_frame_with_compressor(&mut buf, 0).unwrap();
    assert_eq!(buf[0] >> 6, 0);
    assert!(buf.len() > 16384);
    assert_eq!(CommandRequest::decode_frame(&mut buf).unwrap(), cmd);
}

#[test]
fn message_at_the_limit_is_not_compressed_one_above_is() {
    // a response with one binary value of n bytes, 128 <= n < 16378, is n + 9
    // bytes long: 3 for the status, 3 for the key and length of the value's
    // field, 3 for the key and length of the binary field in it
    let at_limit: CommandResponse = Value::from(vec![0u8; COMPRESSION_LIMIT - 9]).into();
    let mut buf = BytesMut::new();
    at_limit.encode_frame(&mut buf).unwrap();
    assert!(!is_compressed(&buf));
    assert_eq!(buf.len(), 4 + COMPRESSION_LIMIT);
    let above: CommandResponse = Value::from(vec![0u8; COMPRESSION_LIMIT - 8]).into();
    let mut buf = BytesMut::new();
    above.encode_frame(&mut buf).unwrap();
    assert!(is_compressed(&buf));
}

#[test]
fn frames_follow_one_another_in_a_buffer() {
    let mut buf = BytesMut::new();
    let a = CommandRequest::new_hget("t1", "k1");
    let b = CommandRequest::new_subscribe("lobby");
    a.encode_frame(&mut buf).unwrap();
    b.encode_frame(&mut buf).unwrap();
    assert_eq!(CommandRequest::decode_frame(&mut buf).unwrap(), a);
    assert_eq!(CommandRequest::decode_frame(&mut buf).unwrap(), b);
    assert!(buf.is_empty());
}

#[test]
fn truncated_frame_is_a_frame_error_and_leaves_the_buffer() {
    let mut buf = BytesMut::new();
    buf.extend_from_slice(&[0, 0]);
    assert_eq!(CommandRequest::decode_frame(&mut buf), Err(KvError::FrameError));
    assert_eq!(buf.len(), 2);
    let mut buf = BytesMut::new();
    buf.extend_from_slice(&[0, 0, 0, 5, 1, 2]);
    assert_eq!(CommandRequest::decode_frame(&mut buf), Err(KvError::FrameError));
    assert_eq!(buf.len(), 6);
    assert!(matches!(take_frame(&mut buf), Err(KvError::FrameError)));
}

#[test]
fn frame_that_is_no_message_is_a_decode_error() {
    let mut buf = BytesMut::new();
    // one byte of payload: a key that announces a number and then ends
    buf.extend_from_slice(&[0, 0, 0, 1, 0x08]);
    assert_eq!(CommandRequest::decode_frame(&mut buf), Err(KvError::DecodeError));
    assert!(buf.is_empty());
}

#[test]
fn frame_with_a_broken_payload_is_an_io_error() {
    let mut buf = BytesMut::new();
    write_frame(1, b"not gzip", &mut buf).unwrap();
    assert!(matches!(CommandResponse::decode_frame(&mut buf), Err(KvError::IOError(_))));
}

#[test]
fn write_then_take_gives_tag_and_payload() {
    let mut buf = BytesMut::new();
    write_frame(2, b"abc", &mut buf).unwrap();
    buf.extend_from_slice(b"rest");
    assert_eq!(&buf[..7], &[0x80, 0, 0, 3, b'a', b'b', b'c']);
    let (tag, payload) = take_frame(&mut buf).unwrap();
    assert_eq!(tag, 2);
    assert_eq!(&payload[..], b"abc");
    assert_eq!(&buf[..], b"rest");
}

#[test]
fn messages_of_every_kind_round_trip() {
    let pairs = vec![
        Kvpair::new("k1", "v1".into()),
        Kvpair::new("", Value::default()),
        Kvpair { key: "bare".to_string(), value: None },
    ];
    let requests = vec![
        CommandRequest::default(),
        CommandRequest::new_hget("", ""),
        CommandRequest::new_hget("t1", "k1"),
        CommandRequest::new_hmget("t1", vec!["a".to_string(), "".to_string(), "é".to_string()]),
        CommandRequest::new_hgetall("t"),
        CommandRequest::new_hset("t", "k", Value::from(-1i64)),
        CommandRequest::new_hset("t", "k", Value::from_f64_bits(10.1f64.to_bits())),
        CommandRequest::new_hmset("t", pairs.clone()),
        CommandRequest::new_hdel("t", "k"),
        CommandRequest::new_hmdel("t", vec![]),
        CommandRequest::new_hexist("t", "k"),
        CommandRequest::new_hmexist("t", vec!["x".to_string()]),
        CommandRequest::new_subscribe("lobby"),
        CommandRequest::new_unsubscribe("lobby", 0),
        CommandRequest::new_unsubscribe("lobby", u32::MAX),
        CommandRequest::new_publish("lobby", vec![true.into(), false.into(), 0i64.into()]),
        CommandRequest::new_psubscribe("chat.*"),
        CommandRequest::new_punsubscribe("chat.*", 7),
    ];
    for cmd in requests {
        let mut buf = BytesMut::new();
        cmd.encode_frame(&mut buf).unwrap();
        assert_eq!(CommandRequest::decode_frame(&mut buf).unwrap(), cmd);
    }
    let responses = vec![
        CommandResponse::default(),
        CommandResponse::ok(),
        CommandResponse::from(KvError::NotFound("t1:k1".to_string())),
        CommandResponse::from(pairs),
        CommandResponse::from(vec![Value::default(), i64::MIN.into(), i64::MAX.into()]),
    ];
    for res in responses {
        let mut buf = BytesMut::new();
        res.encode_frame(&mut buf).unwrap();
        assert_eq!(CommandResponse::decode_frame(&mut buf).unwrap(), res);
    }
}

#[test]
fn payload_longer_than_the_header_can_say_is_a_frame_error() {
    let payload = vec![0u8; MAX_FRAME + 1];
    let mut buf = BytesMut::new();
    assert_eq!(write_frame(0, &payload, &mut buf), Err(KvError::FrameError));
    assert!(buf.is_empty());
}

#[test]
fn long_messages_are_framed_under_every_codec() {
    let res: CommandResponse = Value::from(vec![0u8; 2 * 1024 * 1024]).into();
    for codec in [0usize, 1, 2, 3] {
        let mut buf = BytesMut::new();
        assert_eq!(res.encode_frame_with_compressor(&mut buf, codec), Ok(()));
        let header = u32::from_be_bytes([buf[0], buf[1], buf[2], buf[3]]);
        assert_eq!((header >> 30) as usize, codec);
        assert_eq!((header & 0x3FFF_FFFF) as usize, buf.len() - 4);
        assert_eq!(CommandResponse::decode_frame(&mut buf), Ok(res.clone()));
    }
    // incompressible bytes too: the payload may grow, the frame still fits
    let noise: Vec<u8> = (0..100_000u32).map(|i| (i.wrapping_mul(2_654_435_761) >> 13) as u8).collect();
    let res: CommandResponse = Value::from(noise).into();
    for codec in [1usize, 2, 3] {
        let mut buf = BytesMut::new();
        assert_eq!(res.encode_frame_with_compressor(&mut buf, codec), Ok(()));
        assert_eq!((buf[0] >> 6) as usize, codec);
        assert_eq!(CommandResponse::decode_frame(&mut buf), Ok(res.clone()));
    }
}

#[test]
fn a_failed_frame_leaves_the_buffer_as_it_was() {
    let mut buf = BytesMut::new();
    buf.extend_from_slice(b"held");
    let payload = vec![0u8; MAX_FRAME + 1];
    assert_eq!(write_frame(1, &payload, &mut buf), Err(KvError::FrameError));
    assert_eq!(&buf[..], b"held");
    let cmd = CommandRequest::new_hget("t1", "k1");
    cmd.encode_frame(&mut buf).unwrap();
    assert_eq!(&buf[..4], b"held");
    let _ = buf.split_to(4);
    assert_eq!(CommandRequest::decode_frame(&mut buf), Ok(cmd));
}
