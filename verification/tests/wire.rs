use prost::encoding::{self, decode_key, decode_varint, encode_key, encode_varint, WireType};
use simple_kv::pb::varint::{put_varint, read_varint};
use simple_kv::pb::wire::{parse, serialize, Field, Payload};
use simple_kv::{CommandRequest, CommandResponse, FrameCoder, KvError, Kvpair, Value};

fn text(tag: u32, s: &str, buf: &mut Vec<u8>) {
    if !s.is_empty() {
        encoding::string::encode(tag, &s.to_string(), buf);
    }
}

fn nested(tag: u32, inner: &[u8], buf: &mut Vec<u8>) {
    encode_key(tag, WireType::LengthDelimited, buf);
    encode_varint(inner.len() as u64, buf);
    buf.extend_from_slice(inner);
}

fn value_bytes(build: impl FnOnce(&mut Vec<u8>)) -> Vec<u8> {
    let mut buf = vec![];
    build(&mut buf);
    buf
}

fn pair_bytes(key: &str, value: Option<&[u8]>) -> Vec<u8> {
    let mut buf = vec![];
    text(1, key, &mut buf);
    if let Some(v) = value {
        nested(2, v, &mut buf);
    }
    buf
}

fn request_bytes(tag: u32, body: &[u8]) -> Vec<u8> {
    let mut buf = vec![];
    nested(tag, body, &mut buf);
    buf
}

#[test]
fn numbers_are_written_as_the_protobuf_library_writes_them() {
    let samples = [
        0u64,
        1,
        127,
        128,
        300,
        16383,
        16384,
        u32::MAX as u64,
        1 << 35,
        (1 << 63) - 1,
        1 << 63,
        u64::MAX,
    ];
    for v in samples {
        let mut mine = vec![0xee];
        put_varint(&mut mine, v);
        let mut theirs = vec![0xee];
        encode_varint(v, &mut theirs);
        assert_eq!(mine, theirs);
        assert_eq!(read_varint(&mine, 1), Some((v, mine.len())));
        assert_eq!(decode_varint(&mut &mine[1..]), Ok(v));
    }
    assert_eq!(read_varint(&[0x80], 0), None);
    assert_eq!(read_varint(&[], 0), None);
    assert_eq!(read_varint(&[0xff; 10], 0), None);
    assert_eq!(read_varint(&[0xff, 0xff, 0xff, 0xff, 0xff, 0xff, 0xff, 0xff, 0xff, 0x02], 0), None);
    assert_eq!(read_varint(&[0x80, 0x00], 0), Some((0, 2)));
    assert_eq!(read_varint(&[0x05, 0xac, 0x02, 0x07], 1), Some((300, 3)));
}

#[test]
fn fields_are_written_as_the_protobuf_library_writes_them() {
    let fields = vec![
        Field { number: 1, data: Payload::Varint(300) },
        Field { number: 2, data: Payload::Fixed64(0x0102_0304_0506_0708) },
        Field { number: 3, data: Payload::Bytes(b"abc".to_vec()) },
        Field { number: 536_870_911, data: Payload::Fixed32(0xdead_beef) },
        Field { number: 16, data: Payload::Bytes(vec![]) },
    ];
    let mine = serialize(&fields);
    let mut theirs = vec![];
    encoding::uint64::encode(1, &300u64, &mut theirs);
    encoding::fixed64::encode(2, &0x0102_0304_0506_0708u64, &mut theirs);
    encoding::bytes::encode(3, &b"abc".to_vec(), &mut theirs);
    encoding::fixed32::encode(536_870_911, &0xdead_beefu32, &mut theirs);
    encoding::bytes::encode(16, &Vec::<u8>::new(), &mut theirs);
    assert_eq!(mine, theirs);

    let back = parse(&mine).unwrap();
    assert_eq!(back.len(), 5);
    assert!(matches!(back[0], Field { number: 1, data: Payload::Varint(300) }));
    assert!(matches!(back[1], Field { number: 2, data: Payload::Fixed64(0x0102_0304_0506_0708) }));
    assert!(matches!(&back[2], Field { number: 3, data: Payload::Bytes(b) } if b == b"abc"));
    assert!(matches!(back[3], Field { number: 536_870_911, data: Payload::Fixed32(0xdead_beef) }));
    assert!(matches!(&back[4], Field { number: 16, data: Payload::Bytes(b) } if b.is_empty()));

    let mut rest = &mine[..];
    assert_eq!(decode_key(&mut rest), Ok((1, WireType::Varint)));
}

#[test]
fn runs_that_are_no_fields_are_refused() {
    // field number 0
    assert!(parse(&[0x00, 0x00]).is_none());
    // field number beyond the range
    assert!(parse(&[0x80, 0x80, 0x80, 0x80, 0x10, 0x00]).is_none());
    // wire types 3, 4, 6, 7
    for wire in [3u8, 4, 6, 7] {
        assert!(parse(&[0x08 | wire]).is_none());
    }
    // a length that runs past the end
    assert!(parse(&[0x0a, 0x05, 1, 2]).is_none());
    // words cut short
    assert!(parse(&[0x09, 1, 2, 3, 4, 5, 6, 7]).is_none());
    assert!(parse(&[0x0d, 1, 2, 3]).is_none());
    assert_eq!(parse(&[]).map(|f| f.len()), Some(0));
}

#[test]
fn values_are_written_as_the_protobuf_library_writes_them() {
    let cases: Vec<(Value, Vec<u8>)> = vec![
        (Value::default(), vec![]),
        ("hello".into(), value_bytes(|b| encoding::string::encode(1, &"hello".to_string(), b))),
        (String::new().into(), value_bytes(|b| encoding::string::encode(1, &String::new(), b))),
        (vec![1u8, 2, 3].into(), value_bytes(|b| encoding::bytes::encode(2, &vec![1u8, 2, 3], b))),
        (0i64.into(), value_bytes(|b| encoding::int64::encode(3, &0i64, b))),
        ((-42i64).into(), value_bytes(|b| encoding::int64::encode(3, &-42i64, b))),
        (i64::MIN.into(), value_bytes(|b| encoding::int64::encode(3, &i64::MIN, b))),
        (i64::MAX.into(), value_bytes(|b| encoding::int64::encode(3, &i64::MAX, b))),
        (
            Value::from_f64_bits(10.1f64.to_bits()),
            value_bytes(|b| encoding::double::encode(4, &10.1f64, b)),
        ),
        (
            Value::from_f64_bits((-0.0f64).to_bits()),
            value_bytes(|b| encoding::double::encode(4, &-0.0f64, b)),
        ),
        (true.into(), value_bytes(|b| encoding::bool::encode(5, &true, b))),
        (false.into(), value_bytes(|b| encoding::bool::encode(5, &false, b))),
    ];
    for (value, expected) in cases {
        let mine: Vec<u8> = value.clone().try_into().unwrap();
        assert_eq!(mine, expected);
        assert_eq!(Value::try_from(&expected[..]), Ok(value));
    }
}

#[test]
fn requests_are_written_as_the_protobuf_library_writes_them() {
    let v1: Vec<u8> = Value::from("v1").try_into().unwrap();
    let mut two_texts = vec![];
    text(1, "t1", &mut two_texts);
    text(2, "k1", &mut two_texts);
    let mut keys = vec![];
    text(1, "t1", &mut keys);
    encoding::string::encode_repeated(2, &["k1".to_string(), "".to_string()], &mut keys);
    let mut one_text = vec![];
    text(1, "lobby", &mut one_text);
    let mut hset = vec![];
    text(1, "t1", &mut hset);
    nested(2, &pair_bytes("k1", Some(&v1)), &mut hset);
    let mut hmset = vec![];
    text(1, "t1", &mut hmset);
    nested(2, &pair_bytes("k1", Some(&v1)), &mut hmset);
    nested(2, &pair_bytes("", Some(&[])), &mut hmset);
    let mut unsubscribe = vec![];
    text(1, "lobby", &mut unsubscribe);
    encoding::uint32::encode(2, &7u32, &mut unsubscribe);
    let mut publish = vec![];
    text(1, "lobby", &mut publish);
    nested(2, &v1, &mut publish);
    nested(2, &[], &mut publish);

    let cases: Vec<(CommandRequest, Vec<u8>)> = vec![
        (CommandRequest::default(), vec![]),
        (CommandRequest::new_hget("t1", "k1"), request_bytes(1, &two_texts)),
        (CommandRequest::new_hget("", ""), request_bytes(1, &[])),
        (
            CommandRequest::new_hmget("t1", vec!["k1".into(), "".into()]),
            request_bytes(2, &keys),
        ),
        (CommandRequest::new_hgetall("lobby"), request_bytes(3, &one_text)),
        (CommandRequest::new_hset("t1", "k1", "v1".into()), request_bytes(4, &hset)),
        (
            CommandRequest::new_hmset(
                "t1",
                vec![Kvpair::new("k1", "v1".into()), Kvpair::new("", Value::default())],
            ),
            request_bytes(5, &hmset),
        ),
        (CommandRequest::new_hdel("t1", "k1"), request_bytes(6, &two_texts)),
        (
            CommandRequest::new_hmdel("t1", vec!["k1".into(), "".into()]),
            request_bytes(7, &keys),
        ),
        (CommandRequest::new_hexist("t1", "k1"), request_bytes(8, &two_texts)),
        (
            CommandRequest::new_hmexist("t1", vec!["k1".into(), "".into()]),
            request_bytes(9, &keys),
        ),
        (CommandRequest::new_subscribe("lobby"), request_bytes(10, &one_text)),
        (CommandRequest::new_unsubscribe("lobby", 7), request_bytes(11, &unsubscribe)),
        (CommandRequest::new_unsubscribe("lobby", 0), request_bytes(11, &one_text)),
        (
            CommandRequest::new_publish("lobby", vec!["v1".into(), Value::default()]),
            request_bytes(12, &publish),
        ),
        (CommandRequest::new_psubscribe("lobby"), request_bytes(13, &one_text)),
        (CommandRequest::new_punsubscribe("lobby", 7), request_bytes(14, &unsubscribe)),
    ];
    for (cmd, expected) in cases {
        assert_eq!(cmd.encode(), expected);
        assert_eq!(CommandRequest::decode(&expected), Ok(cmd));
    }
}

#[test]
fn responses_are_written_as_the_protobuf_library_writes_them() {
    let v1: Vec<u8> = Value::from(1i64).try_into().unwrap();
    let mut expected = vec![];
    encoding::uint32::encode(1, &404u32, &mut expected);
    text(2, "Not found: t1:k1", &mut expected);
    nested(3, &v1, &mut expected);
    nested(3, &[], &mut expected);
    nested(4, &pair_bytes("k", Some(&v1)), &mut expected);
    nested(4, &pair_bytes("bare", None), &mut expected);
    let res = CommandResponse {
        status: 404,
        message: "Not found: t1:k1".into(),
        values: vec![1i64.into(), Value::default()],
        kvpairs: vec![
            Kvpair::new("k", 1i64.into()),
            Kvpair { key: "bare".into(), value: None },
        ],
    };
    assert_eq!(res.encode(), expected);
    assert_eq!(CommandResponse::decode(&expected), Ok(res));
    assert_eq!(CommandResponse::default().encode(), Vec::<u8>::new());
    assert_eq!(CommandResponse::decode(&[]), Ok(CommandResponse::default()));
}

#[test]
fn decoding_takes_what_other_writers_may_send() {
    // fields in another order, a field of an unknown number, and a field
    // that comes twice: the last one counts
    let mut body = vec![];
    text(2, "k1", &mut body);
    encoding::uint64::encode(99, &5u64, &mut body);
    text(1, "first", &mut body);
    text(1, "t1", &mut body);
    let mut bytes = vec![];
    encoding::fixed32::encode(77, &1u32, &mut bytes);
    nested(1, &body, &mut bytes);
    assert_eq!(CommandRequest::decode(&bytes), Ok(CommandRequest::new_hget("t1", "k1")));

    // of two commands in one request the last one counts
    let mut topic = vec![];
    text(1, "lobby", &mut topic);
    nested(10, &topic, &mut bytes);
    assert_eq!(CommandRequest::decode(&bytes), Ok(CommandRequest::new_subscribe("lobby")));

    // an id wider than 32 bits keeps its low bits
    let mut wide = vec![];
    encoding::uint64::encode(2, &((1u64 << 32) + 9), &mut wide);
    assert_eq!(
        CommandRequest::decode(&request_bytes(11, &wide)),
        Ok(CommandRequest::new_unsubscribe("", 9))
    );

    // a status wider than 32 bits keeps its low bits; any non-zero number is true
    let mut res = vec![];
    encoding::uint64::encode(1, &((1u64 << 32) + 200), &mut res);
    nested(3, &value_bytes(|b| encoding::uint64::encode(5, &2u64, b)), &mut res);
    let back = CommandResponse::decode(&res).unwrap();
    assert_eq!(back.status, 200);
    assert_eq!(back.values, vec![Value::from(true)]);
}

#[test]
fn bytes_that_are_no_message_are_a_decode_error() {
    let decode_error = Err(KvError::DecodeError);
    // a command that is a number, not a message
    assert_eq!(CommandRequest::decode(&value_bytes(|b| encoding::uint64::encode(1, &1u64, b))), decode_error);
    // a table that is no text
    let mut body = vec![];
    encoding::bytes::encode(1, &vec![0xffu8, 0xfe], &mut body);
    assert_eq!(CommandRequest::decode(&request_bytes(1, &body)), decode_error);
    // a key that is a number
    let mut body = vec![];
    encoding::uint64::encode(2, &1u64, &mut body);
    assert_eq!(CommandRequest::decode(&request_bytes(1, &body)), decode_error);
    // a pair whose value is broken
    let mut body = vec![];
    nested(2, &pair_bytes("k", Some(&[0x18])), &mut body);
    assert_eq!(CommandRequest::decode(&request_bytes(4, &body)), decode_error);
    // a command cut short
    assert_eq!(CommandRequest::decode(&[0x0a, 0x04, 0x0a]), decode_error);
    // a response whose status is a text
    assert_eq!(
        CommandResponse::decode(&value_bytes(|b| encoding::string::encode(1, &"x".to_string(), b))),
        Err(KvError::DecodeError)
    );
    // a value whose integer is a text
    assert_eq!(
        Value::try_from(&value_bytes(|b| encoding::string::encode(3, &"x".to_string(), b))[..]),
        Err(KvError::DecodeError)
    );
}
