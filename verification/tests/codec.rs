//! The wire codec: exact encodings, round trips, binary safety, and the
//! inputs decoding must refuse.

use respkv::resp::FormatError;
use respkv::resp::RespObject;
use respkv::resp::RespValues;
use respkv::resp::array::RespArray;
use respkv::resp::bulk_string::RespBulkString;
use respkv::resp::null::RespNull;
use respkv::resp::simple_string::RespSimpleString;

fn bulk(bytes: &[u8]) -> RespValues {
    RespValues::BulkString(RespBulkString::from_raw(bytes.to_vec()))
}

fn simple(text: &str) -> RespValues {
    RespValues::SimpleString(RespSimpleString::from_str(text))
}

fn array(values: Vec<RespValues>) -> RespValues {
    RespValues::Array(RespArray::from_raw(values))
}

fn decode_err(data: &[u8]) -> FormatError {
    match RespValues::deserialize(data) {
        Err(e) => e,
        Ok(_) => panic!("expected a decode error"),
    }
}

fn round_trips(v: RespValues) {
    let encoded = v.serialize();
    let (consumed, decoded) = RespValues::deserialize(&encoded).expect("decode");
    assert_eq!(consumed, encoded.len());
    assert_eq!(decoded.serialize(), encoded);
}

#[test]
fn encodes_ping_request() {
    let v = array(vec![bulk(b"ping")]);
    assert_eq!(v.serialize(), b"*1\r\n$4\r\nping\r\n".to_vec());
}

#[test]
fn encodes_simple_string() {
    assert_eq!(simple("PONG").serialize(), b"+PONG\r\n".to_vec());
}

#[test]
fn encodes_null_with_single_marker() {
    assert_eq!(RespValues::Null(RespNull {}).serialize(), b"_\r\n".to_vec());
}

#[test]
fn encodes_empty_bulk_string() {
    assert_eq!(bulk(b"").serialize(), b"$0\r\n\r\n".to_vec());
}

#[test]
fn round_trip_of_each_kind() {
    round_trips(simple("OK"));
    round_trips(bulk(b"hello"));
    round_trips(RespValues::Null(RespNull {}));
    round_trips(array(vec![]));
    round_trips(array(vec![bulk(b"SET"), bulk(b"k"), bulk(b"v")]));
}

#[test]
fn round_trip_of_nested_arrays() {
    let v = array(vec![
        array(vec![simple("a"), bulk(b"b")]),
        RespValues::Null(RespNull {}),
        array(vec![array(vec![])]),
    ]);
    round_trips(v);
}

#[test]
fn bulk_string_is_binary_safe() {
    // a payload holding the terminator sequence must not end decoding early
    let payload = b"ab\r\ncd\r\n".to_vec();
    let v = bulk(&payload);
    let encoded = v.serialize();
    assert_eq!(encoded, b"$8\r\nab\r\ncd\r\n\r\n".to_vec());
    let (consumed, decoded) = RespValues::deserialize(&encoded).expect("decode");
    assert_eq!(consumed, encoded.len());
    match decoded {
        RespValues::BulkString(b) => assert_eq!(b.inner().clone(), payload),
        _ => panic!("expected a bulk string"),
    }
}

#[test]
fn decodes_with_trailing_bytes_and_reports_consumption() {
    let (consumed, decoded) = RespValues::deserialize(b"+PONG\r\nextra").expect("decode");
    assert_eq!(consumed, 7);
    assert_eq!(decoded.serialize(), b"+PONG\r\n".to_vec());
}

#[test]
fn decodes_length_prefix_with_leading_zeros() {
    let (consumed, decoded) = RespValues::deserialize(b"$03\r\nabc\r\n").expect("decode");
    assert_eq!(consumed, 10);
    match decoded {
        RespValues::BulkString(b) => assert_eq!(b.inner().clone(), b"abc".to_vec()),
        _ => panic!("expected a bulk string"),
    }
}

#[test]
fn rejects_empty_input() {
    assert_eq!(decode_err(b""), FormatError::Truncated);
}

#[test]
fn rejects_unknown_marker() {
    assert_eq!(decode_err(b"xyz\r\n"), FormatError::UnknownMarker);
}

#[test]
fn rejects_historic_null_encoding() {
    // only the single chosen null marker decodes; "$-1\r\n" is no length
    assert_eq!(decode_err(b"$-1\r\n"), FormatError::BadLength);
}

#[test]
fn rejects_truncated_bulk_string() {
    assert_eq!(decode_err(b"$5\r\nab\r\n"), FormatError::Truncated);
}

#[test]
fn rejects_bulk_string_without_final_terminator() {
    assert_eq!(decode_err(b"$2\r\nabXY"), FormatError::Truncated);
}

#[test]
fn rejects_missing_terminator() {
    assert_eq!(decode_err(b"+PONG"), FormatError::MissingTerminator);
}

#[test]
fn rejects_array_with_missing_elements() {
    assert_eq!(decode_err(b"*2\r\n+a\r\n"), FormatError::Truncated);
}

#[test]
fn rejects_non_decimal_length() {
    assert_eq!(decode_err(b"*x\r\n"), FormatError::BadLength);
}

#[test]
fn rejects_non_ascii_simple_string() {
    assert_eq!(decode_err(b"+\xffhi\r\n"), FormatError::NonAsciiText);
}

#[test]
fn rejects_oversized_length_prefix() {
    assert_eq!(decode_err(b"$99999999999999999999999\r\nab\r\n"), FormatError::BadLength);
}

#[test]
fn decodes_empty_array() {
    let (consumed, decoded) = RespValues::deserialize(b"*0\r\n").expect("decode");
    assert_eq!(consumed, 4);
    match decoded {
        RespValues::Array(a) => assert_eq!(a.len(), 0),
        _ => panic!("expected an array"),
    }
}

#[test]
fn array_accessors_read_and_write_elements() {
    let mut a = RespArray::from_raw(vec![bulk(b"a"), bulk(b"b")]);
    assert_eq!(a.len(), 2);
    assert!(a.get(2).is_none());
    match a.get(1) {
        Some(RespValues::BulkString(b)) => assert_eq!(b.inner().clone(), b"b".to_vec()),
        _ => panic!("expected a bulk string"),
    }
    a.set(0, simple("x"));
    match a.get(0) {
        Some(RespValues::SimpleString(s)) => assert_eq!(s.inner(), "x"),
        _ => panic!("expected a simple string"),
    }
    assert_eq!(a.inner().len(), 2);
}

#[test]
fn bulk_string_accessors_read_and_write_bytes() {
    let mut b = RespBulkString::from_raw(b"abc".to_vec());
    assert_eq!(b.len(), 3);
    assert_eq!(b.get(1).copied(), Some(98));
    assert!(b.get(3).is_none());
    b.set(0, 122);
    assert_eq!(b.as_str(), "zbc");
    assert_eq!(b.inner().clone(), b"zbc".to_vec());
}

#[test]
fn simple_string_accessors() {
    let s = RespSimpleString::from_str("PONG");
    assert_eq!(s.inner(), "PONG");
    assert_eq!(s.len(), 4);
}

#[test]
fn decoded_simple_string_carries_its_text() {
    let (consumed, decoded) = RespValues::deserialize(b"+hi there\r\n").expect("decode");
    assert_eq!(consumed, 11);
    match decoded {
        RespValues::SimpleString(s) => assert_eq!(s.inner(), "hi there"),
        _ => panic!("expected a simple string"),
    }
}

#[test]
fn decoded_bulk_string_carries_its_bytes() {
    let (_, decoded) = RespValues::deserialize(b"$3\r\nkey\r\n").expect("decode");
    match decoded {
        RespValues::BulkString(b) => {
            assert_eq!(b.as_str(), "key");
            assert_eq!(b.inner().clone(), b"key".to_vec());
        },
        _ => panic!("expected a bulk string"),
    }
}
