use nicord::connection::Connection;
use nicord::error::{ConnectionError, FramingError};
use nicord::framing::{deframe, enframe};

fn some_test_struct() -> serde_json::Value {
    let mut fields = serde_json::Map::new();
    fields.insert("str".to_string(), serde_json::Value::from("Hello World"));
    fields.insert("int".to_string(), serde_json::Value::from(-42i32));
    fields.insert("uint".to_string(), serde_json::Value::from(42u32));
    fields.insert("float".to_string(), serde_json::Value::from(42.42f64));
    fields.insert("vec".to_string(), serde_json::Value::Array(Vec::new()));
    serde_json::Value::Object(fields)
}

#[test]
fn test_framing() {
    let s = some_test_struct();
    let json = serde_json::to_string(&s).unwrap();
    let f = enframe(&json).unwrap();
    println!("{:?}", f);
    let (payload, consumed) = deframe(&f).unwrap().unwrap();
    assert_eq!(consumed, f.len());
    let d: serde_json::Value = serde_json::from_str(&payload).unwrap();
    assert_eq!(s["str"].as_str(), d["str"].as_str());
    assert_eq!(s["int"].as_i64(), d["int"].as_i64());
    assert_eq!(s["uint"].as_u64(), d["uint"].as_u64());
    assert_eq!(s["float"].as_f64(), d["float"].as_f64());
    assert_eq!(s["vec"].as_array(), d["vec"].as_array());
    assert_eq!(d["int"].as_i64(), Some(-42));
    assert_eq!(d["float"].as_f64(), Some(42.42));
}

#[test]
fn test_connection() {
    let mut tp = serde_json::Map::new();
    tp.insert("Ping".to_string(), serde_json::Value::from("hello world"));
    let mut request = serde_json::Map::new();
    request.insert("tp".to_string(), serde_json::Value::Object(tp));
    request.insert("session_cookie".to_string(), serde_json::Value::Null);
    let json = serde_json::to_string(&serde_json::Value::Object(request)).unwrap();
    let frame = enframe(&json).unwrap();

    let mut conn = Connection::new();
    let (head, tail) = frame.split_at(10);
    assert_eq!(conn.read(head), Ok(None));
    let payload = conn.read(tail).unwrap().unwrap();
    let msg: serde_json::Value = serde_json::from_str(&payload).unwrap();
    assert_eq!(msg["tp"]["Ping"].as_str(), Some("hello world"));
    assert!(msg["session_cookie"].is_null());
}

#[test]
fn enframe_writes_seven_digits_then_the_payload() {
    assert_eq!(enframe("{}").unwrap(), b"0000002{}".to_vec());
    assert_eq!(enframe("").unwrap(), b"0000000".to_vec());
    let payload = "a".repeat(1234);
    let frame = enframe(&payload).unwrap();
    assert_eq!(&frame[..7], b"0001234");
    assert_eq!(&frame[7..], payload.as_bytes());
    assert_eq!(enframe("\"é\"").unwrap(), b"0000004\"\xc3\xa9\"".to_vec());
}

#[test]
fn enframe_largest_payload() {
    let payload = " ".repeat(9_999_992);
    let frame = enframe(&payload).unwrap();
    assert_eq!(frame.len(), 9_999_999);
    assert_eq!(&frame[..7], b"9999992");
    let (back, consumed) = deframe(&frame).unwrap().unwrap();
    assert_eq!(consumed, 9_999_999);
    assert!(back == payload);
}

#[test]
fn enframe_refuses_one_byte_more() {
    let payload = " ".repeat(9_999_993);
    assert_eq!(enframe(&payload), Err(FramingError::MaximumFrameSizeExceeded));
    let wide = "é".repeat(4_999_997);
    assert_eq!(enframe(&wide), Err(FramingError::MaximumFrameSizeExceeded));
    assert!(enframe(&wide[2..]).is_ok());
}

#[test]
fn deframe_round_trip() {
    let payload = "{\"tp\":{\"Ping\":\"hello\"},\"session_cookie\":null}".to_string();
    let frame = enframe(&payload).unwrap();
    assert_eq!(deframe(&frame), Ok(Some((payload.clone(), payload.len() + 7))));
    let wide = "{\"tp\":{\"Ping\":\"grüße, 世界 ✓\"},\"session_cookie\":null}".to_string();
    let frame = enframe(&wide).unwrap();
    assert_eq!(frame.len(), wide.len() + 7);
    assert_eq!(deframe(&frame), Ok(Some((wide.clone(), wide.len() + 7))));
}

#[test]
fn deframe_every_partial_frame_is_nothing_yet() {
    let payload = "[1,2,3,\"four\",\"fünf\",\"六\"]".to_string();
    let frame = enframe(&payload).unwrap();
    for taken in 0..frame.len() {
        assert_eq!(deframe(&frame[..taken]), Ok(None));
    }
    assert!(deframe(&frame).unwrap().is_some());
}

#[test]
fn deframe_leaves_what_follows_the_frame() {
    let mut bytes = enframe("true").unwrap();
    bytes.extend_from_slice(b"0000001");
    assert_eq!(deframe(&bytes), Ok(Some(("true".to_string(), 11))));
}

#[test]
fn deframe_needs_more_than_the_prefix() {
    assert_eq!(deframe(b""), Ok(None));
    assert_eq!(deframe(b"0000000"), Ok(None));
    assert_eq!(deframe(b"abcdefg"), Ok(None));
    assert_eq!(deframe(b"00000000"), Ok(Some((String::new(), 7))));
}

#[test]
fn deframe_refuses_a_prefix_that_is_not_digits() {
    assert_eq!(deframe(b"00000x2{}"), Err(FramingError::ParseIntError));
    assert_eq!(deframe(b"+000002{}"), Err(FramingError::ParseIntError));
    assert_eq!(deframe(b" 000002{}"), Err(FramingError::ParseIntError));
    assert_eq!(deframe(&[0xff, b'0', b'0', b'0', b'0', b'0', b'1', b'1']), Err(FramingError::ParseIntError));
}

#[test]
fn deframe_refuses_a_payload_that_is_not_utf8() {
    assert_eq!(deframe(b"0000002\xc3\x28"), Err(FramingError::FromUtf8Error));
    assert_eq!(deframe(b"0000001\xff"), Err(FramingError::FromUtf8Error));
    assert_eq!(deframe(b"0000003\xed\xa0\x80"), Err(FramingError::FromUtf8Error));
    assert_eq!(deframe(b"0000002\xc0\xaf"), Err(FramingError::FromUtf8Error));
    assert_eq!(deframe(b"0000002\xc3"), Ok(None));
    assert_eq!(deframe(b"0000002\xc3\xa9"), Ok(Some(("é".to_string(), 9))));
    assert_eq!(deframe(b"0000001a\xff"), Ok(Some(("a".to_string(), 8))));
    let mut conn = Connection::new();
    assert_eq!(conn.read(b"0000002\xc3"), Ok(None));
    assert_eq!(
        conn.read(b"\x28"),
        Err(ConnectionError::Framing(FramingError::FromUtf8Error))
    );
}

#[test]
fn connection_keeps_bytes_until_the_frame_is_complete() {
    let frame = enframe("\"0123456789\"").unwrap();
    let mut conn = Connection::new();
    for byte in &frame[..frame.len() - 1] {
        assert_eq!(conn.read(&[*byte]), Ok(None));
    }
    assert_eq!(conn.read(&frame[frame.len() - 1..]), Ok(Some("\"0123456789\"".to_string())));
}

#[test]
fn connection_closed_while_the_frame_is_incomplete() {
    let frame = enframe("[true,false]").unwrap();
    let mut conn = Connection::new();
    assert_eq!(conn.read(&frame[..9]), Ok(None));
    assert_eq!(conn.read(&[]), Err(ConnectionError::ConnectionClosed));
    let mut fresh = Connection::new();
    assert_eq!(fresh.read(&[]), Err(ConnectionError::ConnectionClosed));
}

#[test]
fn connection_reports_a_bad_prefix() {
    let mut conn = Connection::new();
    assert_eq!(conn.read(b"12"), Ok(None));
    assert_eq!(conn.read(b"x4567"), Ok(None));
    assert_eq!(
        conn.read(b"8"),
        Err(ConnectionError::Framing(FramingError::ParseIntError))
    );
}

#[test]
fn connection_gives_up_what_follows_the_frame() {
    let mut bytes = enframe("1").unwrap();
    bytes.extend_from_slice(b"0000001");
    let mut conn = Connection::new();
    assert_eq!(conn.read(&bytes), Ok(Some("1".to_string())));
    assert_eq!(conn.read(b"0"), Ok(None));
    assert_eq!(conn.read(&[]), Err(ConnectionError::ConnectionClosed));
}

#[test]
fn error_texts() {
    assert_eq!(FramingError::ParseIntError.to_string(), "crittical Error while framing");
    assert_eq!(
        nicord::error::ServerError::BadRequest.to_string(),
        "internal Server Error"
    );
}
