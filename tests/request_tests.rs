use faces_h3::content_type::ContentType;
use faces_h3::decimal::{parse_decimal_bytes, parse_decimal_str, usize_to_decimal};
use faces_h3::header::Header;
use faces_h3::request::{
    BuildError, H3Method, Http3Request, Http3RequestBuilder, Http3RequestPrep, KeepAlive,
    PingStatus, RequestBody,
};

fn has(headers: &[Header], name: &str, value: &str) -> bool {
    headers.iter().any(|h| h.name == name && h.value == value)
}

fn pairs(headers: &[Header]) -> Vec<(String, String)> {
    headers.iter().map(|h| (h.name.clone(), h.value.clone())).collect()
}

fn builder() -> Http3RequestBuilder {
    Http3Request::new(Some("127.0.0.1:3000".to_string()), 7)
}

#[test]
fn build_post_request() {
    let mut new_request = builder();
    let data = vec![0u8; 5000];
    let data_len = data.len();
    new_request.post_data("/post".to_string(), data);
    new_request.set_user_agent("Camille".to_string());
    let request = new_request.build();
    assert!(request.is_ok());
    let request = request.unwrap();
    assert!(!request.is_empty());
    assert!(request.len() == 2);
    match &request[0] {
        Http3RequestPrep::Header(header) => {
            let hdrs = header.headers();
            assert!(has(hdrs, ":method", "POST"));
            assert!(!has(hdrs, ":method", "GET"));
            assert!(has(hdrs, ":authority", "127.0.0.1:3000"));
            assert!(has(hdrs, ":scheme", "https"));
            assert!(has(hdrs, "content-length", &data_len.to_string()));
            assert!(!header.is_end());
        }
        _ => panic!("the first unit is the header unit"),
    }
    match &request[1] {
        Http3RequestPrep::Body(content) => assert_eq!(content.payload.len(), 5000),
        _ => panic!("the second unit is the body unit"),
    }
}

#[test]
fn build_get_request() {
    let mut new_request = builder();
    new_request.get("/path".to_string());
    new_request.set_user_agent("Camille".to_string());
    let request = new_request.build();
    assert!(request.is_ok());
    let request = request.unwrap();
    assert!(!request.is_empty());
    assert!(request.len() == 1);
    match &request[0] {
        Http3RequestPrep::Header(header) => {
            let hdrs = header.headers();
            assert!(has(hdrs, ":method", "GET"));
            assert!(!has(hdrs, "method", "GET"));
            assert!(has(hdrs, ":authority", "127.0.0.1:3000"));
            assert!(has(hdrs, ":scheme", "https"));
            assert!(header.is_end());
        }
        _ => panic!("a GET builds one header unit"),
    }
}

#[test]
fn get_headers_in_order_with_custom_headers_last() {
    let mut b = builder();
    b.get("/test_mini".to_string());
    b.set_header("x-a".to_string(), "1".to_string());
    b.set_header("x-b".to_string(), "2".to_string());
    let units = b.build().unwrap();
    match &units[0] {
        Http3RequestPrep::Header(h) => {
            let expected: Vec<(String, String)> = vec![
                (":method", "GET"),
                (":scheme", "https"),
                (":path", "/test_mini"),
                (":authority", "127.0.0.1:3000"),
                ("accept", "*/*"),
                ("x-a", "1"),
                ("x-b", "2"),
            ]
            .into_iter()
            .map(|(a, b)| (a.to_string(), b.to_string()))
            .collect();
            assert_eq!(pairs(&h.headers), expected);
        }
        _ => panic!("header unit expected"),
    }
    assert!(b.method.is_none());
}

#[test]
fn post_headers_carry_length_and_content_type() {
    let mut b = builder();
    b.post_data("/large_data".to_string(), vec![1u8; 1234]);
    b.set_content_type(ContentType::Json);
    let units = b.build().unwrap();
    match &units[0] {
        Http3RequestPrep::Header(h) => {
            let expected: Vec<(String, String)> = vec![
                (":method", "POST"),
                (":scheme", "https"),
                (":path", "/large_data"),
                ("content-length", "1234"),
                (":authority", "127.0.0.1:3000"),
                ("content-type", "application/json"),
                ("accept", "*/*"),
            ]
            .into_iter()
            .map(|(a, b)| (a.to_string(), b.to_string()))
            .collect();
            assert_eq!(pairs(&h.headers), expected);
        }
        _ => panic!("header unit expected"),
    }
}

#[test]
fn delete_sends_authorization() {
    let mut b = builder();
    b.delete("/item/3".to_string(), "token-1".to_string());
    let units = b.build().unwrap();
    assert_eq!(units.len(), 1);
    match &units[0] {
        Http3RequestPrep::Header(h) => {
            assert!(has(&h.headers, ":method", "DELETE"));
            assert!(has(&h.headers, "Authorization", "token-1"));
            assert!(h.is_end);
        }
        _ => panic!("header unit expected"),
    }
}

#[test]
fn missing_fields_are_refused() {
    let mut b = builder();
    assert_eq!(b.build().err(), Some(BuildError::MissingField));
    let mut c = Http3RequestBuilder::new(None, 1);
    c.get("/x".to_string());
    assert_eq!(c.build().err(), Some(BuildError::MissingField));
    assert!(c.method.is_some());
}

#[test]
fn empty_post_is_refused_but_stream_is_not() {
    let mut b = builder();
    b.post_data("/p".to_string(), vec![]);
    assert_eq!(b.build().err(), Some(BuildError::EmptyPayload));
    let mut s = builder();
    s.post_stream("/p".to_string());
    let units = s.build().unwrap();
    assert_eq!(units.len(), 2);
}

#[test]
fn down_stream_adds_ping_unit() {
    let mut b = builder();
    b.down_stream("/chat".to_string(), vec![]);
    let keep = Some(KeepAlive::new(10));
    let units = b.build_down_stream(&keep).unwrap();
    assert_eq!(units.len(), 3);
    match &units[2] {
        Http3RequestPrep::Ping(secs) => assert_eq!(*secs, 10),
        _ => panic!("ping unit expected"),
    }
    assert_eq!(KeepAlive::new(10).duration(), 10);
}

#[test]
fn put_is_unsupported() {
    let mut b = builder();
    b.method = Some(H3Method::PUT);
    b.path = Some("/x".to_string());
    assert_eq!(b.build().err(), Some(BuildError::UnsupportedMethod));
}

#[test]
fn content_type_texts() {
    assert_eq!(ContentType::Json.to_string(), "application/json");
    assert_eq!(ContentType::OctetStream.to_string(), "application/octet-stream");
    assert_eq!(ContentType::Custom("x".to_string()).to_string(), "custom/x");
}

#[test]
fn decimal_text_and_parse() {
    assert_eq!(usize_to_decimal(0), "0");
    assert_eq!(usize_to_decimal(50_000_000), "50000000");
    assert_eq!(parse_decimal_str("123"), Some(123));
    assert_eq!(parse_decimal_str("12a"), None);
    assert_eq!(parse_decimal_str(""), None);
    assert_eq!(parse_decimal_str("99999999999999999999999"), None);
    assert_eq!(parse_decimal_bytes(b"90000000"), Some(90_000_000));
}

#[test]
fn method_names_parse() {
    assert!(matches!(H3Method::parse(b"GET"), Ok(H3Method::GET)));
    assert!(matches!(H3Method::parse(b"POST"), Ok(H3Method::POST { payload: RequestBody::Empty })));
    assert!(matches!(H3Method::parse(b"DELETE"), Ok(H3Method::DELETE)));
    assert!(H3Method::parse(b"get").is_err());
}

#[test]
fn body_lengths() {
    assert_eq!(RequestBody::new_data(vec![1, 2, 3]).len(), 3);
    assert_eq!(RequestBody::File(42).len(), 42);
    assert_eq!(RequestBody::new_stream().len(), 0);
}

#[test]
fn ping_status_headers() {
    let p = PingStatus::default();
    assert!(!p.close_ping_emission);
    assert!(has(p.headers(), ":path", "/ping"));
    assert!(p.close_ping().close_ping_emission);
}

#[test]
fn units_split_for_submission() {
    let mut b = builder();
    b.down_stream("/chat".to_string(), vec![1, 2, 3]);
    let units = b.build_down_stream(&Some(KeepAlive::new(10))).unwrap();
    let parts = faces_h3::request::split_units(units);
    assert_eq!(parts.headers.len(), 1);
    assert_eq!(parts.ping, Some(10));
    let body = parts.body.unwrap();
    assert_eq!(body.known_len(), Some(3));
    assert_eq!(RequestBody::Stream.known_len(), None);
    assert!(RequestBody::Empty.same_kind(&RequestBody::Stream));
    assert!(!RequestBody::Stream.same_kind(&RequestBody::File(1)));
}
