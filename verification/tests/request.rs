use request_capture::request::{
    content_length, find_header, header_rows, header_text, CapturedRequest, HeaderField,
    RequestRecord,
};
use request_capture::text::header_value_text;

fn field(name: &str, value: &[u8]) -> HeaderField {
    HeaderField { name: name.to_string(), value: value.to_vec() }
}

fn sample() -> CapturedRequest {
    CapturedRequest {
        method: "POST".to_string(),
        path: "/upload/file".to_string(),
        query: Some("a=1&b=2".to_string()),
        headers: vec![
            field("host", b"example.com"),
            field("content-type", b"application/json"),
            field("content-length", b"17"),
            field("user-agent", b"curl/8.5.0"),
            field("x-binary", b"caf\xc3\xa9"),
            field("content-type", b"text/plain"),
        ],
    }
}

#[test]
fn header_value_text_accepts_visible_ascii_and_tab() {
    assert_eq!(header_value_text(b"text/plain"), Some("text/plain".to_string()));
    assert_eq!(header_value_text(b"a\tb c"), Some("a\tb c".to_string()));
    assert_eq!(header_value_text(b""), Some(String::new()));
}

#[test]
fn header_value_text_refuses_other_bytes() {
    assert_eq!(header_value_text(b"caf\xc3\xa9"), None);
    assert_eq!(header_value_text(b"a\x7fb"), None);
    assert_eq!(header_value_text(b"line\nbreak"), None);
    assert_eq!(header_value_text(b"\x00"), None);
}

#[test]
fn find_header_gives_the_first_match() {
    let req = sample();
    assert_eq!(find_header(&req.headers, &"content-type".to_string()), Some(1));
    assert_eq!(find_header(&req.headers, &"accept".to_string()), None);
    assert_eq!(
        header_text(&req.headers, &"content-type".to_string()),
        Some("application/json".to_string())
    );
    assert_eq!(header_text(&req.headers, &"x-binary".to_string()), None);
}

#[test]
fn content_length_reads_i64() {
    assert_eq!(content_length(&sample().headers), Some(17));
    let cases: [(&[u8], Option<i64>); 8] = [
        (b"-9223372036854775808", Some(i64::MIN)),
        (b"9223372036854775807", Some(i64::MAX)),
        (b"9223372036854775808", None),
        (b"-9223372036854775809", None),
        (b"+5", Some(5)),
        (b"-", None),
        (b"1 2", None),
        (b"\xff1", None),
    ];
    for (value, expected) in cases {
        let headers = vec![field("content-length", value)];
        assert_eq!(content_length(&headers), expected, "{value:?}");
    }
    assert_eq!(content_length(&Vec::new()), None);
}

#[test]
fn header_rows_keep_order_and_blank_binary_values() {
    let rows = header_rows(&sample().headers);
    let pairs: Vec<(String, String)> = rows.into_iter().map(|r| (r.name, r.value)).collect();
    assert_eq!(
        pairs,
        vec![
            ("host".to_string(), "example.com".to_string()),
            ("content-type".to_string(), "application/json".to_string()),
            ("content-length".to_string(), "17".to_string()),
            ("user-agent".to_string(), "curl/8.5.0".to_string()),
            ("x-binary".to_string(), String::new()),
            ("content-type".to_string(), "text/plain".to_string()),
        ]
    );
}

#[test]
fn request_record_takes_metadata() {
    let r = RequestRecord::from_request(&sample(), Some("10.0.0.7".to_string()));
    assert_eq!(r.method, "POST");
    assert_eq!(r.path, "/upload/file");
    assert_eq!(r.query.as_deref(), Some("a=1&b=2"));
    assert_eq!(r.content_length, Some(17));
    assert_eq!(r.content_type.as_deref(), Some("application/json"));
    assert_eq!(r.user_agent.as_deref(), Some("curl/8.5.0"));
    assert_eq!(r.client_ip.as_deref(), Some("10.0.0.7"));
    let copy = r.duplicate();
    assert_eq!(copy.path, r.path);
    assert_eq!(copy.client_ip, r.client_ip);
}

#[test]
fn request_record_without_headers() {
    let req = CapturedRequest {
        method: "GET".to_string(),
        path: "/".to_string(),
        query: None,
        headers: Vec::new(),
    };
    let r = RequestRecord::from_request(&req, None);
    assert_eq!(r.query, None);
    assert_eq!(r.content_length, None);
    assert_eq!(r.content_type, None);
    assert_eq!(r.user_agent, None);
    assert_eq!(r.client_ip, None);
}
