use wrappr::error::IoErrorKind;
use wrappr::http::{
    head_too_large, read_head_line, read_request_head, request_from, write_error,
    write_error_detail, write_json, write_response, HeadOutcome, HeadProgress, HeaderField,
    ParsedHead, Reply, RequestHead,
};
use wrappr::json::{insert_field, is_plain, parse_json_body, remove_field, take_field, Json};

fn request(head: &str) -> RequestHead {
    match read_request_head(head.as_bytes()) {
        HeadOutcome::Request(request) => request,
        other => panic!("{:?}", other),
    }
}

fn body_text(reply: &Reply) -> &str {
    std::str::from_utf8(&reply.body).unwrap()
}

#[test]
fn heads_are_read_line_by_line() {
    let mut head = Vec::new();
    assert_eq!(read_head_line(&mut head, b"GET / HTTP/1.1\r\n"), HeadProgress::More);
    assert_eq!(read_head_line(&mut head, b"\r\n"), HeadProgress::Complete);
    assert_eq!(head, b"GET / HTTP/1.1\r\n\r\n".to_vec());
}

#[test]
fn bare_line_feeds_end_a_head() {
    let mut head = Vec::new();
    assert_eq!(read_head_line(&mut head, b"GET / HTTP/1.1\n"), HeadProgress::More);
    assert_eq!(read_head_line(&mut head, b"\n"), HeadProgress::Complete);
}

#[test]
fn blank_line_after_bare_line_feed_is_not_the_end() {
    let mut head = Vec::new();
    read_head_line(&mut head, b"GET / HTTP/1.1\n");
    assert_eq!(read_head_line(&mut head, b"\r\n"), HeadProgress::More);
}

#[test]
fn silence_closes_the_connection() {
    let mut head = b"GET".to_vec();
    assert_eq!(read_head_line(&mut head, b""), HeadProgress::Closed);
}

#[test]
fn long_heads_are_refused() {
    let mut head = Vec::new();
    assert_eq!(read_head_line(&mut head, &vec![b'a'; 65536]), HeadProgress::More);
    assert_eq!(read_head_line(&mut head, b"b"), HeadProgress::TooLarge);
    let mut ended = vec![b'a'; 70000];
    assert_eq!(read_head_line(&mut ended, b"\r\n\r\n"), HeadProgress::Complete);
    let reply = head_too_large();
    assert_eq!(reply.status, 431);
    assert_eq!(body_text(&reply), r#"{"error":"headers_too_large"}"#);
}

#[test]
fn request_heads_are_parsed() {
    let head = request(
        "POST /login?x=1 HTTP/1.1\r\nHost: a\r\nCONTENT-LENGTH: 12 \r\nContent-Type: text/plain\r\n\r\n",
    );
    assert_eq!(head.method, "POST");
    assert_eq!(head.target, "/login?x=1");
    assert_eq!(head.content_length, 12);
    assert_eq!(head.content_type, "text/plain");
}

#[test]
fn missing_and_bad_lengths_count_as_zero() {
    assert_eq!(request("GET / HTTP/1.1\r\n\r\n").content_length, 0);
    assert_eq!(request("GET / HTTP/1.1\r\n\r\n").content_type, "");
    assert_eq!(request("GET / HTTP/1.1\r\nContent-Length: x\r\n\r\n").content_length, 0);
    assert_eq!(request("GET / HTTP/1.1\r\nContent-Length: -4\r\n\r\n").content_length, 0);
    assert_eq!(
        request("GET / HTTP/1.1\r\nContent-Length: 99999999999999999999\r\n\r\n").content_length,
        0
    );
}

#[test]
fn last_length_counts() {
    let head = request("GET / HTTP/1.1\r\nContent-Length: 3\r\ncontent-length: 5\r\n\r\n");
    assert_eq!(head.content_length, 5);
    let head = request("GET / HTTP/1.1\r\nContent-Length: 3\r\ncontent-length: x\r\n\r\n");
    assert_eq!(head.content_length, 0);
}

#[test]
fn partial_heads_are_bad_requests() {
    match read_request_head(b"GET / HTTP/1.1\r\nHost: a") {
        HeadOutcome::Reply(reply) => {
            assert_eq!(reply.status, 400);
            assert_eq!(body_text(&reply), r#"{"error":"bad_request"}"#);
        }
        other => panic!("{:?}", other),
    }
}

#[test]
fn malformed_heads_end_the_connection() {
    match read_request_head(b"GET / HTTP/9.9\r\n\r\n") {
        HeadOutcome::Fail(error) => {
            assert_eq!(error.kind, IoErrorKind::InvalidData);
            assert_eq!(error.message, "invalid HTTP version");
        }
        other => panic!("{:?}", other),
    }
}

#[test]
fn sixty_four_headers_fit() {
    let mut head = String::from("GET / HTTP/1.1\r\n");
    for i in 0..64 {
        head.push_str(&format!("h{i}: v\r\n"));
    }
    assert_eq!(request(&format!("{head}\r\n")).method, "GET");
    match read_request_head(format!("{head}one: more\r\n\r\n").as_bytes()) {
        HeadOutcome::Fail(error) => assert_eq!(error.message, "too many headers"),
        other => panic!("{:?}", other),
    }
}

#[test]
fn missing_method_and_path_have_defaults() {
    let parsed = ParsedHead {
        method: None,
        path: None,
        headers: vec![HeaderField { name: "Content-Type".to_string(), value: vec![b'a', 0xff] }],
    };
    match request_from(Ok(Some(parsed))) {
        HeadOutcome::Request(head) => {
            assert_eq!(head.method, "");
            assert_eq!(head.target, "/");
            assert_eq!(head.content_type, "a\u{fffd}");
        }
        other => panic!("{:?}", other),
    }
}

#[test]
fn responses_are_written() {
    let reply = Reply {
        status: 404,
        content_type: "application/json".to_string(),
        body: b"{}".to_vec(),
    };
    assert_eq!(
        write_response(&reply),
        b"HTTP/1.1 404 Not Found\r\ncontent-type: application/json\r\ncontent-length: 2\r\nconnection: close\r\n\r\n{}".to_vec()
    );
}

#[test]
fn every_status_has_its_reason() {
    for (status, reason) in [
        (200, "OK"),
        (202, "Accepted"),
        (400, "Bad Request"),
        (401, "Unauthorized"),
        (404, "Not Found"),
        (409, "Conflict"),
        (431, "Request Header Fields Too Large"),
        (500, "Internal Server Error"),
        (502, "Bad Gateway"),
        (503, "Service Unavailable"),
        (504, "Gateway Timeout"),
        (418, "OK"),
    ] {
        let reply = Reply { status, content_type: String::new(), body: Vec::new() };
        let expected = format!(
            "HTTP/1.1 {status} {reason}\r\ncontent-type: \r\ncontent-length: 0\r\nconnection: close\r\n\r\n"
        );
        assert_eq!(write_response(&reply), expected.into_bytes());
    }
}

#[test]
fn response_heads_end_at_the_first_blank_line() {
    let reply = Reply {
        status: 200,
        content_type: "text/plain; charset=utf-8".to_string(),
        body: b"a\r\n\r\nb".to_vec(),
    };
    let bytes = write_response(&reply);
    let end = bytes.windows(4).position(|w| w == b"\r\n\r\n").unwrap() + 4;
    assert_eq!(&bytes[end..], b"a\r\n\r\nb");
}

#[test]
fn errors_are_written_as_json() {
    let reply = write_error(400, "bad_request");
    assert_eq!(reply.status, 400);
    assert_eq!(reply.content_type, "application/json");
    assert_eq!(body_text(&reply), r#"{"error":"bad_request"}"#);
    let reply = write_error_detail(401, "no", "say \"why\"\n");
    assert_eq!(body_text(&reply), r#"{"detail":"say \"why\"\n","error":"no"}"#);
}

#[test]
fn json_is_read_and_written() {
    let text = r#"{"a":[1,-2.5,null,true],"b":{"c":"é"},"n":18446744073709551615}"#;
    let value = parse_json_body(text.as_bytes()).unwrap();
    assert_eq!(value.to_text(), text);
    assert_eq!(write_json(200, &value).body, text.as_bytes().to_vec());
    assert_eq!(value.get("b").unwrap().get("c").unwrap().as_str(), Some("é"));
    assert!(value.get("c").is_none());
    assert!(value.as_str().is_none());
    assert_eq!(Json::integer(7).to_text(), "7");
    assert_eq!(Json::Null.to_text(), "null");
    assert_eq!(Json::text("x").to_text(), "\"x\"");
}

#[test]
fn bad_json_is_reported() {
    let error = parse_json_body(b"{").unwrap_err();
    assert_eq!(error.kind, IoErrorKind::InvalidData);
    assert_eq!(error.message, "EOF while parsing an object at line 1 column 1");
}

#[test]
fn later_fields_overrule_earlier_ones() {
    let value = parse_json_body(br#"{"a":1,"a":2}"#).unwrap();
    assert_eq!(value.to_text(), r#"{"a":2}"#);
    let mut fields = Vec::new();
    insert_field(&mut fields, "k", Json::Bool(true));
    insert_field(&mut fields, "k", Json::Bool(false));
    let value = Json::Object(fields);
    assert_eq!(value.to_text(), r#"{"k":false}"#);
    assert_eq!(value.get("k").unwrap().to_text(), "false");
    assert_eq!(take_field(value, "k").unwrap().to_text(), "false");
}

#[test]
fn fields_are_removed() {
    let mut fields = Vec::new();
    insert_field(&mut fields, "k", Json::Bool(true));
    insert_field(&mut fields, "l", Json::Null);
    insert_field(&mut fields, "k", Json::Bool(false));
    remove_field(&mut fields, "k");
    assert_eq!(Json::Object(fields).to_text(), r#"{"l":null}"#);
    assert!(take_field(Json::Null, "k").is_none());
}

#[test]
fn written_json_is_read_back() {
    let mut value = Json::Array(vec![Json::integer(u64::MAX), Json::text("\u{0}\"\\\u{7f}\u{2028}\u{1f600}")]);
    for _ in 0..126 {
        value = Json::Object(vec![("k\n".to_string(), value)]);
    }
    let text = value.to_text();
    assert_eq!(parse_json_body(text.as_bytes()).unwrap().to_text(), text);
    let deeper = Json::Array(vec![value]).to_text();
    let error = parse_json_body(deeper.as_bytes()).unwrap_err();
    assert!(error.message.starts_with("recursion limit exceeded"));
}

#[test]
fn error_bodies_are_read_back() {
    let reply = write_error_detail(400, "invalid_json", "a \"quoted\" detail");
    let value = parse_json_body(&reply.body).unwrap();
    assert_eq!(value.get("error").unwrap().as_str(), Some("invalid_json"));
    assert_eq!(value.get("detail").unwrap().as_str(), Some("a \"quoted\" detail"));
}

#[test]
fn whole_numbers_are_read_back() {
    for text in [
        "0",
        "18446744073709551615",
        "-1",
        "-9223372036854775808",
        "[null,true,\"x\",{\"a\":-7}]",
    ] {
        let value = parse_json_body(text.as_bytes()).unwrap();
        assert!(value.is_read_back());
        assert_eq!(value.to_text(), text);
        let again = parse_json_body(value.to_text().as_bytes()).unwrap();
        assert_eq!(again.to_text(), text);
    }
    for text in ["1.5", "-0", "1e3", "18446744073709551616", "{\"a\":[0.1]}"] {
        assert!(!parse_json_body(text.as_bytes()).unwrap().is_read_back());
    }
}

#[test]
fn deep_values_are_not_read_back() {
    let mut value = Json::Null;
    for _ in 0..127 {
        value = Json::Array(vec![value]);
    }
    assert!(value.is_read_back());
    assert!(!is_plain(&value, 126));
    assert!(!Json::Array(vec![value]).is_read_back());
    assert!(!is_plain(&Json::Object(vec![]), 0));
}

#[test]
fn overruled_fields_do_not_count() {
    let half = parse_json_body(b"0.5").unwrap();
    let value = Json::Object(vec![("k".to_string(), half), ("k".to_string(), Json::Null)]);
    assert!(value.is_read_back());
    let half = parse_json_body(b"0.5").unwrap();
    let value = Json::Object(vec![("k".to_string(), Json::Null), ("k".to_string(), half)]);
    assert!(!value.is_read_back());
}
