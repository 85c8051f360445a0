use sgl_omni_router::error::HttpFault;
use sgl_omni_router::http_media::headers::{
    is_boundary_byte, multipart_boundary, parse_content_length, validate_bodyless_request,
    validate_request, visible_text, HeaderField, RequestKind,
};

fn field(name: &str, value: &[u8]) -> HeaderField {
    HeaderField {
        name: name.to_owned(),
        value: value.to_vec(),
    }
}

fn json_headers(content_type: &[u8]) -> Vec<HeaderField> {
    vec![field("content-type", content_type), field("content-length", b"2")]
}

#[test]
fn json_content_type_accepts_worker_owned_parameters() {
    for value in [
        b"application/json".as_slice(),
        b"application/json; charset=utf-8".as_slice(),
        b"application/json; charset=\"UTF-8\"".as_slice(),
        b"application/json; charset=utf-8; charset=utf-8".as_slice(),
        b"application/json; version=1".as_slice(),
    ] {
        validate_request(&json_headers(value), RequestKind::Json, Ok(Some(2)))
            .expect("valid JSON content type");
    }

    for value in [
        b"application/json; charset=\"utf-8".as_slice(),
        b"application/json;".as_slice(),
        b"application/json; charset=\"utf-8\"junk".as_slice(),
    ] {
        assert_eq!(
            validate_request(&json_headers(value), RequestKind::Json, Ok(Some(2))).err(),
            Some(HttpFault::UnsupportedMediaType),
            "malformed JSON content type {value:?}"
        );
    }
}

#[test]
fn accepts_quoted_and_unquoted_multipart_boundaries() {
    for (value, expected) in [
        ("multipart/form-data; boundary=abc-123", "abc-123"),
        ("multipart/form-data; boundary=\"abc-123\"", "abc-123"),
        ("multipart/form-data; boundary=\"abc def\"", "abc def"),
        (
            "multipart/form-data; charset=utf-8; boundary=abc-123",
            "abc-123",
        ),
        (
            "multipart/form-data; boundary=abc-123; charset=\"UTF-8\"",
            "abc-123",
        ),
    ] {
        let headers = vec![
            field("content-type", value.as_bytes()),
            field("content-length", b"10"),
        ];
        let framing = validate_request(&headers, RequestKind::Multipart, Ok(Some(10)))
            .expect("valid multipart request headers");
        assert_eq!(framing.boundary.as_deref(), Some(expected.as_bytes()));
    }

    for value in [
        "multipart/form-data; boundary=abc def",
        "multipart/form-data; boundary=\"abc def \"",
        "multipart/form-data; boundary=\"abc[def\"",
        "multipart/form-data; boundary=\"abc\\def\"",
    ] {
        let headers = vec![
            field("content-type", value.as_bytes()),
            field("content-length", b"10"),
        ];
        assert_eq!(
            validate_request(&headers, RequestKind::Multipart, Ok(Some(10))).err(),
            Some(HttpFault::UnsupportedMediaType)
        );
    }
    let control = vec![
        field("content-type", b"multipart/form-data; boundary=\"abc\tdef\""),
        field("content-length", b"10"),
    ];
    assert_eq!(
        validate_request(&control, RequestKind::Multipart, Ok(Some(10))).err(),
        Some(HttpFault::UnsupportedMediaType)
    );
}

#[test]
fn route_model_and_stream_headers_are_bounded_singular_facts() {
    let mut headers = json_headers(b"application/json");
    headers.push(field("x-sglang-omni-route-model", b" asr "));
    headers.push(field("x-sglang-omni-route-stream", b"TrUe"));
    let framing =
        validate_request(&headers, RequestKind::Json, Ok(Some(2))).expect("route facts");
    assert_eq!(framing.route_model.as_deref(), Some("asr"));
    assert_eq!(framing.route_stream, Some(true));
    headers.push(field("x-sglang-omni-route-stream", b"true"));
    assert_eq!(
        validate_request(&headers, RequestKind::Json, Ok(Some(2))).err(),
        Some(HttpFault::MalformedRequest)
    );
    headers.retain(|header| header.name != "x-sglang-omni-route-stream");
    headers.push(field("x-sglang-omni-route-stream", b"yes"));
    assert_eq!(
        validate_request(&headers, RequestKind::Json, Ok(Some(2))).err(),
        Some(HttpFault::MalformedRequest)
    );
}

#[test]
fn route_hints_reject_empty_long_and_opaque_values() {
    for value in [b"  \t ".to_vec(), vec![b'a'; 4_097], vec![b'a', 0xff]] {
        let mut headers = json_headers(b"application/json");
        headers.push(field("x-sglang-omni-route-model", &value));
        assert_eq!(
            validate_request(&headers, RequestKind::Json, Ok(None)).err(),
            Some(HttpFault::MalformedRequest)
        );
    }
    let mut headers = json_headers(b"application/json");
    headers.push(field("x-sglang-omni-route-model", &vec![b'a'; 4_096]));
    headers.push(field("x-sglang-omni-route-stream", b" False "));
    let framing = validate_request(&headers, RequestKind::Json, Ok(None)).expect("longest hint");
    assert_eq!(framing.route_model.map(|model| model.len()), Some(4_096));
    assert_eq!(framing.route_stream, Some(false));
    assert_eq!(framing.content_length, None);
    assert_eq!(framing.boundary, None);
    assert_eq!(framing.content_type, "application/json");
}

#[test]
fn faults_come_in_order() {
    let mut headers = json_headers(b"text/plain");
    headers.push(field("x-sglang-omni-route-model", b""));
    let envelope = Err(HttpFault::ExpectationFailed);
    assert_eq!(
        validate_request(&headers, RequestKind::Json, envelope).err(),
        Some(HttpFault::UnsupportedMediaType)
    );
    headers[0] = field("content-type", b"APPLICATION/json");
    assert_eq!(
        validate_request(&headers, RequestKind::Json, envelope).err(),
        Some(HttpFault::ExpectationFailed)
    );
    assert_eq!(
        validate_request(&headers, RequestKind::Json, Ok(None)).err(),
        Some(HttpFault::MalformedRequest)
    );
    headers.push(field("content-type", b"application/json"));
    assert_eq!(
        validate_request(&headers, RequestKind::Json, Ok(None)).err(),
        Some(HttpFault::UnsupportedMediaType)
    );
    assert_eq!(
        validate_request(&[], RequestKind::Json, Ok(None)).err(),
        Some(HttpFault::UnsupportedMediaType)
    );
}

#[test]
fn boundaries_are_exact() {
    assert_eq!(
        multipart_boundary(" Multipart/Form-Data ;\tBOUNDARY = x "),
        Some(String::from("x"))
    );
    assert_eq!(multipart_boundary("multipart/form-data"), None);
    assert_eq!(multipart_boundary("multipart/form-data;"), None);
    assert_eq!(multipart_boundary("multipart/form-data; boundary="), None);
    assert_eq!(multipart_boundary("multipart/form-data; boundary=\""), None);
    assert_eq!(multipart_boundary("multipart/form-data; boundary=\"\""), None);
    assert_eq!(multipart_boundary("multipart/form-data; boundary=a; boundary=a"), None);
    assert_eq!(
        multipart_boundary("multipart/form-data; charset=utf-8; boundary=a; charset=utf-8"),
        None
    );
    assert_eq!(multipart_boundary("multipart/form-data; charset=latin1; boundary=a"), None);
    assert_eq!(multipart_boundary("multipart/form-data; name=a; boundary=a"), None);
    assert_eq!(multipart_boundary("multipart/mixed; boundary=a"), None);
    assert_eq!(multipart_boundary("multipart/form-data; boundary=\u{e9}"), None);
    let longest = "b".repeat(70);
    assert_eq!(
        multipart_boundary(&format!("multipart/form-data; boundary={longest}")),
        Some(longest.clone())
    );
    assert_eq!(
        multipart_boundary(&format!("multipart/form-data; boundary={longest}b")),
        None
    );
}

#[test]
fn boundary_bytes_are_letters_digits_and_listed_marks() {
    let allowed: Vec<u8> = (0_u8..=255).filter(|byte| is_boundary_byte(*byte)).collect();
    let expected: Vec<u8> = (0_u8..=255)
        .filter(|byte| byte.is_ascii_alphanumeric() || b"'()+_,-./:=?".contains(byte))
        .collect();
    assert_eq!(allowed, expected);
}

#[test]
fn content_lengths_are_plain_decimal_numbers() {
    assert_eq!(parse_content_length(b"0"), Some(0));
    assert_eq!(parse_content_length(b"0042"), Some(42));
    assert_eq!(parse_content_length(b"18446744073709551615"), Some(u64::MAX));
    assert_eq!(parse_content_length(b"18446744073709551616"), None);
    assert_eq!(parse_content_length(b""), None);
    assert_eq!(parse_content_length(b"+1"), None);
    assert_eq!(parse_content_length(b" 1"), None);
}

#[test]
fn visible_text_is_printable_ascii_and_tabs() {
    assert_eq!(visible_text(b"a\tb ~"), Some("a\tb ~"));
    assert_eq!(visible_text(b""), Some(""));
    assert_eq!(visible_text(b"\x7f"), None);
    assert_eq!(visible_text(b"a\nb"), None);
    assert_eq!(visible_text("\u{e9}".as_bytes()), None);
}

#[test]
fn bodyless_requests_reject_each_kind_of_body() {
    assert_eq!(validate_bodyless_request(&[]), Ok(()));
    assert_eq!(
        validate_bodyless_request(&[
            field("content-encoding", b"Identity"),
            field("content-length", b"0"),
        ]),
        Ok(())
    );
    assert_eq!(
        validate_bodyless_request(&[field("content-encoding", b"gzip"), field("expect", b"x")]),
        Err(HttpFault::UnsupportedContentEncoding)
    );
    assert_eq!(
        validate_bodyless_request(&[
            field("content-encoding", b"identity"),
            field("content-encoding", b"identity"),
        ]),
        Err(HttpFault::UnsupportedContentEncoding)
    );
    assert_eq!(
        validate_bodyless_request(&[field("trailer", b"x"), field("expect", b"100-continue")]),
        Err(HttpFault::ExpectationFailed)
    );
    for name in ["trailer", "transfer-encoding"] {
        assert_eq!(
            validate_bodyless_request(&[field(name, b"chunked")]),
            Err(HttpFault::MalformedRequest)
        );
    }
    for value in [b"1".as_slice(), b"x".as_slice(), b"".as_slice()] {
        assert_eq!(
            validate_bodyless_request(&[field("content-length", value)]),
            Err(HttpFault::MalformedRequest)
        );
    }
    assert_eq!(
        validate_bodyless_request(&[field("content-length", b"0"), field("content-length", b"0")]),
        Err(HttpFault::MalformedRequest)
    );
}
