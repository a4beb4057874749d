use llm_gateway::{
    generate_reply, generate_request, review_reply, review_request, transform, HttpHeader,
    HttpMethod, HttpResponse, RejectionCode, TransformArgs, RELAY_CYCLES,
};

const ENDPOINT: &str = "https://example.org/functions/v1/review";

fn header(name: &str, value: &str) -> HttpHeader {
    HttpHeader { name: name.to_string(), value: value.to_string() }
}

#[test]
fn review_request_posts_code_as_json() {
    let r = review_request(ENDPOINT, "fn main() {}", 1_700_000_000_000_000_000);
    assert_eq!(r.url, ENDPOINT);
    assert!(matches!(r.method, HttpMethod::Post));
    assert_eq!(r.max_response_bytes, None);
    assert_eq!(r.headers.len(), 2);
    assert_eq!(r.headers[0].name, "Content-Type");
    assert_eq!(r.headers[0].value, "application/json");
    assert_eq!(r.headers[1].name, "Idempotency-Key");
    assert_eq!(r.headers[1].value, "review-1700000000000000000");
    assert_eq!(r.body, Some(br#"{"code":"fn main() {}"}"#.to_vec()));
    assert_eq!(r.transform_method.as_deref(), Some("transform"));
    assert_eq!(r.cycles, 2_000_000_000_000);
    assert_eq!(r.cycles, RELAY_CYCLES);
}

#[test]
fn request_body_escapes_the_payload() {
    let r = generate_request(ENDPOINT, "say \"hi\"\n\\ é", 7);
    let body = String::from_utf8(r.body.unwrap()).unwrap();
    assert_eq!(body, "{\"prompt\":\"say \\\"hi\\\"\\n\\\\ é\"}");
    assert_eq!(r.headers[1].value, "generate-7");
}

#[test]
fn idempotency_keys_differ_by_time() {
    let a = review_request(ENDPOINT, "x", 41);
    let b = review_request(ENDPOINT, "x", 42);
    assert_ne!(a.headers[1].value, b.headers[1].value);
    assert!(a.headers[1].value.starts_with("review-"));
    assert!(b.headers[1].value.starts_with("review-"));
    assert_eq!(review_request(ENDPOINT, "x", 0).headers[1].value, "review-0");
    assert_eq!(review_request(ENDPOINT, "x", u64::MAX).headers[1].value, "review-18446744073709551615");
}

#[test]
fn review_failure_reports_code_and_message() {
    let r = review_reply(Err((RejectionCode::SysTransient, "timed out".to_string())));
    assert_eq!(r, "Failed to review code. Error: SysTransient, Message: timed out");
    assert!(r.contains("SysTransient"));
    assert!(r.contains("timed out"));
}

#[test]
fn generate_failure_reports_code_and_message() {
    let r = generate_reply(Err((RejectionCode::CanisterReject, "no cycles".to_string())));
    assert_eq!(r, "Failed to generate code. Error: CanisterReject, Message: no cycles");
}

#[test]
fn non_utf8_body_gives_placeholder() {
    assert_eq!(review_reply(Ok(vec![0xff, 0xfe, 0x41])), "Error decoding response");
    assert_eq!(generate_reply(Ok(vec![0xc0, 0x80])), "Error decoding response");
}

#[test]
fn utf8_body_is_returned_as_text() {
    assert_eq!(review_reply(Ok("Looks good ✓".as_bytes().to_vec())), "Looks good ✓");
    assert_eq!(generate_reply(Ok(Vec::new())), "");
}

#[test]
fn rejection_codes_are_named() {
    assert_eq!(RejectionCode::NoError.name(), "NoError");
    assert_eq!(RejectionCode::SysFatal.name(), "SysFatal");
    assert_eq!(RejectionCode::DestinationInvalid.name(), "DestinationInvalid");
    assert_eq!(RejectionCode::CanisterError.name(), "CanisterError");
    assert_eq!(RejectionCode::Unknown.name(), "Unknown");
}

#[test]
fn transform_keeps_status_and_body_and_replaces_headers() {
    let args = TransformArgs {
        response: HttpResponse {
            status: candid::Nat::from(404u32),
            headers: vec![header("Date", "Mon, 1 Jan 2024"), header("X-Rate-Limit", "17")],
            body: vec![1, 2, 3, 0xff],
        },
        context: vec![9],
    };
    let r = transform(args);
    assert_eq!(r.status, candid::Nat::from(404u32));
    assert_eq!(r.body, vec![1, 2, 3, 0xff]);
    assert_eq!(r.headers.len(), 1);
    assert_eq!(r.headers[0].name, "Content-Type");
    assert_eq!(r.headers[0].value, "application/json");
}
