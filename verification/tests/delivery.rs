use user_monitor::delivery::{
    classify, encode_form_body, is_success, post_request, wants_body, DeliveryOutcome, HttpReply,
    PostRequest, TransportError, BODY_PREFIX, CONTENT_TYPE,
};

#[test]
fn wire_constants() {
    assert_eq!(CONTENT_TYPE, "application/x-www-form-urlencoded");
    assert_eq!(BODY_PREFIX, "users=");
}

#[test]
fn success_is_the_class_of_two_hundred() {
    assert!(!is_success(0));
    assert!(!is_success(100));
    assert!(!is_success(199));
    assert!(is_success(200));
    assert!(is_success(201));
    assert!(is_success(204));
    assert!(is_success(299));
    assert!(!is_success(300));
    assert!(!is_success(301));
    assert!(!is_success(400));
    assert!(!is_success(422));
    assert!(!is_success(500));
    assert!(!is_success(u16::MAX));
}

#[test]
fn body_is_wanted_of_a_refusal_only() {
    assert!(!wants_body(200));
    assert!(!wants_body(299));
    assert!(wants_body(199));
    assert!(wants_body(300));
    assert!(wants_body(400));
    assert!(wants_body(503));
}

#[test]
fn form_body_encodes_the_comma() {
    assert_eq!(encode_form_body("alice,bob"), "users=alice%2Cbob");
}

#[test]
fn form_body_of_an_empty_sample() {
    assert_eq!(encode_form_body(""), "users=");
}

#[test]
fn form_body_leaves_unreserved_characters() {
    assert_eq!(
        encode_form_body("AZaz09-._~"),
        "users=AZaz09-._~"
    );
}

#[test]
fn form_body_encodes_everything_else_in_upper_case() {
    assert_eq!(encode_form_body(" "), "users=%20");
    assert_eq!(encode_form_body("a b"), "users=a%20b");
    assert_eq!(encode_form_body("a+b&c=d"), "users=a%2Bb%26c%3Dd");
    assert_eq!(encode_form_body("%"), "users=%25");
    assert_eq!(encode_form_body("/?#[]@!$'()*;:"), "users=%2F%3F%23%5B%5D%40%21%24%27%28%29%2A%3B%3A");
    assert_eq!(encode_form_body("\u{0}\u{1f}\u{7f}"), "users=%00%1F%7F");
    assert_eq!(encode_form_body("\n"), "users=%0A");
}

#[test]
fn form_body_encodes_each_byte_of_utf8() {
    assert_eq!(encode_form_body("\u{e9}"), "users=%C3%A9");
    assert_eq!(encode_form_body("\u{20ac}"), "users=%E2%82%AC");
    assert_eq!(encode_form_body("\u{1f47e} x"), "users=%F0%9F%91%BE%20x");
}

#[test]
fn post_request_holds_address_header_body_and_timeout() {
    let request = post_request("http://localhost:9/hook", "alice,bob", 1);
    assert_eq!(
        request,
        PostRequest {
            url: "http://localhost:9/hook".to_string(),
            content_type: "application/x-www-form-urlencoded",
            body: "users=alice%2Cbob".to_string(),
            timeout: 1,
        }
    );
}

#[test]
fn post_request_of_an_empty_sample() {
    let request = post_request("http://collector/in", "", 5);
    assert_eq!(request.url, "http://collector/in");
    assert_eq!(request.content_type, CONTENT_TYPE);
    assert_eq!(request.body, "users=");
    assert_eq!(request.timeout, 5);
}

#[test]
fn post_request_does_not_touch_the_address() {
    let request = post_request("http://h/p?q=a b,c", "x", u64::MAX);
    assert_eq!(request.url, "http://h/p?q=a b,c");
    assert_eq!(request.timeout, u64::MAX);
}

#[test]
fn reply_takes_the_body_that_was_read() {
    let reply = HttpReply::new(422, Some("bad format".to_string()));
    assert_eq!(reply, HttpReply { status: 422, body: "bad format".to_string() });
}

#[test]
fn reply_without_body_has_an_empty_one() {
    let reply = HttpReply::new(500, None);
    assert_eq!(reply, HttpReply { status: 500, body: String::new() });
}

#[test]
fn classify_success() {
    assert_eq!(classify(Ok(HttpReply::new(200, None))), DeliveryOutcome::Success(200));
    assert_eq!(
        classify(Ok(HttpReply::new(204, Some("ignored".to_string())))),
        DeliveryOutcome::Success(204)
    );
}

#[test]
fn classify_refusal() {
    assert_eq!(
        classify(Ok(HttpReply::new(400, Some("no".to_string())))),
        DeliveryOutcome::PermanentFailure { status: 400, body: "no".to_string() }
    );
    assert_eq!(
        classify(Ok(HttpReply::new(503, None))),
        DeliveryOutcome::PermanentFailure { status: 503, body: String::new() }
    );
    assert_eq!(
        classify(Ok(HttpReply::new(301, None))),
        DeliveryOutcome::PermanentFailure { status: 301, body: String::new() }
    );
    assert_eq!(
        classify(Ok(HttpReply::new(199, None))),
        DeliveryOutcome::PermanentFailure { status: 199, body: String::new() }
    );
}

#[test]
fn classify_transport_failure() {
    assert_eq!(
        classify(Err(TransportError::Timeout)),
        DeliveryOutcome::TransientFailure(TransportError::Timeout)
    );
    assert_eq!(
        classify(Err(TransportError::Connection)),
        DeliveryOutcome::TransientFailure(TransportError::Connection)
    );
}
