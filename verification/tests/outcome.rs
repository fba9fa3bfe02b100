use batch_fetch::outcome::{classify, content_type_is_html, status_is_success, value_is_html,
    wants_body, FetchOutcome, FetchResponse};

fn replied(status: u16, content_type: Option<&str>, body: Option<&str>) -> FetchResponse {
    FetchResponse::Replied {
        status,
        content_type: content_type.map(|v| v.as_bytes().to_vec()),
        body: body.map(|b| b.to_string()),
    }
}

fn one_of_snippet_and_error(outcome: &FetchOutcome) -> bool {
    outcome.success == outcome.snippet.is_some() && outcome.success == outcome.error.is_none()
}

#[test]
fn success_statuses_are_200_to_299() {
    assert!(!status_is_success(199));
    assert!(status_is_success(200));
    assert!(status_is_success(204));
    assert!(status_is_success(299));
    assert!(!status_is_success(300));
    assert!(!status_is_success(404));
    assert!(!status_is_success(0));
    assert!(!status_is_success(u16::MAX));
}

#[test]
fn html_content_type_starts_with_text_html() {
    assert!(value_is_html(&b"text/html".to_vec()));
    assert!(value_is_html(&b"text/html; charset=utf-8".to_vec()));
    assert!(value_is_html(&b"text/html\tx".to_vec()));
    assert!(!value_is_html(&b"text/htm".to_vec()));
    assert!(!value_is_html(&b"".to_vec()));
    assert!(!value_is_html(&b" text/html".to_vec()));
    assert!(!value_is_html(&b"Text/HTML".to_vec()));
    assert!(!value_is_html(&b"application/json".to_vec()));
    assert!(!value_is_html(&b"application/xhtml+xml".to_vec()));
}

#[test]
fn content_type_that_is_not_text_is_not_html() {
    assert!(!value_is_html(&b"text/html; name=\xe9".to_vec()));
    assert!(!value_is_html(&b"text/html\x7f".to_vec()));
    assert!(!value_is_html(&b"text/html\x01".to_vec()));
}

#[test]
fn absent_content_type_is_not_html() {
    assert!(!content_type_is_html(&None));
    assert!(content_type_is_html(&Some(b"text/html".to_vec())));
}

#[test]
fn body_is_wanted_for_html_success_only() {
    assert!(wants_body(200, &Some(b"text/html".to_vec())));
    assert!(!wants_body(200, &Some(b"application/json".to_vec())));
    assert!(!wants_body(200, &None));
    assert!(!wants_body(404, &Some(b"text/html".to_vec())));
}

#[test]
fn html_success_yields_a_snippet() {
    let outcome = classify(
        "http://example.com/".to_string(),
        replied(200, Some("text/html; charset=utf-8"), Some("<html>\n<body>hi</body>\n</html>")),
    );
    assert_eq!(outcome.url, "http://example.com/");
    assert!(outcome.success);
    assert_eq!(outcome.snippet, Some("<html> <body>hi</body> </html>".to_string()));
    assert_eq!(outcome.error, None);
    assert!(one_of_snippet_and_error(&outcome));
}

#[test]
fn html_success_without_readable_body_has_an_empty_snippet() {
    let outcome = classify("u".to_string(), replied(200, Some("text/html"), None));
    assert!(outcome.success);
    assert_eq!(outcome.snippet, Some(String::new()));
    assert_eq!(outcome.error, None);
}

#[test]
fn content_type_gating_skips_json() {
    let outcome = classify(
        "http://example.com/api".to_string(),
        replied(200, Some("application/json"), Some("{\"a\": 1}")),
    );
    assert_eq!(outcome.url, "http://example.com/api");
    assert!(!outcome.success);
    assert_eq!(outcome.snippet, None);
    assert_eq!(outcome.error, Some("Skipped non-HTML content".to_string()));
    assert!(one_of_snippet_and_error(&outcome));
}

#[test]
fn missing_content_type_is_skipped() {
    let outcome = classify("u".to_string(), replied(204, None, None));
    assert!(!outcome.success);
    assert_eq!(outcome.error, Some("Skipped non-HTML content".to_string()));
    assert_eq!(outcome.snippet, None);
}

#[test]
fn status_gating_reports_the_code() {
    let outcome = classify(
        "http://example.com/missing".to_string(),
        replied(404, Some("text/html"), Some("<html>not found</html>")),
    );
    assert_eq!(outcome.url, "http://example.com/missing");
    assert!(!outcome.success);
    assert_eq!(outcome.snippet, None);
    assert_eq!(outcome.error, Some("HTTP 404".to_string()));
    assert!(one_of_snippet_and_error(&outcome));
}

#[test]
fn status_codes_are_written_in_decimal() {
    for (status, text) in [
        (0u16, "HTTP 0"),
        (7, "HTTP 7"),
        (10, "HTTP 10"),
        (100, "HTTP 100"),
        (199, "HTTP 199"),
        (300, "HTTP 300"),
        (301, "HTTP 301"),
        (500, "HTTP 500"),
        (503, "HTTP 503"),
        (999, "HTTP 999"),
        (1000, "HTTP 1000"),
        (u16::MAX, "HTTP 65535"),
    ] {
        let outcome = classify("u".to_string(), replied(status, None, None));
        assert_eq!(outcome.error, Some(text.to_string()));
        assert!(!outcome.success);
    }
}

#[test]
fn transport_failure_carries_its_message() {
    let outcome = classify(
        "http://nowhere.invalid/".to_string(),
        FetchResponse::TransportFailure {
            message: "error sending request: dns error".to_string(),
        },
    );
    assert_eq!(outcome.url, "http://nowhere.invalid/");
    assert!(!outcome.success);
    assert_eq!(outcome.snippet, None);
    assert_eq!(outcome.error, Some("error sending request: dns error".to_string()));
    assert!(!outcome.error.clone().unwrap().is_empty());
    assert!(one_of_snippet_and_error(&outcome));
}

#[test]
fn every_outcome_has_exactly_one_of_snippet_and_error() {
    let responses = vec![
        FetchResponse::TransportFailure { message: "refused".to_string() },
        replied(200, Some("text/html"), Some("x")),
        replied(200, Some("text/html"), None),
        replied(200, Some("text/plain"), Some("x")),
        replied(200, None, Some("x")),
        replied(302, Some("text/html"), Some("x")),
        replied(500, None, None),
    ];
    for response in responses {
        let outcome = classify("same".to_string(), response);
        assert!(one_of_snippet_and_error(&outcome));
        assert_eq!(outcome.url, "same");
    }
}

#[test]
fn url_is_echoed_as_given() {
    let odd = "  not a URL at all \u{1f600}";
    let outcome = classify(odd.to_string(), replied(200, Some("text/html"), Some("")));
    assert_eq!(outcome.url, odd);
}

#[test]
fn transport_failure_without_a_message_still_says_something() {
    let outcome = classify(
        "http://nowhere.invalid/".to_string(),
        FetchResponse::TransportFailure { message: String::new() },
    );
    assert!(!outcome.success);
    assert_eq!(outcome.snippet, None);
    assert_eq!(outcome.error, Some("Transport error".to_string()));
}

#[test]
fn every_failure_has_a_reason_that_is_not_empty() {
    let responses = vec![
        FetchResponse::TransportFailure { message: String::new() },
        FetchResponse::TransportFailure { message: " ".to_string() },
        replied(200, None, None),
        replied(0, None, None),
        replied(404, Some("text/html"), Some("")),
    ];
    for response in responses {
        let outcome = classify("u".to_string(), response);
        assert!(!outcome.success);
        assert!(!outcome.error.unwrap().is_empty());
    }
}
