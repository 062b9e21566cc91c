use code_index::summary::{
    fallback_summary, request_body, resolve_summary, status_is_success, summary_from_response,
    SummaryError, FALLBACK_PREFIX,
};

#[test]
fn fallback_quotes_short_content_whole() {
    assert_eq!(
        fallback_summary("fn main() {}"),
        "Failed to summarize. File content preview: fn main() {}"
    );
}

#[test]
fn fallback_quotes_first_hundred_characters() {
    let content: String = (0..150).map(|i| char::from(b'a' + (i % 26) as u8)).collect();
    let expected = format!("{}{}", FALLBACK_PREFIX, &content[..100]);
    assert_eq!(fallback_summary(&content), expected);
    let exact: String = "x".repeat(100);
    assert_eq!(fallback_summary(&exact), format!("{}{}", FALLBACK_PREFIX, exact));
}

#[test]
fn fallback_of_empty_content_is_the_prefix() {
    assert_eq!(fallback_summary(""), FALLBACK_PREFIX);
}

#[test]
fn fallback_counts_characters_not_bytes() {
    let content: String = "é".repeat(120);
    let expected = format!("{}{}", FALLBACK_PREFIX, "é".repeat(100));
    assert_eq!(fallback_summary(&content), expected);
}

#[test]
fn resolve_keeps_remote_summary() {
    assert_eq!(resolve_summary("body", Ok("A parser".to_string())), "A parser");
}

#[test]
fn resolve_falls_back_on_any_error() {
    let expected = format!("{}body", FALLBACK_PREFIX);
    let errors = vec![
        SummaryError::Transport { message: "refused".to_string() },
        SummaryError::RemoteService { status: 500, body: "oops".to_string() },
        SummaryError::MalformedResponse,
        SummaryError::EmptySummary,
    ];
    for e in errors {
        assert_eq!(resolve_summary("body", Err(e)), expected);
    }
    assert_eq!(resolve_summary("body", Ok(String::new())), expected);
}

#[test]
fn whitespace_only_text_is_an_empty_summary() {
    let r = summary_from_response(200, r#"{"content":[{"type":"text","text":"   "}]}"#);
    assert_eq!(r, Err(SummaryError::EmptySummary));
}

#[test]
fn text_is_trimmed() {
    let r = summary_from_response(200, r#"{"content":[{"text":"  Parses input.\n"}]}"#);
    assert_eq!(r, Ok("Parses input.".to_string()));
}

#[test]
fn non_success_status_is_a_remote_error() {
    let r = summary_from_response(401, "invalid key");
    assert_eq!(
        r,
        Err(SummaryError::RemoteService { status: 401, body: "invalid key".to_string() })
    );
    let r = summary_from_response(199, r#"{"content":[{"text":"x"}]}"#);
    assert!(matches!(r, Err(SummaryError::RemoteService { status: 199, .. })));
}

#[test]
fn missing_text_is_malformed() {
    assert_eq!(summary_from_response(200, "not json"), Err(SummaryError::MalformedResponse));
    assert_eq!(summary_from_response(200, r#"{"content":[]}"#), Err(SummaryError::MalformedResponse));
    assert_eq!(
        summary_from_response(200, r#"{"content":[{"text":7}]}"#),
        Err(SummaryError::MalformedResponse)
    );
    assert_eq!(summary_from_response(200, r#"{"other":1}"#), Err(SummaryError::MalformedResponse));
    assert_eq!(summary_from_response(299, r#"{"content":[{"text":"ok"}]}"#), Ok("ok".to_string()));
}

#[test]
fn success_statuses() {
    assert!(status_is_success(200));
    assert!(status_is_success(204));
    assert!(!status_is_success(300));
    assert!(!status_is_success(404));
}

#[test]
fn request_body_escapes_the_prompt() {
    let body = request_body("model-x", "let s = \"a\";\n");
    assert_eq!(
        body,
        r#"{"model":"model-x","messages":[{"role":"user","content":"Summarize the following code:\n\nlet s = \"a\";\n"}],"max_tokens":1000}"#
    );
}

#[test]
fn request_body_escapes_control_characters() {
    let body = request_body("m\\\"", "\t\u{1}\u{1f}\u{8}\u{c}\r/é");
    assert_eq!(
        body,
        "{\"model\":\"m\\\\\\\"\",\"messages\":[{\"role\":\"user\",\"content\":\"Summarize the following code:\\n\\n\\t\\u0001\\u001f\\b\\f\\r/é\"}],\"max_tokens\":1000}"
    );
}
