use llm_call::chat::{
    call_failed, chat_request_body, failure_of, http_failure, http_failure_line, is_success, parse_input, read_reply,
    resolve_temperature, result_value,
};
use llm_call::conversation::{Message, Role};
use llm_call::tool::ToolError;
use serde_json::Value;

fn value(text: &str) -> Value {
    serde_json::from_str(text).unwrap()
}

fn message(role: Role, content: &str) -> Message {
    Message { role, content: content.to_string() }
}

fn invalid(error: ToolError) -> String {
    match error {
        ToolError::InvalidInput(message) => message,
        other => panic!("{other:?}"),
    }
}

#[test]
fn an_input_is_read() {
    let call = parse_input(&value(
        r#"{"alias": " critic\n", "prompt": " p ", "context": "c", "thread_id": "t", "max_tokens": 17}"#,
    ))
    .unwrap();
    assert_eq!(call.alias, "critic");
    assert_eq!(call.prompt, " p ");
    assert_eq!(call.context.as_deref(), Some("c"));
    assert_eq!(call.thread_id.as_deref(), Some("t"));
    assert_eq!(call.max_tokens, 17);
}

#[test]
fn optional_members_have_defaults() {
    let call = parse_input(&value(r#"{"alias": "a", "prompt": ""}"#)).unwrap();
    assert_eq!(call.prompt, "");
    assert!(call.context.is_none());
    assert!(call.thread_id.is_none());
    assert_eq!(call.max_tokens, 4096);
    let call = parse_input(&value(
        r#"{"alias": "a", "prompt": "p", "context": 3, "thread_id": null, "max_tokens": "9"}"#,
    ))
    .unwrap();
    assert!(call.context.is_none());
    assert!(call.thread_id.is_none());
    assert_eq!(call.max_tokens, 4096);
}

#[test]
fn required_members_must_be_text() {
    for input in [r#"{}"#, r#"{"prompt": "p"}"#, r#"{"alias": 1, "prompt": "p"}"#, r#"["alias"]"#, "null"] {
        assert_eq!(invalid(parse_input(&value(input)).unwrap_err()), "missing field: alias");
    }
    for input in [r#"{"alias": "a"}"#, r#"{"alias": "a", "prompt": ["p"]}"#] {
        assert_eq!(invalid(parse_input(&value(input)).unwrap_err()), "missing field: prompt");
    }
}

#[test]
fn the_token_limit_stays_in_range() {
    for (asked, limit) in [
        ("0", 1),
        ("1", 1),
        ("32768", 32_768),
        ("32769", 32_768),
        ("18446744073709551615", 32_768),
        ("-5", 4096),
        ("12.0", 4096),
    ] {
        let input = format!(r#"{{"alias": "a", "prompt": "p", "max_tokens": {asked}}}"#);
        assert_eq!(parse_input(&value(&input)).unwrap().max_tokens, limit, "{asked}");
    }
}

#[test]
fn other_members_do_not_count() {
    let plain = parse_input(&value(r#"{"alias": "a", "prompt": "p"}"#)).unwrap();
    let more = parse_input(&value(
        r#"{"alias": "a", "prompt": "p", "base_url": "http://localhost", "provider": "x"}"#,
    ))
    .unwrap();
    assert_eq!(format!("{plain:?}"), format!("{more:?}"));
}

#[test]
fn temperatures_are_clamped_as_doubles_are() {
    let asked = [
        0.0, -0.0, 0.3, 1.0, 2.0, 2.0000000000000004, -1.0, 1e300, -1e300, 5e-324, -5e-324,
        f64::INFINITY, f64::NEG_INFINITY,
    ];
    for t in asked {
        let bits = resolve_temperature(Some(t.to_bits()));
        assert_eq!(bits, t.clamp(0.0, 2.0).to_bits(), "{t}");
        assert_eq!(resolve_temperature(Some(bits)), bits);
    }
    assert!(f64::from_bits(resolve_temperature(Some(f64::NAN.to_bits()))).is_nan());
    assert_eq!(f64::from_bits(resolve_temperature(None)), 0.3);
}

#[test]
fn a_request_body_holds_the_conversation() {
    let messages = vec![
        message(Role::System, "s"),
        message(Role::User, "u \"q\""),
        message(Role::Assistant, "a"),
    ];
    let body = chat_request_body("gpt", &messages, Value::from(0.3), 77);
    let expected = value(
        r#"{"model": "gpt", "messages": [
            {"role": "system", "content": "s"},
            {"role": "user", "content": "u \"q\""},
            {"role": "assistant", "content": "a"}],
            "temperature": 0.3, "max_tokens": 77, "stream": false}"#,
    );
    assert_eq!(body, expected);
    let empty = chat_request_body("m", &vec![], Value::from(2.0), 1);
    assert_eq!(empty["messages"], value("[]"));
}

#[test]
fn success_is_a_status_of_two_hundred_something() {
    for (status, yes) in [(199, false), (200, true), (204, true), (299, true), (300, false), (404, false)] {
        assert_eq!(is_success(status), yes);
    }
}

#[test]
fn any_other_status_is_a_failure_whatever_the_body_holds() {
    let body = r#"{"choices": [{"message": {"content": "yes"}}]}"#;
    for status in [200, 204, 299] {
        assert_eq!(failure_of(status, body), None);
    }
    for status in [100, 199, 300, 404, 503, 999] {
        let message = failure_of(status, body).unwrap();
        assert!(message.starts_with(&format!("HTTP {status} ")));
        assert!(message.ends_with(&format!(": {body}")));
    }
    assert_eq!(failure_of(404, "gone").unwrap(), "HTTP 404 Not Found: gone");
}

#[test]
fn failures_are_put_in_words() {
    let message = http_failure_line("404 Not Found", "no such model");
    assert_eq!(message, http_failure(404, "no such model"));
    assert_eq!(message, "HTTP 404 Not Found: no such model");
    assert_eq!(http_failure(500, ""), "HTTP 500 Internal Server Error: ");
    match call_failed(&message) {
        ToolError::ExecutionFailed(text) => {
            assert_eq!(text, "llm_call failed: HTTP 404 Not Found: no such model")
        }
        other => panic!("{other:?}"),
    }
}

#[test]
fn a_response_is_read() {
    let reply = read_reply(&value(
        r#"{"choices": [{"message": {"content": "yes"}}, {"message": {"content": "no"}}],
            "usage": {"prompt_tokens": 12, "completion_tokens": 34}}"#,
    ));
    assert_eq!(reply.content, "yes");
    assert_eq!(reply.tokens_in, 12);
    assert_eq!(reply.tokens_out, 34);
}

#[test]
fn what_a_response_lacks_is_empty() {
    for response in [
        "{}",
        "null",
        r#"{"choices": [], "usage": null}"#,
        r#"{"choices": [{"message": {"content": null}}], "usage": {"prompt_tokens": -1, "completion_tokens": 1.5}}"#,
        r#"{"choices": {"1": {"message": {"content": "x"}}}}"#,
    ] {
        let reply = read_reply(&value(response));
        assert_eq!((reply.content.as_str(), reply.tokens_in, reply.tokens_out), ("", 0, 0));
    }
}

#[test]
fn an_object_with_a_member_named_zero_serves_as_well() {
    let reply = read_reply(&value(r#"{"choices": {"0": {"message": {"content": "x"}}}}"#));
    assert_eq!(reply.content, "x");
}

#[test]
fn a_result_can_be_read_back() {
    let reply = read_reply(&value(
        r#"{"choices": [{"message": {"content": "yes"}}],
            "usage": {"prompt_tokens": 12, "completion_tokens": 34}}"#,
    ));
    let result = result_value(&reply, "tid", "gpt", "critic");
    let expected = value(
        r#"{"content": "yes", "thread_id": "tid", "model_used": "gpt", "alias": "critic",
            "tokens_used": {"input": 12, "output": 34}}"#,
    );
    assert_eq!(result, expected);
}
