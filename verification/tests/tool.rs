use llm_call::config::{AliasConfig, ModelsConfig};
use llm_call::conversation::{Message, Role};
use llm_call::llm_call::{chat_request, Admission, LlmCallTool};
use llm_call::llm_call_costs::AliasMap;
use llm_call::string_map::StringMap;
use llm_call::tool::{ApprovalRequirement, ToolCapability, ToolError};
use serde_json::Value;

fn value(text: &str) -> Value {
    serde_json::from_str(text).unwrap()
}

fn alias(provider: &str, max: Option<u32>) -> AliasConfig {
    AliasConfig {
        provider: provider.to_string(),
        model: format!("{provider}-model"),
        max_calls_per_session: max,
        api_key_env: None,
        api_key: Some("key".to_string()),
    }
}

fn tool() -> LlmCallTool {
    let mut aliases = StringMap::new();
    aliases.insert("limited".to_string(), alias("openai", Some(2)));
    aliases.insert("free".to_string(), alias("deepseek", None));
    aliases.insert("never".to_string(), alias("anthropic", Some(0)));
    LlmCallTool::new(Some(ModelsConfig { aliases }))
}

fn ask(tool: &mut LlmCallTool, alias: &str, prompt: &str, thread: Option<&str>) -> Result<Admission, ToolError> {
    let mut input = value(r#"{"context": "ctx"}"#);
    input["alias"] = Value::from(alias);
    input["prompt"] = Value::from(prompt);
    if let Some(id) = thread {
        input["thread_id"] = Value::from(id);
    }
    tool.accept(&input)
}

fn key() -> Option<String> {
    Some("key".to_string())
}

fn said(messages: &[Message]) -> Vec<(Role, &str)> {
    messages.iter().map(|m| (m.role, m.content.as_str())).collect()
}

fn response(content: &str, tokens_in: u64, tokens_out: u64) -> Value {
    let mut response = value(r#"{"choices": [{"message": {}}], "usage": {}}"#);
    response["choices"][0]["message"]["content"] = Value::from(content);
    response["usage"]["prompt_tokens"] = Value::from(tokens_in);
    response["usage"]["completion_tokens"] = Value::from(tokens_out);
    response
}

fn not_available(error: ToolError) -> String {
    match error {
        ToolError::NotAvailable(message) => message,
        other => panic!("{other:?}"),
    }
}

fn invalid(error: ToolError) -> String {
    match error {
        ToolError::InvalidInput(message) => message,
        other => panic!("{other:?}"),
    }
}

#[test]
fn without_a_configuration_nothing_is_called() {
    let mut tool = LlmCallTool::default();
    let error = ask(&mut tool, "free", "p", None).err().unwrap();
    assert_eq!(
        not_available(error),
        "No [models] section in config.toml. Define [models.aliases.<name>] to use llm_call."
    );
}

#[test]
fn malformed_inputs_come_first() {
    let mut tool = LlmCallTool::default();
    let error = tool.accept(&value(r#"{"prompt": "p"}"#)).err().unwrap();
    assert_eq!(invalid(error), "missing field: alias");
    let error = tool.accept(&value(r#"{"alias": "x"}"#)).err().unwrap();
    assert_eq!(invalid(error), "missing field: prompt");
}

#[test]
fn undeclared_aliases_are_refused() {
    let mut tool = tool();
    let error = ask(&mut tool, " nobody ", "p", None).err().unwrap();
    assert_eq!(
        invalid(error),
        "Unknown alias 'nobody'. Available: [free, limited, never]"
    );
    let mut none = LlmCallTool::new(Some(ModelsConfig { aliases: StringMap::new() }));
    let error = ask(&mut none, "x", "p", None).err().unwrap();
    assert_eq!(invalid(error), "Unknown alias 'x'. Available: []");
}

#[test]
fn session_limits_are_kept() {
    let mut tool = tool();
    assert!(ask(&mut tool, "limited", "1", None).is_ok());
    assert!(ask(&mut tool, " limited ", "2", None).is_ok());
    for _ in 0..3 {
        let error = ask(&mut tool, "limited", "3", None).err().unwrap();
        assert_eq!(
            not_available(error),
            "Alias 'limited' has reached its session limit of 2 calls."
        );
    }
    let error = ask(&mut tool, "never", "p", None).err().unwrap();
    assert_eq!(
        not_available(error),
        "Alias 'never' has reached its session limit of 0 calls."
    );
    for _ in 0..10 {
        assert!(ask(&mut tool, "free", "p", None).is_ok());
    }
}

#[test]
fn a_call_without_a_key_counts_but_says_nothing() {
    let mut tool = tool();
    for _ in 0..2 {
        let admitted = ask(&mut tool, "limited", "lost", Some("t")).unwrap();
        let error = tool.begin(admitted, None).err().unwrap();
        assert_eq!(
            not_available(error),
            "No API key for alias 'limited'. Set api_key_env or api_key in [models.aliases.limited]."
        );
    }
    assert!(ask(&mut tool, "limited", "p", None).is_err());
    let admitted = ask(&mut tool, "free", "first", Some("t")).unwrap();
    let call = tool.begin(admitted, key()).unwrap();
    assert_eq!(said(&call.messages), vec![(Role::System, "ctx"), (Role::User, "first")]);
}

#[test]
fn a_call_goes_to_the_declared_endpoint() {
    let mut tool = tool();
    let input = value(
        r#"{"alias": "free", "prompt": "p", "provider": "evil", "base_url": "http://evil", "model": "m"}"#,
    );
    let admitted = tool.accept(&input).unwrap();
    let call = tool.begin(admitted, key()).unwrap();
    assert_eq!(call.alias, "free");
    assert_eq!(call.provider, "deepseek");
    assert_eq!(call.model, "deepseek-model");
    assert_eq!(call.base_url, "https://api.deepseek.com");
    assert_eq!(call.api_key, "key");
    assert_eq!(call.max_tokens, 4096);
}

#[test]
fn a_new_conversation_gets_a_random_name() {
    let mut tool = tool();
    let mut names = vec![];
    for _ in 0..2 {
        let admitted = ask(&mut tool, "free", "p", None).unwrap();
        let id = tool.begin(admitted, key()).unwrap().thread_id;
        let chars: Vec<char> = id.chars().collect();
        assert_eq!(chars.len(), 36);
        for (i, c) in chars.iter().enumerate() {
            if [8, 13, 18, 23].contains(&i) {
                assert_eq!(*c, '-');
            } else {
                assert!(c.is_ascii_digit() || ('a'..='f').contains(c));
            }
        }
        assert_eq!(chars[14], '4');
        assert!(['8', '9', 'a', 'b'].contains(&chars[19]));
        names.push(id);
    }
    assert_ne!(names[0], names[1]);
}

#[test]
fn a_given_name_is_used_for_a_new_conversation() {
    let mut tool = tool();
    let admitted = ask(&mut tool, "free", "p", None).unwrap();
    let call = tool.begin_in(admitted, key(), "fresh".to_string()).unwrap();
    assert_eq!(call.thread_id, "fresh");
    let admitted = ask(&mut tool, "free", "q", Some("mine")).unwrap();
    let call = tool.begin_in(admitted, key(), "fresh".to_string()).unwrap();
    assert_eq!(call.thread_id, "mine");
    assert_eq!(said(&call.messages), vec![(Role::System, "ctx"), (Role::User, "q")]);
}

#[test]
fn conversations_continue() {
    let mut tool = tool();
    let mut costs: AliasMap = StringMap::new();
    let admitted = ask(&mut tool, "free", "one", None).unwrap();
    let call = tool.begin(admitted, key()).unwrap();
    let reply = response("uno", 10, 20);
    assert!(tool.can_finish(&costs, &call, &reply));
    let result = value(&tool.finish(&mut costs, &call, &reply));
    let id = result["thread_id"].as_str().unwrap();
    assert_eq!(id, call.thread_id);

    let admitted = ask(&mut tool, "limited", "two", Some(id)).unwrap();
    let call = tool.begin(admitted, key()).unwrap();
    assert_eq!(
        said(&call.messages),
        vec![
            (Role::System, "ctx"),
            (Role::User, "one"),
            (Role::Assistant, "uno"),
            (Role::User, "two"),
        ]
    );

    let admitted = ask(&mut tool, "free", "apart", Some("other")).unwrap();
    let call = tool.begin(admitted, key()).unwrap();
    assert_eq!(said(&call.messages), vec![(Role::System, "ctx"), (Role::User, "apart")]);
}

#[test]
fn failed_calls_leave_their_prompt() {
    let mut tool = tool();
    let admitted = ask(&mut tool, "free", "one", Some("t")).unwrap();
    let _ = tool.begin(admitted, key()).unwrap();
    let admitted = ask(&mut tool, "free", "two", Some("t")).unwrap();
    let call = tool.begin(admitted, key()).unwrap();
    assert_eq!(
        said(&call.messages),
        vec![(Role::System, "ctx"), (Role::User, "one"), (Role::User, "two")]
    );
}

#[test]
fn a_finished_call_is_reported_and_answered() {
    let mut tool = tool();
    let mut costs: AliasMap = StringMap::new();
    let admitted = ask(&mut tool, "limited", "p", Some("t-1")).unwrap();
    let call = tool.begin(admitted, key()).unwrap();
    let text = tool.finish(&mut costs, &call, &response("a \"b\"", 100, 50));
    assert_eq!(
        text,
        r#"{"alias":"limited","content":"a \"b\"","model_used":"openai-model","thread_id":"t-1","tokens_used":{"input":100,"output":50}}"#
    );
    let entry = costs.get("limited").unwrap();
    assert_eq!((entry.calls, entry.tokens_in, entry.tokens_out), (1, 100, 50));
    assert_eq!(entry.cost_usd_e8.low, 100 * 250 + 50 * 1000);
}

#[test]
fn an_overflow_is_seen_before_a_call_is_finished() {
    let mut tool = tool();
    let mut costs: AliasMap = StringMap::new();
    let admitted = ask(&mut tool, "free", "p", None).unwrap();
    let call = tool.begin(admitted, key()).unwrap();
    let large = response("x", u64::MAX, 0);
    assert!(tool.can_finish(&costs, &call, &large));
    tool.finish(&mut costs, &call, &large);
    assert!(!tool.can_finish(&costs, &call, &response("x", 1, 0)));
    assert!(tool.can_finish(&costs, &call, &response("x", 0, 1)));
}

#[test]
fn a_request_is_made_of_the_call() {
    let mut tool = tool();
    let input = value(r#"{"alias": "free", "prompt": "p", "max_tokens": 9}"#);
    let admitted = tool.accept(&input).unwrap();
    let call = tool.begin(admitted, Some("sk".to_string())).unwrap();
    let request = chat_request(&call, Value::from(0.5)).unwrap();
    assert_eq!(request.url, "https://api.deepseek.com/v1/chat/completions");
    assert_eq!(request.headers.get("authorization").unwrap().as_bytes(), b"Bearer sk");
    assert_eq!(
        request.body,
        value(
            r#"{"model": "deepseek-model", "messages": [{"role": "user", "content": "p"}],
                "temperature": 0.5, "max_tokens": 9, "stream": false}"#
        )
    );
}

#[test]
fn a_key_that_fits_no_header_fails_the_call() {
    let mut tool = tool();
    let admitted = ask(&mut tool, "free", "p", None).unwrap();
    let call = tool.begin(admitted, Some("a\nb".to_string())).unwrap();
    match chat_request(&call, Value::from(0.5)).err().unwrap() {
        ToolError::ExecutionFailed(message) => {
            assert_eq!(message, "llm_call failed: failed to parse header value")
        }
        other => panic!("{other:?}"),
    }
}

#[test]
fn the_key_of_the_environment_goes_first() {
    let cfg = alias("openai", None);
    assert_eq!(cfg.resolve_api_key(Some("env".to_string())).as_deref(), Some("env"));
    assert_eq!(cfg.resolve_api_key(None).as_deref(), Some("key"));
    let mut bare = alias("openai", None);
    bare.api_key = None;
    assert_eq!(bare.resolve_api_key(None), None);
    assert_eq!(bare.clone().provider, "openai");
}

#[test]
fn a_call_takes_the_key_of_its_alias() {
    let mut tool = tool();
    let admitted = ask(&mut tool, "free", "p", Some("t")).unwrap();
    let call = tool.begin_with_env(admitted, None).unwrap();
    assert_eq!(call.api_key, "key");
    assert_eq!(call.thread_id, "t");
    let admitted = ask(&mut tool, "free", "p", Some("t")).unwrap();
    let call = tool.begin_with_env(admitted, Some("env".to_string())).unwrap();
    assert_eq!(call.api_key, "env");

    let mut bare = alias("openai", None);
    bare.api_key = None;
    let mut aliases = StringMap::new();
    aliases.insert("bare".to_string(), bare);
    let mut tool = LlmCallTool::new(Some(ModelsConfig { aliases }));
    let admitted = ask(&mut tool, "bare", "p", None).unwrap();
    let error = tool.begin_with_env(admitted, None).err().unwrap();
    assert_eq!(
        not_available(error),
        "No API key for alias 'bare'. Set api_key_env or api_key in [models.aliases.bare]."
    );
    let admitted = ask(&mut tool, "bare", "p", None).unwrap();
    let call = tool.begin_with_env(admitted, Some("env".to_string())).unwrap();
    assert_eq!(call.api_key, "env");
    assert_eq!(call.thread_id.len(), 36);
}

#[test]
fn what_the_host_is_told() {
    let tool = tool();
    assert_eq!(tool.name(), "llm_call");
    assert!(tool.description().starts_with("Invoke a named secondary model alias"));
    assert_eq!(tool.capabilities(), vec![ToolCapability::Network]);
    assert_eq!(tool.approval_requirement(), ApprovalRequirement::Suggest);
    assert!(!tool.supports_parallel());
}

#[test]
fn the_schema() {
    let expected = value(
        r#"{
            "type": "object",
            "properties": {
                "alias": {
                    "type": "string",
                    "description": "Name of the model alias declared in config.toml [models.aliases]."
                },
                "prompt": {
                    "type": "string",
                    "description": "The user/task message to send to the secondary model."
                },
                "context": {
                    "type": "string",
                    "description": "Optional extra context prepended as a system message."
                },
                "thread_id": {
                    "type": "string",
                    "description": "Optional thread ID for multi-turn conversation. Pass the ID returned by a previous llm_call to continue the same thread."
                },
                "temperature": {
                    "type": "number",
                    "description": "Sampling temperature (0.0–2.0). Defaults to 0.3."
                },
                "max_tokens": {
                    "type": "integer",
                    "description": "Maximum tokens in the response. Defaults to 4096."
                }
            },
            "required": ["alias", "prompt"],
            "additionalProperties": false
        }"#,
    );
    assert_eq!(tool().input_schema(), expected);
}
