use tremolite::json::JsonValue;
use tremolite::module::ModuleError;
use tremolite::webhook::{
    check_conditions, ConditionRule, WebhookAction, WebhookConfig, WebhookEvent, WebhookModule,
};

fn hook(name: &str, source: &str, conditions: Vec<ConditionRule>, action: WebhookAction) -> WebhookConfig {
    WebhookConfig {
        name: name.to_string(),
        source: source.to_string(),
        conditions,
        action,
        last_triggered: None,
        trigger_count: 0,
    }
}

fn rule(field: &str, value: &str, op: &str) -> ConditionRule {
    ConditionRule { field: field.into(), value: value.into(), operator: op.into() }
}

fn obj(members: Vec<(&str, JsonValue)>) -> JsonValue {
    JsonValue::Object(members.into_iter().map(|(k, v)| (k.to_string(), v)).collect())
}

fn event(name: &str, source: &str, payload: JsonValue, text: &str) -> WebhookEvent {
    WebhookEvent {
        name: name.into(),
        source: source.into(),
        headers: vec![],
        payload,
        payload_text: text.into(),
    }
}

#[test]
fn webhook_register_get_unregister() {
    let mut m = WebhookModule::new();
    assert!(m.register(hook("gh", "github", vec![], WebhookAction::Log { message: "hi".into() })).is_ok());
    assert_eq!(m.list().len(), 1);
    assert_eq!(m.get("gh").unwrap().source, "github");
    assert!(m.get("nope").is_none());
    let err = m.register(hook("gh", "gitlab", vec![], WebhookAction::Log { message: "x".into() }));
    assert_eq!(err.unwrap_err(), "webhook 'gh' already registered");
    assert_eq!(m.list().len(), 1);
    assert!(!m.unregister("nope"));
    assert!(m.unregister("gh"));
    assert!(m.get("gh").is_none());
    assert!(m.list().is_empty());
}

#[test]
fn webhook_unregister_keeps_others() {
    let mut m = WebhookModule::new();
    for n in ["a", "b", "c"] {
        m.register(hook(n, "custom", vec![], WebhookAction::Log { message: n.into() })).unwrap();
    }
    assert!(m.unregister("b"));
    let names: Vec<&str> = m.list().iter().map(|h| h.name.as_str()).collect();
    assert_eq!(names, vec!["a", "c"]);
}

#[test]
fn webhook_receive_errors() {
    let mut m = WebhookModule::new();
    m.register(hook("gh", "github", vec![], WebhookAction::Log { message: "m".into() })).unwrap();
    let r = m.receive_at(event("zz", "github", JsonValue::Null, "null"), 5);
    assert_eq!(r.unwrap_err(), "webhook 'zz' not found");
    let r = m.receive_at(event("gh", "gitlab", JsonValue::Null, "null"), 5);
    assert_eq!(r.unwrap_err(), "source mismatch: expected 'github', got 'gitlab'");
    assert!(m.event_log().is_empty());
}

#[test]
fn webhook_receive_conditions_and_log() {
    let mut m = WebhookModule::new();
    let conds = vec![rule("pull_request.state", "open", "eq"), rule("action", "open", "prefix")];
    m.register(hook("pr", "github", conds, WebhookAction::Log { message: "PR!".into() })).unwrap();
    let payload_ok = obj(vec![
        ("action", JsonValue::Str("opened".into())),
        ("pull_request", obj(vec![("state", JsonValue::Str("open".into()))])),
    ]);
    let r = m.receive_at(event("pr", "github", payload_ok, "{}"), 100).unwrap();
    assert_eq!(r, "[logged] PR!");
    let h = m.get("pr").unwrap();
    assert_eq!(h.trigger_count, 1);
    assert_eq!(h.last_triggered, Some(100));
    let payload_bad = obj(vec![("action", JsonValue::Str("closed".into()))]);
    let r = m.receive_at(event("pr", "github", payload_bad, "{}"), 200).unwrap();
    assert_eq!(r, "conditions not met, skipped");
    assert_eq!(m.get("pr").unwrap().trigger_count, 1);
    let log = m.event_log();
    assert_eq!(log.len(), 2);
    assert_eq!(log[0], ("pr".to_string(), 100, true));
    assert_eq!(log[1], ("pr".to_string(), 200, false));
}

#[test]
fn webhook_condition_operators() {
    let p = obj(vec![
        ("n", JsonValue::Int(-42)),
        ("b", JsonValue::Bool(true)),
        ("s", JsonValue::Str("hello world".into())),
        ("f", JsonValue::OtherNumber("1.5".into())),
    ]);
    assert!(check_conditions(&[rule("n", "-42", "eq")], &p));
    assert!(check_conditions(&[rule("b", "true", "eq")], &p));
    assert!(check_conditions(&[rule("s", "lo wo", "contains")], &p));
    assert!(check_conditions(&[rule("s", "hell", "prefix")], &p));
    assert!(!check_conditions(&[rule("s", "world", "prefix")], &p));
    assert!(!check_conditions(&[rule("s", "hello world", "regex")], &p));
    assert!(check_conditions(&[rule("f", "", "eq")], &p));
    assert!(!check_conditions(&[rule("missing", "", "eq")], &p));
    assert!(!check_conditions(&[rule("s.inner", "", "eq")], &p));
    assert!(check_conditions(&[], &JsonValue::Null));
}

#[test]
fn webhook_prompt_and_tool_actions() {
    let mut m = WebhookModule::new();
    m.register(hook("p", "src", vec![], WebhookAction::LlmPrompt {
        prompt_template: "来自 {{source}}: {{event}}".into(),
    })).unwrap();
    let r = m.receive_at(event("p", "src", JsonValue::Null, "{\"a\":1}"), 1).unwrap();
    assert_eq!(r, "[scheduled] prompt: 来自 src: {\"a\":1}");
    m.register(hook("t", "src", vec![], WebhookAction::Tool {
        tool: "run".into(),
        args: vec![("k".into(), "v\"q".into())],
    })).unwrap();
    let r = m.receive_at(event("t", "src", JsonValue::Null, "null"), 2).unwrap();
    assert_eq!(r, "[triggered] tool 'run' with {\"k\": \"v\\\"q\"}");
}

#[test]
fn webhook_prompt_cut_at_100_bytes() {
    let mut m = WebhookModule::new();
    m.register(hook("p", "s", vec![], WebhookAction::LlmPrompt { prompt_template: "a".repeat(150) })).unwrap();
    let r = m.receive_at(event("p", "s", JsonValue::Null, ""), 1).unwrap();
    assert_eq!(r, format!("[scheduled] prompt: {}", "a".repeat(100)));
    m.register(hook("q", "s", vec![], WebhookAction::LlmPrompt { prompt_template: "好".repeat(40) })).unwrap();
    assert!(m.receive_would_panic(&event("q", "s", JsonValue::Null, "")));
    assert!(!m.receive_would_panic(&event("p", "s", JsonValue::Null, "")));
}

#[test]
fn webhook_event_log_keeps_last_20() {
    let mut m = WebhookModule::new();
    m.register(hook("h", "s", vec![], WebhookAction::Log { message: "x".into() })).unwrap();
    for t in 0..25u64 {
        m.receive_at(event("h", "s", JsonValue::Null, ""), t).unwrap();
    }
    let log = m.event_log();
    assert_eq!(log.len(), 20);
    assert_eq!(log[0].1, 5);
    assert_eq!(log[19].1, 24);
}

#[test]
fn webhook_tool_commands() {
    let mut m = WebhookModule::new();
    assert_eq!(m.execute_tool("list_webhooks", "{}").unwrap(), "还没有注册任何 webhook 呢~");
    let r = m.execute_tool(
        "register_webhook",
        r#"{"name":"gh","source":"github","action_type":"tool","tool_name":"notify","condition_field":"action","condition_value":"opened"}"#,
    );
    assert_eq!(r.unwrap(), "webhook 'gh' 已注册，POST /webhooks/gh 来触发它呢~");
    let h = m.get("gh").unwrap();
    assert_eq!(h.conditions.len(), 1);
    assert_eq!(h.conditions[0].operator, "eq");
    match &h.action {
        WebhookAction::Tool { tool, args } => {
            assert_eq!(tool, "notify");
            assert!(args.is_empty());
        },
        _ => panic!("expected a tool action"),
    }
    let r = m.execute_tool("register_webhook", r#"{"name":"lg"}"#);
    assert!(r.is_ok());
    match &m.get("lg").unwrap().action {
        WebhookAction::Log { message } => assert_eq!(message, "webhook 'lg' triggered"),
        _ => panic!("expected a log action"),
    }
    assert_eq!(m.get("lg").unwrap().source, "custom");
    let list = m.execute_tool("list_webhooks", "").unwrap();
    assert_eq!(
        list,
        "已注册的 webhook (2):\n  [github] gh — 调用工具 'notify' (0 次, 从未触发)\n  [custom] lg — 记录日志 (0 次, 从未触发)"
    );
    match m.execute_tool("register_webhook", r#"{"source":"x"}"#) {
        Err(ModuleError::ToolExecutionFailed(e)) => assert_eq!(e, "name 不能为空"),
        _ => panic!("expected an empty-name error"),
    }
    match m.execute_tool("register_webhook", "bad json") {
        Err(ModuleError::ToolExecutionFailed(e)) => assert!(e.starts_with("参数解析: ") && e.len() > "参数解析: ".len()),
        _ => panic!("expected a parse error"),
    }
    match m.execute_tool("register_webhook", r#"{"name":"gh"}"#) {
        Err(ModuleError::ToolExecutionFailed(e)) => assert_eq!(e, "webhook 'gh' already registered"),
        _ => panic!("expected a duplicate error"),
    }
    // delete_webhook reads an object of strings only.
    match m.execute_tool("delete_webhook", r#"{"name":"gh","force":true}"#) {
        Err(ModuleError::ToolExecutionFailed(e)) => assert!(e.starts_with("参数解析: ")),
        _ => panic!("expected a parse error"),
    }
    assert!(m.get("gh").is_some());
    assert_eq!(m.execute_tool("delete_webhook", r#"{"name":"gh"}"#).unwrap(), "webhook 'gh' 已删除");
    match m.execute_tool("delete_webhook", r#"{"name":"gh"}"#) {
        Err(ModuleError::ToolExecutionFailed(e)) => assert_eq!(e, "webhook 'gh' 未找到"),
        _ => panic!("expected a not-found error"),
    }
    match m.execute_tool("bogus", "{}") {
        Err(ModuleError::ToolNotFound(n)) => assert_eq!(n, "bogus"),
        _ => panic!("expected tool not found"),
    }
}

#[test]
fn webhook_tool_call_on_parsed_arguments() {
    let mut m = WebhookModule::new();
    let args = Ok(vec![("name".to_string(), JsonValue::Str("lg".to_string()))]);
    assert_eq!(m.tool_call("register_webhook", &args).unwrap(), "webhook 'lg' 已注册，POST /webhooks/lg 来触发它呢~");
    match m.tool_call("register_webhook", &Err("bad json".into())) {
        Err(ModuleError::ToolExecutionFailed(e)) => assert_eq!(e, "参数解析: bad json"),
        _ => panic!("expected a parse error"),
    }
}

#[test]
fn webhook_list_shows_last_trigger() {
    let mut m = WebhookModule::new();
    m.register(hook("h", "s", vec![], WebhookAction::LlmPrompt { prompt_template: "x".into() })).unwrap();
    m.receive_at(event("h", "s", JsonValue::Null, ""), 1700000000).unwrap();
    let list = m.execute_tool("list_webhooks", "{}").unwrap();
    assert_eq!(list, "已注册的 webhook (1):\n  [s] h — LLM 处理 (1 次, 上次触发: 1700000000)");
}
