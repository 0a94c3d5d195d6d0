use tremolite::channels::ChannelsModule;
use tremolite::cron::CronModule;
use tremolite::delegation::{DelegateMode, DelegationModule, DelegationStep};
use tremolite::json::JsonValue;
use tremolite::llm::ToolDefinition;
use tremolite::module::{EventResponse, ModuleError};
use tremolite::registry::Event;
use tremolite::webhook::WebhookModule;

fn members(v: &JsonValue) -> &Vec<(String, JsonValue)> {
    match v {
        JsonValue::Object(m) => m,
        other => panic!("not an object: {:?}", other),
    }
}

fn strings(v: &JsonValue) -> Vec<String> {
    match v {
        JsonValue::Array(a) => a
            .iter()
            .map(|x| match x {
                JsonValue::Str(s) => s.clone(),
                other => panic!("not a string: {:?}", other),
            })
            .collect(),
        other => panic!("not an array: {:?}", other),
    }
}

/// The tool's name, its parameters' names and its required list.
fn shape(t: &ToolDefinition) -> (String, Vec<String>, Option<Vec<String>>) {
    assert_eq!(t.def_type, "function");
    let m = members(&t.function.parameters);
    assert_eq!(m[0].0, "type");
    assert!(matches!(&m[0].1, JsonValue::Str(s) if s == "object"));
    assert_eq!(m[1].0, "properties");
    let props = members(&m[1].1).iter().map(|(k, _)| k.clone()).collect();
    let required = m.get(2).map(|(k, v)| {
        assert_eq!(k, "required");
        strings(v)
    });
    (t.function.name.clone(), props, required)
}

#[test]
fn delegation_tool_schemas() {
    let tools = DelegationModule::new().tool_definitions();
    assert_eq!(tools.len(), 3);
    let (name, props, req) = shape(&tools[0]);
    assert_eq!(name, "delegate_task");
    assert_eq!(props, vec!["goal", "context", "mode", "command", "workdir", "timeout_secs"]);
    assert_eq!(req, Some(vec!["goal".to_string(), "mode".to_string()]));
    let mode = &members(&members(&tools[0].function.parameters)[1].1)[2].1;
    let mm = members(mode);
    assert_eq!(mm[1].0, "enum");
    assert_eq!(strings(&mm[1].1), vec!["tremolite", "opencode", "shell"]);
    assert!(matches!(&mm[2].1, JsonValue::Str(s) if s == "委派模式"));
    let (name, props, req) = shape(&tools[1]);
    assert_eq!(name, "delegate_session");
    assert_eq!(props, vec!["goal", "context", "mode", "timeout_secs"]);
    assert_eq!(req, Some(vec!["goal".to_string(), "mode".to_string()]));
    let (name, props, req) = shape(&tools[2]);
    assert_eq!(name, "list_delegations");
    assert!(props.is_empty());
    assert_eq!(req, Some(vec![]));
    assert_eq!(tools[2].function.description, "查看所有已完成委派任务的结果摘要");
}

#[test]
fn other_module_tool_schemas() {
    let ch = ChannelsModule::new().tool_definitions();
    let (name, props, req) = shape(&ch[0]);
    assert_eq!((name.as_str(), props.len(), req), ("list_channels", 0, None));
    let (name, props, req) = shape(&ch[1]);
    assert_eq!(name, "send_message");
    assert_eq!(props, vec!["channel", "target", "content"]);
    assert_eq!(req, Some(vec!["channel".to_string(), "target".to_string(), "content".to_string()]));

    let cron = CronModule::new().tool_definitions();
    assert_eq!(cron.len(), 1);
    assert_eq!(shape(&cron[0]), ("cron_list".to_string(), vec![], Some(vec![])));

    let hooks = WebhookModule::new().tool_definitions();
    let (name, props, req) = shape(&hooks[0]);
    assert_eq!(name, "register_webhook");
    assert_eq!(
        props,
        vec!["name", "source", "action_type", "tool_name", "prompt_template", "condition_field", "condition_value"]
    );
    assert_eq!(req, Some(vec!["name".to_string(), "source".to_string(), "action_type".to_string()]));
    assert_eq!(shape(&hooks[1]), ("list_webhooks".to_string(), vec![], Some(vec![])));
    assert_eq!(shape(&hooks[2]), ("delete_webhook".to_string(), vec!["name".to_string()], Some(vec!["name".to_string()])));
}

#[test]
fn delegation_tool_steps() {
    let mut m = DelegationModule::new().with_timeout(120);
    let unknown: Result<Vec<(String, JsonValue)>, String> = Ok(vec![]);
    assert!(matches!(m.tool_step("nope", &unknown), Err(ModuleError::ToolNotFound(n)) if n == "nope"));
    let bad: Result<Vec<(String, JsonValue)>, String> = Err("expected value".to_string());
    assert!(matches!(m.tool_step("delegate_task", &bad), Err(ModuleError::ToolExecutionFailed(e)) if e == "goal 不能为空"));
    assert!(matches!(m.tool_step("delegate_session", &bad), Err(ModuleError::ToolExecutionFailed(e)) if e == "expected value"));
    let args: Result<Vec<(String, JsonValue)>, String> = Ok(vec![
        ("goal".to_string(), JsonValue::Str("ls".to_string())),
        ("mode".to_string(), JsonValue::Str("shell".to_string())),
    ]);
    match m.tool_step("delegate_task", &args) {
        Ok(DelegationStep::RunTask { mode, context }) => {
            assert!(matches!(mode, DelegateMode::Shell { command } if command == "ls"));
            assert_eq!((context.goal.as_str(), context.workdir.as_str(), context.timeout_secs), ("ls", ".", 120));
        }
        other => panic!("unexpected {:?}", other),
    }
    assert!(matches!(m.tool_step("delegate_session", &args),
        Err(ModuleError::ToolExecutionFailed(e)) if e == "engine 尚未就绪，无法创建子会话"));
    assert!(matches!(m.on_event(&Event::Startup), EventResponse::Pass));
    match m.tool_step("delegate_session", &args) {
        Ok(DelegationStep::RunSession(d)) => {
            assert_eq!((d.goal.as_str(), d.mode.as_str(), d.timeout_secs), ("ls", "shell", 120));
        }
        other => panic!("unexpected {:?}", other),
    }
    let no_goal: Result<Vec<(String, JsonValue)>, String> =
        Ok(vec![("mode".to_string(), JsonValue::Str("shell".to_string()))]);
    assert!(matches!(m.tool_step("delegate_task", &no_goal), Err(ModuleError::ToolExecutionFailed(e)) if e == "goal 不能为空"));
    assert!(matches!(m.tool_step("list_delegations", &args), Ok(DelegationStep::Reply(t)) if t == "暂无已完成委派任务~"));
    let _ = m.finish_task(Ok("ok".to_string()));
    assert!(matches!(m.tool_step("list_delegations", &args), Ok(DelegationStep::Reply(t)) if t == "[task-1] ok..."));
    assert!(matches!(m.on_event(&Event::Shutdown), EventResponse::Pass));
    assert_eq!(m.list_completed_summary().len(), 1);
}
