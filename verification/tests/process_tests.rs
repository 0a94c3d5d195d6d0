use tremolite::json::JsonValue;
use tremolite::module::{EventResponse, ModuleError, PromptContribution, ToolResultMessage};
use tremolite::process::{
    tool_from_declared, CapabilityDeclaration, EventPayload, ModuleEventResponse, ProcessModule,
};
use tremolite::registry::Event;

fn obj(members: Vec<(&str, JsonValue)>) -> JsonValue {
    JsonValue::Object(members.into_iter().map(|(k, v)| (k.to_string(), v)).collect())
}

fn s(t: &str) -> JsonValue {
    JsonValue::Str(t.to_string())
}

fn declaration(msg_type: &str) -> CapabilityDeclaration {
    CapabilityDeclaration {
        msg_type: msg_type.into(),
        id: "qq".into(),
        name: "QQ Bridge".into(),
        version: "0.2.0".into(),
        provides: vec!["chat.qq".into()],
        needs: vec!["session.manager".into()],
        tools: vec![
            obj(vec![("name", s("send_qq")), ("description", s("发消息")), ("parameters", obj(vec![("type", s("object"))]))]),
            obj(vec![("description", s("no name"))]),
            obj(vec![("name", s("ping"))]),
        ],
        prompt_contributions: vec![PromptContribution { content: "[QQ]".into() }],
    }
}

fn member<'a>(v: &'a JsonValue, k: &str) -> &'a JsonValue {
    v.get(k).unwrap()
}

#[test]
fn declaration_is_checked_and_read() {
    match ProcessModule::from_declaration("qq", declaration("hello"), 1) {
        Err(e) => assert_eq!(e, "Expected capability_declare, got 'hello'"),
        Ok(_) => panic!("accepted"),
    }
    let m = ProcessModule::from_declaration("qq-proc", declaration("capability_declare"), 7).unwrap();
    assert_eq!((m.id(), m.name(), m.version()), ("qq-proc", "QQ Bridge", "0.2.0"));
    assert_eq!(m.provides(), vec!["chat.qq".to_string()]);
    assert_eq!(m.required_capabilities(), vec!["session.manager".to_string()]);
    assert_eq!(m.prompt_segment().as_deref(), Some("[QQ]"));
    let tools = m.tool_definitions();
    assert_eq!(tools.len(), 2);
    assert_eq!(tools[0].function.name, "send_qq");
    assert_eq!(tools[0].function.description, "发消息");
    assert_eq!(tools[0].def_type, "function");
    assert!(matches!(tools[0].function.parameters.get("type"), Some(JsonValue::Str(t)) if t == "object"));
    assert_eq!(tools[1].function.name, "ping");
    assert_eq!(tools[1].function.description, "");
    assert!(matches!(tools[1].function.parameters, JsonValue::Null));
    assert!(tool_from_declared(s("x")).is_none());
}

#[test]
fn events_become_numbered_messages() {
    let mut m = ProcessModule::from_declaration("p", declaration("capability_declare"), 41).unwrap();
    let ev = Event::OnMessage { input: "你好".into(), channel: "cli".into() };
    let (kind, data) = match ProcessModule::event_payload(&ev) {
        EventPayload::Send { kind, data } => (kind, data),
        other => panic!("{other:?}"),
    };
    assert_eq!(kind, "on_message");
    let msg = m.event_message(&kind, data);
    assert!(matches!(member(&msg, "msg_type"), JsonValue::Str(t) if t == "event"));
    assert!(matches!(member(&msg, "event"), JsonValue::Str(t) if t == "on_message"));
    assert!(matches!(member(member(&msg, "data"), "input"), JsonValue::Str(t) if t == "你好"));
    assert!(matches!(member(&msg, "seq"), JsonValue::Int(41)));
    let next = m.event_message("startup", JsonValue::Null);
    assert!(matches!(member(&next, "seq"), JsonValue::Int(42)));
    assert!(matches!(ProcessModule::event_payload(&Event::Shutdown), EventPayload::Stop));
    match ProcessModule::event_payload(&Event::OnToolCall { name: "t".into(), args: "{}".into(), success: false }) {
        EventPayload::Send { kind, data } => {
            assert_eq!(kind, "on_tool_call");
            assert!(matches!(member(&data, "success"), JsonValue::Bool(false)));
        }
        other => panic!("{other:?}"),
    }
    let call = m.tool_call_message("send_qq", JsonValue::Null);
    assert!(matches!(member(&call, "tool_call_id"), JsonValue::Str(t) if t == "proc_43"));
    assert!(matches!(member(&call, "args"), JsonValue::Null));
}

#[test]
fn tool_answers() {
    let ok = ToolResultMessage { msg_type: "tool_result".into(), output: Some("done".into()), error: None };
    assert_eq!(ProcessModule::tool_result(ok).unwrap(), "done");
    let empty = ToolResultMessage { msg_type: "tool_result".into(), output: None, error: None };
    assert_eq!(ProcessModule::tool_result(empty).unwrap(), "");
    let err = ToolResultMessage { msg_type: "tool_error".into(), output: None, error: Some("boom".into()) };
    assert!(matches!(ProcessModule::tool_result(err), Err(ModuleError::ToolExecutionFailed(e)) if e == "boom"));
    let odd = ToolResultMessage { msg_type: "pong".into(), output: None, error: None };
    assert!(matches!(
        ProcessModule::tool_result(odd),
        Err(ModuleError::ToolExecutionFailed(e)) if e == "unexpected response type: pong"
    ));
}

#[test]
fn event_answers() {
    let mut m = ProcessModule::from_declaration("p", declaration("capability_declare"), 1).unwrap();
    let skip = ModuleEventResponse { msg_type: "event_response".into(), status: "skip".into(), data: JsonValue::Null };
    assert!(matches!(m.on_response(skip), EventResponse::Skip));
    let data = obj(vec![("prompt_additions", JsonValue::Array(vec![obj(vec![("content", s("[新提示]"))])]))]);
    let modified = ModuleEventResponse { msg_type: "event_response".into(), status: "modified".into(), data };
    assert!(matches!(m.on_response(modified), EventResponse::Pass));
    assert_eq!(m.prompt_segment().as_deref(), Some("[新提示]"));
    let plain = ModuleEventResponse { msg_type: "event_response".into(), status: "ok".into(), data: JsonValue::Null };
    assert!(matches!(m.on_response(plain), EventResponse::Pass));
    assert_eq!(m.prompt_segment().as_deref(), Some("[新提示]"));
}

#[test]
fn tool_call_message_from_json_text() {
    let m = ProcessModule::from_declaration("p", declaration("capability_declare"), 41).unwrap();
    let msg = m.tool_call_message_from_text("send_qq", r#"{"to":"x","n":2}"#);
    assert_eq!(member(&msg, "msg_type").as_str(), Some("tool_call"));
    assert_eq!(member(&msg, "name").as_str(), Some("send_qq"));
    assert_eq!(member(member(&msg, "args"), "to").as_str(), Some("x"));
    assert_eq!(member(member(&msg, "args"), "n").as_i64(), Some(2));
    let bad = m.tool_call_message_from_text("send_qq", "{oops");
    assert!(matches!(member(&bad, "args"), JsonValue::Null));
    assert_eq!(member(&msg, "tool_call_id").as_str(), member(&bad, "tool_call_id").as_str());
}
