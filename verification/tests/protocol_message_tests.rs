use tremolite::json::JsonValue;
use tremolite::protocol::{
    call_outcome, reply_target, uuid_v4, CouplingError, MessageEvent, MessageKind, ModuleMessage,
};

fn is_hex_id(id: &str) -> bool {
    id.len() >= 32 && id.chars().all(|c| c.is_ascii_hexdigit() && !c.is_ascii_uppercase())
}

#[test]
fn message_ids_are_hex() {
    let a = uuid_v4();
    assert!(is_hex_id(&a), "{a}");
    assert!(a.len() == 32 || a.len() > 32);
}

#[test]
fn message_constructors() {
    let r = ModuleMessage::request("qq", "memory.recall", JsonValue::Int(1));
    assert_eq!((r.from.as_str(), r.to.as_str(), r.kind), ("qq", "memory.recall", MessageKind::Request));
    assert!(r.reply_to.is_none() && r.headers.is_empty() && is_hex_id(&r.id));
    assert!(r.is_request() && !r.is_error());
    assert!(matches!(r.payload, JsonValue::Int(1)));

    let resp = ModuleMessage::response("memory", "qq", JsonValue::Null, &r.id);
    assert_eq!(resp.kind, MessageKind::Response);
    assert_eq!(resp.reply_to.as_deref(), Some(r.id.as_str()));
    assert!(!resp.is_request() && !resp.is_error());

    let b = ModuleMessage::broadcast("qq", "chat.new", JsonValue::Null);
    assert_eq!((b.to.as_str(), b.kind), ("chat.new", MessageKind::Broadcast));
    let e = ModuleMessage::event("qq", "startup", JsonValue::Null);
    assert_eq!((e.to.as_str(), e.kind), ("startup", MessageKind::Event));
    let d = ModuleMessage::declaration("qq", JsonValue::Null);
    assert_eq!((d.to.as_str(), d.kind), ("engine", MessageKind::Declaration));

    let err = ModuleMessage::error("engine", "qq", "NOT_FOUND", "no such service", "req-1");
    assert!(err.is_error());
    assert_eq!(err.reply_to.as_deref(), Some("req-1"));
    match &err.payload {
        JsonValue::Object(m) => {
            assert_eq!(m.len(), 2);
            assert_eq!(m[0].0, "code");
            assert!(matches!(&m[0].1, JsonValue::Str(c) if c == "NOT_FOUND"));
            assert_eq!(m[1].0, "message");
            assert!(matches!(&m[1].1, JsonValue::Str(t) if t == "no such service"));
        }
        other => panic!("unexpected {:?}", other),
    }
}

#[test]
fn call_outcomes() {
    let ok = ModuleMessage::response("memory", "qq", JsonValue::Str("hit".into()), "req-1");
    assert!(matches!(call_outcome(ok), Ok(JsonValue::Str(s)) if s == "hit"));
    let err = ModuleMessage::error("engine", "qq", "NOT_FOUND", "no such service", "req-1");
    assert!(matches!(call_outcome(err), Err(CouplingError::ServiceError(m)) if m == "NOT_FOUND: no such service"));
    let mut bare = ModuleMessage::response("engine", "qq", JsonValue::Null, "req-1");
    bare.kind = MessageKind::Error;
    assert!(matches!(call_outcome(bare), Err(CouplingError::ServiceError(m)) if m == "UNKNOWN: no message"));
}

#[test]
fn reply_targets_and_events() {
    let resp = ModuleMessage::response("memory", "qq", JsonValue::Null, "req-9");
    assert!(matches!(reply_target(&resp), Ok("req-9")));
    let req = ModuleMessage::request("qq", "memory.recall", JsonValue::Null);
    assert!(matches!(reply_target(&req), Err(CouplingError::Protocol(m)) if m == "response missing reply_to"));
    let ev = MessageEvent::Request(req);
    assert_eq!(ev.message().to, "memory.recall");
    let ev = MessageEvent::Response(resp);
    assert_eq!(ev.message().reply_to.as_deref(), Some("req-9"));
}
