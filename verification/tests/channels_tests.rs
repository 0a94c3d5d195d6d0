use tremolite::channels::{
    napcat_inbound, parse_message_event, parse_target, sent_reply, task_from_inbound,
    token_grant, gateway_url_from, webhook_message, ChannelsModule, ChannelsToolStep,
    GatewayStep, HttpChannel, NapCatChannel, OneBotEvent, OutboundMessage, QqBotChannel,
    QqGatewaySession, SenderInfo, WsFrame, DEFAULT_INTENTS, INTENTS_AT_MESSAGE,
    INTENTS_DIRECT_MESSAGE, INTENTS_GROUP_AT_MESSAGE, INTENTS_INTERACTION, OP_DISPATCH,
    OP_HEARTBEAT, OP_HEARTBEAT_ACK, OP_HELLO, OP_IDENTIFY, OP_RECONNECT,
};
use tremolite::json::JsonValue;
use tremolite::module::ModuleError;
use tremolite::text::{parse_i64, IntParseError};

fn obj(members: Vec<(&str, JsonValue)>) -> JsonValue {
    JsonValue::Object(members.into_iter().map(|(k, v)| (k.to_string(), v)).collect())
}

fn s(t: &str) -> JsonValue {
    JsonValue::Str(t.to_string())
}

fn member<'a>(v: &'a JsonValue, key: &str) -> Option<&'a JsonValue> {
    v.get(key)
}

fn member_str<'a>(v: &'a JsonValue, key: &str) -> Option<&'a str> {
    v.get(key).and_then(|x| x.as_str())
}

fn out(content: &str, target: &str) -> OutboundMessage {
    OutboundMessage::new(content, "qq", target)
}

fn chars(t: &str) -> Vec<char> {
    t.chars().collect()
}

fn args(members: Vec<(&str, &str)>) -> Result<Vec<(String, JsonValue)>, String> {
    Ok(members.into_iter().map(|(k, v)| (k.to_string(), s(v))).collect())
}

fn meta<'a>(m: &'a tremolite::channels::InboundMessage, key: &str) -> Option<&'a str> {
    m.metadata.iter().find(|(k, _)| k == key).map(|(_, v)| v.as_str())
}

// ─── Targets and integers ────────────────────────

#[test]
fn target_splits_at_first_colon() {
    assert_eq!(parse_target("group:123"), Some(("group".to_string(), "123".to_string())));
    assert_eq!(parse_target("private:a:b"), Some(("private".to_string(), "a:b".to_string())));
    assert_eq!(parse_target(":"), Some((String::new(), String::new())));
    assert_eq!(parse_target("nocolon"), None);
    assert_eq!(parse_target(""), None);
}

#[test]
fn parse_i64_matches_std() {
    for t in [
        "0", "42", "-42", "+7", "-", "+", "", "12a", "a12", "9223372036854775807",
        "9223372036854775808", "-9223372036854775808", "-9223372036854775809",
        "99999999999999999999x", "x99999999999999999999", " 1", "1 ", "００", "-0", "+-1",
    ] {
        let ours = parse_i64(&chars(t));
        let theirs = t.parse::<i64>();
        match (ours, theirs) {
            (Ok(a), Ok(b)) => assert_eq!(a, b, "{t}"),
            (Err(k), Err(e)) => assert_eq!(k.message(), e.to_string(), "{t}"),
            (a, b) => panic!("{t}: {a:?} vs {b:?}"),
        }
    }
    assert_eq!(parse_i64(&chars("")), Err(IntParseError::Empty));
    assert_eq!(parse_i64(&chars("-")), Err(IntParseError::InvalidDigit));
    assert_eq!(parse_i64(&chars("9223372036854775808")), Err(IntParseError::PosOverflow));
    assert_eq!(parse_i64(&chars("-9223372036854775809")), Err(IntParseError::NegOverflow));
}

// ─── NapCat ──────────────────────────────────────

#[test]
fn napcat_http_base_from_ws_url() {
    let c = NapCatChannel::new("napcat", "ws://localhost:3001/ws");
    assert_eq!(c.name(), "napcat");
    assert_eq!(c.ws_url(), "ws://localhost:3001/ws");
    assert_eq!(c.http_base(), "http://localhost:3001");
    assert_eq!(NapCatChannel::new("n", "wss://bot.example/ws/ws").http_base(), "https://bot.example");
    assert_eq!(NapCatChannel::new("n", "wss://bot.example/ws/").http_base(), "https://bot.example/ws");
    assert_eq!(NapCatChannel::new("n", "ws://h:1///").http_base(), "http://h:1");
}

#[test]
fn napcat_send_group_and_private() {
    let c = NapCatChannel::new("napcat", "ws://localhost:3001/ws");
    let g = c.send_request(&out("你好", "group:123456")).unwrap();
    assert_eq!(g.url, "http://localhost:3001/send_group_msg");
    assert!(matches!(member(&g.body, "group_id"), Some(JsonValue::Int(123456))));
    assert_eq!(member_str(&g.body, "message"), Some("你好"));
    let p = c.send_request(&out("hi", "private:-5")).unwrap();
    assert_eq!(p.url, "http://localhost:3001/send_private_msg");
    assert!(matches!(member(&p.body, "user_id"), Some(JsonValue::Int(-5))));
}

#[test]
fn napcat_send_errors() {
    let c = NapCatChannel::new("napcat", "ws://localhost:3001/ws");
    assert_eq!(
        c.send_request(&out("x", "12345")).unwrap_err(),
        "NapCatChannel: invalid target '12345', expected 'group:id' or 'private:id'"
    );
    assert_eq!(
        c.send_request(&out("x", "group:abc")).unwrap_err(),
        "NapCatChannel: invalid target id 'abc': invalid digit found in string"
    );
    assert_eq!(
        c.send_request(&out("x", "group:")).unwrap_err(),
        "NapCatChannel: invalid target id '': cannot parse integer from empty string"
    );
    assert_eq!(
        c.send_request(&out("x", "private:99999999999999999999")).unwrap_err(),
        "NapCatChannel: invalid target id '99999999999999999999': number too large to fit in target type"
    );
    assert_eq!(
        c.send_request(&out("x", "channel:5")).unwrap_err(),
        "NapCatChannel: unknown target type 'channel', expected 'group' or 'private'"
    );
    // The id is read before the kind is checked.
    assert_eq!(
        c.send_request(&out("x", "channel:five")).unwrap_err(),
        "NapCatChannel: invalid target id 'five': invalid digit found in string"
    );
}

#[test]
fn napcat_numeric_target_round_trip() {
    let c = NapCatChannel::new("napcat", "ws://h/ws");
    for n in [0i64, 7, -7, i64::MAX, i64::MIN] {
        let g = c.send_request(&out("x", &format!("group:{n}"))).unwrap();
        assert!(matches!(member(&g.body, "group_id"), Some(JsonValue::Int(v)) if *v == n));
        let p = c.send_request(&out("x", &format!("private:{n}"))).unwrap();
        assert!(matches!(member(&p.body, "user_id"), Some(JsonValue::Int(v)) if *v == n));
    }
}

fn onebot(post: &str, kind: &str, gid: Option<i64>, uid: Option<i64>, raw: &str, nick: Option<&str>) -> OneBotEvent {
    OneBotEvent {
        post_type: post.to_string(),
        message_type: kind.to_string(),
        sub_type: String::new(),
        group_id: gid,
        user_id: uid,
        raw_message: raw.to_string(),
        sender: nick.map(|n| SenderInfo { nickname: n.to_string(), user_id: uid }),
    }
}

#[test]
fn napcat_group_message_becomes_inbound() {
    let m = napcat_inbound(&onebot("message", "group", Some(1001), Some(42), "  早上好 \n", Some("小明"))).unwrap();
    assert_eq!(m.content, "早上好");
    assert_eq!(m.channel, "napcat.group.1001");
    assert_eq!(m.sender, "42");
    assert_eq!(meta(&m, "nickname"), Some("小明"));
    assert_eq!(meta(&m, "message_type"), Some("group"));
    assert_eq!(m.metadata.len(), 2);
}

#[test]
fn napcat_private_and_defaults() {
    let m = napcat_inbound(&onebot("message", "private", None, Some(-3), "hi", None)).unwrap();
    assert_eq!(m.channel, "napcat.private.-3");
    assert_eq!(m.sender, "-3");
    assert_eq!(meta(&m, "nickname"), Some(""));
    let g = napcat_inbound(&onebot("message", "group", None, None, "x", None)).unwrap();
    assert_eq!(g.channel, "napcat.group.0");
    assert_eq!(g.sender, "0");
}

#[test]
fn napcat_ignores_other_events() {
    assert!(napcat_inbound(&onebot("notice", "group", Some(1), Some(2), "hi", None)).is_none());
    assert!(napcat_inbound(&onebot("message", "group", Some(1), Some(2), " \t\n", None)).is_none());
    assert!(napcat_inbound(&onebot("message", "discuss", Some(1), Some(2), "hi", None)).is_none());
    assert!(napcat_inbound(&onebot("message", "", None, None, "hi", None)).is_none());
}

// ─── QQ Bot ──────────────────────────────────────

#[test]
fn qq_api_base_and_urls() {
    let sandbox = QqBotChannel::new("qq", "app", "secret", false);
    let prod = QqBotChannel::new("qq", "app", "secret", true);
    assert_eq!(sandbox.api_base(), "https://api.sgroup.qq.com");
    assert_eq!(prod.api_base(), "https://api.qq.com");
    assert_eq!(prod.gateway_lookup_url(), "https://api.qq.com/gateway");
    assert_eq!(QqBotChannel::token_url(), "https://bots.qq.com/app/getAppAccessToken");
    let t = sandbox.token_request();
    assert_eq!(t.url, "https://bots.qq.com/app/getAppAccessToken");
    assert_eq!(member_str(&t.body, "appId"), Some("app"));
    assert_eq!(member_str(&t.body, "clientSecret"), Some("secret"));
    assert_eq!(tremolite::channels::bearer("tok"), "QQBot tok");
}

#[test]
fn qq_send_requests() {
    let c = QqBotChannel::new("qq", "app", "secret", false);
    let g = c.send_request(&out("回复", "group:G1")).unwrap();
    assert_eq!(g.url, "https://api.sgroup.qq.com/v2/groups/G1/messages");
    assert_eq!(member_str(&g.body, "content"), Some("回复"));
    assert!(matches!(member(&g.body, "msg_type"), Some(JsonValue::Int(0))));
    let p = c.send_request(&out("x", "private:U:2")).unwrap();
    assert_eq!(p.url, "https://api.sgroup.qq.com/v2/users/U:2/messages");
    assert_eq!(
        c.send_request(&out("x", "U1")).unwrap_err(),
        "QqBotChannel: invalid target 'U1', expected 'group:openid' or 'private:openid'"
    );
    assert_eq!(c.send_request(&out("x", "guild:1")).unwrap_err(), "QqBotChannel: unknown target type 'guild'");
}

#[test]
fn qq_token_and_gateway_responses() {
    let data = obj(vec![("access_token", s("abc")), ("expires_in", JsonValue::Int(7200))]);
    assert_eq!(token_grant(&data, "{..}"), Ok(("abc".to_string(), 7140)));
    let short = obj(vec![("access_token", s("abc")), ("expires_in", JsonValue::Int(30))]);
    assert_eq!(token_grant(&short, ""), Ok(("abc".to_string(), 0)));
    let missing_expiry = obj(vec![("access_token", s("abc"))]);
    assert_eq!(token_grant(&missing_expiry, ""), Ok(("abc".to_string(), 7140)));
    let bad = obj(vec![("code", JsonValue::Int(11))]);
    assert_eq!(
        token_grant(&bad, "{\"code\":11}"),
        Err("QQ Bot: OAuth2 response missing access_token: {\"code\":11}".to_string())
    );
    let gw = obj(vec![("url", s("wss://api.sgroup.qq.com/websocket"))]);
    assert_eq!(gateway_url_from(&gw, ""), Ok("wss://api.sgroup.qq.com/websocket".to_string()));
    assert_eq!(
        gateway_url_from(&JsonValue::Null, "null"),
        Err("QQ Bot: no gateway URL in response: null".to_string())
    );
}

fn event_data(group: Option<&str>) -> JsonValue {
    let mut m = vec![
        ("id", s("m1")),
        ("content", s(" 你好")),
        ("author", obj(vec![("id", s("U9")), ("username", s("阿葵"))])),
    ];
    if let Some(g) = group {
        m.push(("group_open_id", s(g)));
    }
    obj(m)
}

fn dispatch(t: &str, seq: Option<u64>, d: JsonValue) -> WsFrame {
    WsFrame { op: OP_DISPATCH, d, t: Some(t.to_string()), s: seq }
}

#[test]
fn qq_message_event_fields() {
    let e = parse_message_event(&event_data(Some("G7"))).unwrap();
    assert_eq!(e.id, "m1");
    assert_eq!(e.content, " 你好");
    assert_eq!(e.author.id, "U9");
    assert_eq!(e.author.username, "阿葵");
    assert_eq!(e.group_open_id.as_deref(), Some("G7"));
    assert!(e.guild_id.is_none());
    let no_author = obj(vec![("id", s("1")), ("content", s("c"))]);
    let e2 = parse_message_event(&no_author).unwrap();
    assert_eq!(e2.author.id, "");
    assert!(parse_message_event(&obj(vec![("id", s("1"))])).is_none());
    assert!(parse_message_event(&obj(vec![("id", JsonValue::Int(1)), ("content", s("c"))])).is_none());
}

#[test]
fn qq_gateway_delivers_group_message() {
    let mut g = QqGatewaySession::new("qqbot");
    assert_eq!(g.last_seq(), None);
    match g.on_frame(&dispatch("GROUP_AT_MESSAGE_CREATE", Some(5), event_data(Some("G7")))) {
        GatewayStep::Deliver(m) => {
            assert_eq!(m.content, " 你好");
            assert_eq!(m.channel, "qqbot");
            assert_eq!(m.sender, "group:G7");
            assert_eq!(meta(&m, "qqbot_msg_id"), Some("m1"));
            assert_eq!(meta(&m, "qqbot_target"), Some("group:G7"));
            assert_eq!(meta(&m, "nickname"), Some("阿葵"));
            assert_eq!(meta(&m, "event_type"), Some("GROUP_AT_MESSAGE_CREATE"));
        }
        other => panic!("{other:?}"),
    }
    assert_eq!(g.last_seq(), Some(5));
}

#[test]
fn qq_gateway_reply_targets() {
    let mut g = QqGatewaySession::new("qqbot");
    let c2c = g.on_frame(&dispatch("C2C_MESSAGE_CREATE", None, event_data(Some("G7"))));
    assert!(matches!(c2c, GatewayStep::Deliver(ref m) if m.sender == "private:U9"));
    let at = g.on_frame(&dispatch("AT_MESSAGE_CREATE", None, event_data(None)));
    assert!(matches!(at, GatewayStep::Deliver(ref m) if m.sender == "private:U9"));
    // A reply to a delivered message is always addressable.
    let qq = QqBotChannel::new("qqbot", "a", "b", true);
    for step in [c2c, at] {
        if let GatewayStep::Deliver(m) = step {
            assert!(qq.send_request(&OutboundMessage::new("r", "qqbot", &m.sender)).is_ok());
        }
    }
}

#[test]
fn qq_gateway_other_frames() {
    let mut g = QqGatewaySession::new("qqbot");
    assert!(matches!(g.on_frame(&dispatch("READY", Some(1), JsonValue::Null)), GatewayStep::Continue));
    assert_eq!(g.last_seq(), Some(1));
    assert!(matches!(g.on_frame(&dispatch("AT_MESSAGE_CREATE", None, obj(vec![]))), GatewayStep::Continue));
    assert_eq!(g.last_seq(), Some(1));
    let ack = WsFrame { op: OP_HEARTBEAT_ACK, d: JsonValue::Null, t: None, s: Some(99) };
    assert!(matches!(g.on_frame(&ack), GatewayStep::Continue));
    assert_eq!(g.last_seq(), Some(1));
    let untyped = WsFrame { op: OP_DISPATCH, d: event_data(None), t: None, s: Some(2) };
    assert!(matches!(g.on_frame(&untyped), GatewayStep::Continue));
    assert_eq!(g.last_seq(), Some(2));
    let rc = WsFrame { op: OP_RECONNECT, d: JsonValue::Null, t: None, s: Some(50) };
    match g.on_frame(&rc) {
        GatewayStep::Reconnect(e) => assert_eq!(e, "server requested reconnect"),
        other => panic!("{other:?}"),
    }
    assert_eq!(g.last_seq(), Some(2));
}

#[test]
fn qq_gateway_hello_identify_heartbeat() {
    assert!(QqGatewaySession::check_hello(OP_HELLO).is_ok());
    assert_eq!(
        QqGatewaySession::check_hello(0).unwrap_err(),
        "QQ Bot: expected hello (op 10), got op 0"
    );
    let id = QqGatewaySession::identify_frame("tok");
    assert_eq!(id.op, OP_IDENTIFY);
    assert_eq!(member_str(&id.d, "token"), Some("QQBot tok"));
    assert!(matches!(member(&id.d, "intents"), Some(JsonValue::Int(v)) if *v as u64 == DEFAULT_INTENTS));
    match member(&id.d, "shard") {
        Some(JsonValue::Array(v)) => {
            assert!(matches!(v.as_slice(), [JsonValue::Int(0), JsonValue::Int(1)]))
        }
        other => panic!("{other:?}"),
    }
    assert_eq!(
        DEFAULT_INTENTS,
        INTENTS_AT_MESSAGE | INTENTS_GROUP_AT_MESSAGE | INTENTS_DIRECT_MESSAGE | INTENTS_INTERACTION
    );
    assert_eq!(INTENTS_AT_MESSAGE, 1 << 25);
    assert_eq!(INTENTS_GROUP_AT_MESSAGE, 1 << 30);
    assert_eq!(INTENTS_DIRECT_MESSAGE, 1 << 12);
    assert_eq!(INTENTS_INTERACTION, 1 << 26);

    let mut g = QqGatewaySession::new("qqbot");
    let hb = g.heartbeat_frame();
    assert_eq!(hb.op, OP_HEARTBEAT);
    assert!(matches!(hb.d, JsonValue::Null));
    g.on_frame(&dispatch("READY", Some(42), JsonValue::Null));
    assert!(matches!(g.heartbeat_frame().d, JsonValue::Int(42)));
    g.on_frame(&dispatch("READY", Some(u64::MAX), JsonValue::Null));
    assert!(matches!(g.heartbeat_frame().d, JsonValue::OtherNumber(ref t) if t == "18446744073709551615"));
}

// ─── HTTP callbacks and the module ───────────────

#[test]
fn webhook_payload_becomes_message() {
    let m = webhook_message("alerts", "disk full", None);
    assert_eq!((m.content.as_str(), m.channel.as_str(), m.sender.as_str()), ("disk full", "alerts", "webhook"));
    let n = webhook_message("alerts", "ok", Some("grafana"));
    assert_eq!(n.sender, "grafana");
    let h = HttpChannel::new("http", "0.0.0.0:9091");
    assert_eq!((h.name(), h.addr()), ("http", "0.0.0.0:9091"));
}

#[test]
fn inbound_becomes_session_task() {
    let t = task_from_inbound(webhook_message("napcat.group.1", "hi", Some("42")));
    assert_eq!(t.session_id, "42");
    assert_eq!(t.input, "hi");
    assert_eq!(t.channel, "napcat.group.1");
    assert_eq!(t.sender, "42");
}

#[test]
fn channels_module_tools() {
    let mut m = ChannelsModule::new();
    assert_eq!(m.display_status().as_deref(), Some("通道: 无"));
    match m.tool_step("list_channels", &args(vec![])) {
        Ok(ChannelsToolStep::Reply(t)) => assert_eq!(t, "没有已注册的消息通道"),
        other => panic!("{other:?}"),
    }
    m.register_channel("qqbot".to_string());
    m.register_channel("napcat".to_string());
    assert_eq!(m.list_channels(), vec!["qqbot".to_string(), "napcat".to_string()]);
    assert_eq!(m.display_status().as_deref(), Some("通道: qqbot, napcat"));
    match m.tool_step("list_channels", &args(vec![])) {
        Ok(ChannelsToolStep::Reply(t)) => assert_eq!(t, "已注册通道: qqbot, napcat"),
        other => panic!("{other:?}"),
    }
    match m.tool_step("send_message", &args(vec![("channel", "qqbot"), ("target", "group:1"), ("content", "hi")])) {
        Ok(ChannelsToolStep::Send(o)) => {
            assert_eq!((o.channel.as_str(), o.target.as_str(), o.content.as_str()), ("qqbot", "group:1", "hi"))
        }
        other => panic!("{other:?}"),
    }
    match m.tool_step("send_message", &args(vec![("channel", "qqbot"), ("target", ""), ("content", "hi")])) {
        Err(ModuleError::ToolExecutionFailed(e)) => assert_eq!(e, "缺少必要参数：channel/target/content"),
        other => panic!("{other:?}"),
    }
    match m.tool_step("send_message", &Err("expected value at line 1 column 1".to_string())) {
        Err(ModuleError::ToolExecutionFailed(e)) => assert_eq!(e, "参数解析: expected value at line 1 column 1"),
        other => panic!("{other:?}"),
    }
    match m.tool_step("shout", &args(vec![])) {
        Err(ModuleError::ToolNotFound(n)) => assert_eq!(n, "shout"),
        other => panic!("{other:?}"),
    }
    assert_eq!(sent_reply("qqbot", "group:1"), "消息已发送到通道 'qqbot'，目标 'group:1'");
    assert_eq!((m.id(), m.name(), m.version()), ("channels", "消息通道", "0.1.0"));
    assert_eq!(m.provides(), vec!["channels.qqbot", "channels.napcat", "channels.http"]);
}

#[test]
fn channels_module_bridges_once() {
    let mut m = ChannelsModule::from_registry(vec!["http".to_string()]);
    assert!(m.begin_bridge());
    assert!(!m.begin_bridge());
    assert_eq!(m.list_channels(), vec!["http".to_string()]);
}
