//! Message channels: how a reply target is addressed, how each platform's
//! send request is built, and which inbound events become messages.
//!
//! Sockets, HTTP clients and timers stay with the caller; this module holds
//! the decisions they carry out.
use vstd::prelude::*;
use crate::json::{dec_int, i64_to_string, json_get, JsonValue};
use crate::module::{get_str_member, or_text, str_member, ModuleError, ToolArgs};
use crate::scheduler::SessionTask;
use crate::text::{
    append_str, concat2, concat3, dec, find_char, find_from, from_chars, index_of,
    int_error_text, join_strings, join_texts, lemma_accum_dec, lemma_dec_first, lemma_find_from,
    matches_at, parse_i64, parse_i64_spec, replace_all, replace_all_spec, str_eq, strip_suffixes,
    strip_suffixes_exec, to_chars, trim_spec, trim_str, u64_to_string, IntParseError,
};

verus! {

// ─── Messages ────────────────────────────────────

/// A message received on a channel.
#[derive(Debug, Clone)]
pub struct InboundMessage {
    pub content: String,
    /// The channel it arrived on, with any detail the channel adds.
    pub channel: String,
    /// Who sent it; replies are addressed here.
    pub sender: String,
    /// Extra fields as `(key, value)` pairs with distinct keys.
    pub metadata: Vec<(String, String)>,
}

impl InboundMessage {
    /// A message with no extra fields.
    pub fn new(content: &str, channel: &str, sender: &str) -> (r: Self)
        ensures
            r.content@ == content@,
            r.channel@ == channel@,
            r.sender@ == sender@,
            r.metadata@.len() == 0,
    {
        InboundMessage {
            content: content.to_string(),
            channel: channel.to_string(),
            sender: sender.to_string(),
            metadata: Vec::new(),
        }
    }
}

/// A message to send on a channel to a target.
#[derive(Debug, Clone)]
pub struct OutboundMessage {
    pub content: String,
    pub channel: String,
    /// The platform address, such as `group:123456` or `private:654321`.
    pub target: String,
}

impl OutboundMessage {
    pub fn new(content: &str, channel: &str, target: &str) -> (r: Self)
        ensures
            r.content@ == content@,
            r.channel@ == channel@,
            r.target@ == target@,
    {
        OutboundMessage {
            content: content.to_string(),
            channel: channel.to_string(),
            target: target.to_string(),
        }
    }
}

// ─── Addressing ──────────────────────────────────

/// A target `kind:id` split at its first `:`; none without a `:`.
pub open spec fn split_target(t: Seq<char>) -> Option<(Seq<char>, Seq<char>)> {
    match index_of(t, ':') {
        Some(i) => Some((t.take(i), t.skip(i + 1))),
        None => None,
    }
}

/// Splits a target `kind:id` at its first `:` (`splitn(2, ':')` giving two
/// parts).
pub fn parse_target(target: &str) -> (r: Option<(String, String)>)
    ensures
        match r {
            Some(p) => split_target(target@) == Some((p.0@, p.1@)),
            None => split_target(target@) is None,
        },
{
    let t = to_chars(target);
    match find_char(t.as_slice(), ':') {
        None => None,
        Some(i) => {
            assert(i < t.len());
            let kind = from_chars(&t.as_slice()[0..i]);
            let id = from_chars(&t.as_slice()[i + 1..t.len()]);
            assert(t@.subrange(0, i as int) == t@.take(i as int));
            assert(t@.subrange(i + 1, t@.len() as int) == t@.skip(i + 1));
            Some((kind, id))
        },
    }
}

// ─── NapCat ──────────────────────────────────────

/// The HTTP API base that belongs to a NapCat WebSocket address: the scheme
/// turned from `ws`/`wss` to `http`/`https`, then any trailing `/ws` and `/`
/// removed.
pub open spec fn napcat_http_base(ws_url: Seq<char>) -> Seq<char> {
    strip_suffixes(
        strip_suffixes(
            replace_all_spec(replace_all_spec(ws_url, "wss://"@, "https://"@), "ws://"@, "http://"@),
            "/ws"@,
        ),
        "/"@,
    )
}

/// A channel to the NapCat QQ bot framework: events arrive on a WebSocket,
/// replies go out through its HTTP API.
pub struct NapCatChannel {
    name: String,
    ws_url: String,
    http_base: String,
}

impl NapCatChannel {
    pub closed spec fn name_text(&self) -> Seq<char> {
        self.name@
    }

    pub closed spec fn ws_url_text(&self) -> Seq<char> {
        self.ws_url@
    }

    pub closed spec fn http_base_text(&self) -> Seq<char> {
        self.http_base@
    }

    /// A channel named `name` that connects to `ws_url`, such as
    /// `ws://localhost:3001/ws`.
    pub fn new(name: &str, ws_url: &str) -> (r: Self)
        ensures
            r.name_text() == name@,
            r.ws_url_text() == ws_url@,
            r.http_base_text() == napcat_http_base(ws_url@),
    {
        let u = to_chars(ws_url);
        let wss = to_chars("wss://");
        let https = to_chars("https://");
        let ws = to_chars("ws://");
        let http = to_chars("http://");
        let slash_ws = to_chars("/ws");
        let slash = to_chars("/");
        proof {
            reveal_strlit("wss://");
            reveal_strlit("ws://");
        }
        let a = replace_all(u.as_slice(), wss.as_slice(), https.as_slice());
        let b = replace_all(a.as_slice(), ws.as_slice(), http.as_slice());
        let c = strip_suffixes_exec(b.as_slice(), slash_ws.as_slice());
        let d = strip_suffixes_exec(c.as_slice(), slash.as_slice());
        NapCatChannel { name: name.to_string(), ws_url: ws_url.to_string(), http_base: from_chars(d.as_slice()) }
    }

    pub fn name(&self) -> (r: &str)
        ensures
            r@ == self.name_text(),
    {
        self.name.as_str()
    }

    pub fn ws_url(&self) -> (r: &str)
        ensures
            r@ == self.ws_url_text(),
    {
        self.ws_url.as_str()
    }

    pub fn http_base(&self) -> (r: &str)
        ensures
            r@ == self.http_base_text(),
    {
        self.http_base.as_str()
    }
}

// ─── Send requests ───────────────────────────────

/// An HTTP POST to make: the address and the JSON body.
#[derive(Debug)]
pub struct PostRequest {
    pub url: String,
    pub body: JsonValue,
}

/// `b` is the object `{key: n, "message": content}`.
pub open spec fn id_message_body(b: JsonValue, key: Seq<char>, n: int, content: Seq<char>) -> bool {
    &&& b matches JsonValue::Object(m)
    &&& m@.len() == 2
    &&& m@[0].0@ == key
    &&& m@[0].1 matches JsonValue::Int(v) && v == n
    &&& m@[1].0@ == "message"@
    &&& m@[1].1 matches JsonValue::Str(c) && c@ == content
}

/// The object `{key: n, "message": content}`.
fn id_message_object(key: &str, n: i64, content: &str) -> (r: JsonValue)
    ensures
        id_message_body(r, key@, n as int, content@),
{
    let mut members: Vec<(String, JsonValue)> = Vec::new();
    members.push((key.to_string(), JsonValue::Int(n)));
    members.push(("message".to_string(), JsonValue::Str(content.to_string())));
    JsonValue::Object(members)
}

impl NapCatChannel {
    /// The request that sends `msg` through NapCat's HTTP API. The target
    /// is `group:<number>` or `private:<number>`; its number is read before
    /// its kind is checked.
    pub fn send_request(&self, msg: &OutboundMessage) -> (r: Result<PostRequest, String>)
        ensures
            match split_target(msg.target@) {
                None => r matches Err(e) && e@ == "NapCatChannel: invalid target '"@ + msg.target@
                    + "', expected 'group:id' or 'private:id'"@,
                Some(parts) => match parse_i64_spec(parts.1) {
                    Err(k) => r matches Err(e) && e@ == "NapCatChannel: invalid target id '"@
                        + parts.1 + "': "@ + int_error_text(k),
                    Ok(n) => if parts.0 == "group"@ {
                        r matches Ok(q) && q.url@ == self.http_base_text() + "/send_group_msg"@
                            && id_message_body(q.body, "group_id"@, n, msg.content@)
                    } else if parts.0 == "private"@ {
                        r matches Ok(q) && q.url@ == self.http_base_text() + "/send_private_msg"@
                            && id_message_body(q.body, "user_id"@, n, msg.content@)
                    } else {
                        r matches Err(e) && e@ == "NapCatChannel: unknown target type '"@ + parts.0
                            + "', expected 'group' or 'private'"@
                    },
                },
            },
    {
        match parse_target(msg.target.as_str()) {
            None => Err(
                concat3(
                    "NapCatChannel: invalid target '",
                    msg.target.as_str(),
                    "', expected 'group:id' or 'private:id'",
                ),
            ),
            Some((kind, id)) => {
                let digits = to_chars(id.as_str());
                match parse_i64(digits.as_slice()) {
                    Err(k) => {
                        let mut e = concat3("NapCatChannel: invalid target id '", id.as_str(), "': ");
                        append_str(&mut e, k.message().as_str());
                        Err(e)
                    },
                    Ok(n) => {
                        if str_eq(kind.as_str(), "group") {
                            Ok(
                                PostRequest {
                                    url: concat2(self.http_base.as_str(), "/send_group_msg"),
                                    body: id_message_object("group_id", n, msg.content.as_str()),
                                },
                            )
                        } else if str_eq(kind.as_str(), "private") {
                            Ok(
                                PostRequest {
                                    url: concat2(self.http_base.as_str(), "/send_private_msg"),
                                    body: id_message_object("user_id", n, msg.content.as_str()),
                                },
                            )
                        } else {
                            Err(
                                concat3(
                                    "NapCatChannel: unknown target type '",
                                    kind.as_str(),
                                    "', expected 'group' or 'private'",
                                ),
                            )
                        }
                    },
                }
            },
        }
    }
}

// ─── QQ Bot ──────────────────────────────────────

/// The QQ open platform API base: production or sandbox.
pub open spec fn qq_api_base(production: bool) -> Seq<char> {
    if production {
        "https://api.qq.com"@
    } else {
        "https://api.sgroup.qq.com"@
    }
}

/// `b` is the object `{"content": content, "msg_type": 0}`.
pub open spec fn qq_message_body(b: JsonValue, content: Seq<char>) -> bool {
    &&& b matches JsonValue::Object(m)
    &&& m@.len() == 2
    &&& m@[0].0@ == "content"@
    &&& m@[0].1 matches JsonValue::Str(c) && c@ == content
    &&& m@[1].0@ == "msg_type"@
    &&& m@[1].1 == JsonValue::Int(0)
}

/// `b` is the object `{"appId": app_id, "clientSecret": secret}`.
pub open spec fn credentials_body(b: JsonValue, app_id: Seq<char>, secret: Seq<char>) -> bool {
    &&& b matches JsonValue::Object(m)
    &&& m@.len() == 2
    &&& m@[0].0@ == "appId"@
    &&& m@[0].1 matches JsonValue::Str(a) && a@ == app_id
    &&& m@[1].0@ == "clientSecret"@
    &&& m@[1].1 matches JsonValue::Str(c) && c@ == secret
}

/// The text of the string member `key` of `d`, when `d` is an object that
/// has one.
pub open spec fn member_text(d: JsonValue, key: Seq<char>) -> Option<Seq<char>> {
    match json_get(d, key) {
        Some(JsonValue::Str(s)) => Some(s@),
        _ => None,
    }
}

/// The string member `key` of `d`.
fn member_string(d: &JsonValue, key: &str) -> (r: Option<String>)
    ensures
        match r {
            Some(s) => member_text(*d, key@) == Some(s@),
            None => member_text(*d, key@) is None,
        },
{
    match d.get(key) {
        Some(v) => match v.as_str() {
            Some(s) => Some(s.to_string()),
            None => None,
        },
        None => None,
    }
}

/// A channel to the QQ open platform bot API: events arrive on its
/// WebSocket gateway, replies go out through its REST API.
pub struct QqBotChannel {
    name: String,
    app_id: String,
    client_secret: String,
    /// The production API rather than the sandbox.
    production: bool,
}

impl QqBotChannel {
    pub closed spec fn name_text(&self) -> Seq<char> {
        self.name@
    }

    pub closed spec fn app_id_text(&self) -> Seq<char> {
        self.app_id@
    }

    pub closed spec fn secret_text(&self) -> Seq<char> {
        self.client_secret@
    }

    pub closed spec fn is_production(&self) -> bool {
        self.production
    }

    /// A channel named `name` for the bot `app_id`, authenticated with
    /// `client_secret`, on the production API or the sandbox.
    pub fn new(name: &str, app_id: &str, client_secret: &str, production: bool) -> (r: Self)
        ensures
            r.name_text() == name@,
            r.app_id_text() == app_id@,
            r.secret_text() == client_secret@,
            r.is_production() == production,
    {
        QqBotChannel {
            name: name.to_string(),
            app_id: app_id.to_string(),
            client_secret: client_secret.to_string(),
            production,
        }
    }

    pub fn name(&self) -> (r: &str)
        ensures
            r@ == self.name_text(),
    {
        self.name.as_str()
    }

    /// The API base this channel talks to.
    pub fn api_base(&self) -> (r: &'static str)
        ensures
            r@ == qq_api_base(self.is_production()),
    {
        if self.production {
            "https://api.qq.com"
        } else {
            "https://api.sgroup.qq.com"
        }
    }

    /// Where access tokens are issued.
    pub fn token_url() -> (r: &'static str)
        ensures
            r@ == "https://bots.qq.com/app/getAppAccessToken"@,
    {
        "https://bots.qq.com/app/getAppAccessToken"
    }

    /// The request for an access token:
    /// `{"appId": app_id, "clientSecret": client_secret}`.
    pub fn token_request(&self) -> (r: PostRequest)
        ensures
            r.url@ == "https://bots.qq.com/app/getAppAccessToken"@,
            credentials_body(r.body, self.app_id_text(), self.secret_text()),
    {
        let mut members: Vec<(String, JsonValue)> = Vec::new();
        members.push(("appId".to_string(), JsonValue::Str(self.app_id.clone())));
        members.push(("clientSecret".to_string(), JsonValue::Str(self.client_secret.clone())));
        PostRequest { url: Self::token_url().to_string(), body: JsonValue::Object(members) }
    }

    /// Where the WebSocket gateway's address is looked up.
    pub fn gateway_lookup_url(&self) -> (r: String)
        ensures
            r@ == qq_api_base(self.is_production()) + "/gateway"@,
    {
        concat2(self.api_base(), "/gateway")
    }

    /// The request that sends `msg` through the REST API. The target is
    /// `group:<openid>` or `private:<openid>`.
    pub fn send_request(&self, msg: &OutboundMessage) -> (r: Result<PostRequest, String>)
        ensures
            match split_target(msg.target@) {
                None => r matches Err(e) && e@ == "QqBotChannel: invalid target '"@ + msg.target@
                    + "', expected 'group:openid' or 'private:openid'"@,
                Some(parts) => if parts.0 == "group"@ {
                    r matches Ok(q) && q.url@ == qq_api_base(self.is_production()) + "/v2/groups/"@
                        + parts.1 + "/messages"@ && qq_message_body(q.body, msg.content@)
                } else if parts.0 == "private"@ {
                    r matches Ok(q) && q.url@ == qq_api_base(self.is_production()) + "/v2/users/"@
                        + parts.1 + "/messages"@ && qq_message_body(q.body, msg.content@)
                } else {
                    r matches Err(e) && e@ == "QqBotChannel: unknown target type '"@ + parts.0 + "'"@
                },
            },
    {
        match parse_target(msg.target.as_str()) {
            None => Err(
                concat3(
                    "QqBotChannel: invalid target '",
                    msg.target.as_str(),
                    "', expected 'group:openid' or 'private:openid'",
                ),
            ),
            Some((kind, open_id)) => {
                let path = if str_eq(kind.as_str(), "group") {
                    "/v2/groups/"
                } else if str_eq(kind.as_str(), "private") {
                    "/v2/users/"
                } else {
                    return Err(concat3("QqBotChannel: unknown target type '", kind.as_str(), "'"));
                };
                let mut url = concat3(self.api_base(), path, open_id.as_str());
                append_str(&mut url, "/messages");
                let mut members: Vec<(String, JsonValue)> = Vec::new();
                members.push(("content".to_string(), JsonValue::Str(msg.content.clone())));
                members.push(("msg_type".to_string(), JsonValue::Int(0)));
                Ok(PostRequest { url, body: JsonValue::Object(members) })
            },
        }
    }
}

/// The `Authorization` header value for an access token.
pub fn bearer(access_token: &str) -> (r: String)
    ensures
        r@ == "QQBot "@ + access_token@,
{
    concat2("QQBot ", access_token)
}

/// How long, in seconds, an issued token is used: its `expires_in` (7200
/// when absent or not a non-negative integer) less a 60-second margin, and
/// never below zero.
pub open spec fn token_lifetime(data: JsonValue) -> u64 {
    let e: u64 = match json_get(data, "expires_in"@) {
        Some(v) => match crate::json::json_u64(v) {
            Some(n) => n,
            None => 7200,
        },
        None => 7200,
    };
    if e >= 60 {
        (e - 60) as u64
    } else {
        0
    }
}

/// Reads a token response `data` (whose JSON text is `data_text`): the
/// access token and how many seconds to use it.
pub fn token_grant(data: &JsonValue, data_text: &str) -> (r: Result<(String, u64), String>)
    ensures
        match member_text(*data, "access_token"@) {
            Some(t) => r matches Ok(g) && g.0@ == t && g.1 == token_lifetime(*data),
            None => r matches Err(e) && e@ == "QQ Bot: OAuth2 response missing access_token: "@
                + data_text@,
        },
{
    match member_string(data, "access_token") {
        None => Err(concat2("QQ Bot: OAuth2 response missing access_token: ", data_text)),
        Some(token) => {
            let e: u64 = match data.get("expires_in") {
                Some(v) => match v.as_u64() {
                    Some(n) => n,
                    None => 7200,
                },
                None => 7200,
            };
            let life = if e >= 60 {
                e - 60
            } else {
                0
            };
            Ok((token, life))
        },
    }
}

/// Reads a gateway lookup response `data` (whose JSON text is `data_text`):
/// the WebSocket address.
pub fn gateway_url_from(data: &JsonValue, data_text: &str) -> (r: Result<String, String>)
    ensures
        match member_text(*data, "url"@) {
            Some(u) => r matches Ok(g) && g@ == u,
            None => r matches Err(e) && e@ == "QQ Bot: no gateway URL in response: "@ + data_text@,
        },
{
    match member_string(data, "url") {
        Some(u) => Ok(u),
        None => Err(concat2("QQ Bot: no gateway URL in response: ", data_text)),
    }
}

// ─── QQ Bot gateway ──────────────────────────────

/// Gateway opcodes.
pub const OP_DISPATCH: u64 = 0;
pub const OP_HEARTBEAT: u64 = 1;
pub const OP_IDENTIFY: u64 = 2;
pub const OP_RECONNECT: u64 = 7;
pub const OP_HELLO: u64 = 10;
pub const OP_HEARTBEAT_ACK: u64 = 11;

/// Event subscriptions: `@` messages in guild channels (bit 25), `@`
/// messages in groups and direct messages (bit 30), guild direct messages
/// (bit 12), interactions (bit 26).
pub const INTENTS_AT_MESSAGE: u64 = 33554432;
pub const INTENTS_GROUP_AT_MESSAGE: u64 = 1073741824;
pub const INTENTS_DIRECT_MESSAGE: u64 = 4096;
pub const INTENTS_INTERACTION: u64 = 67108864;
/// All four subscriptions together.
pub const DEFAULT_INTENTS: u64 = 1174409216;

/// The default subscriptions are the four intents together.
pub proof fn lemma_default_intents()
    ensures
        DEFAULT_INTENTS == INTENTS_AT_MESSAGE | INTENTS_GROUP_AT_MESSAGE | INTENTS_DIRECT_MESSAGE
            | INTENTS_INTERACTION,
{
    assert(1174409216u64 == 33554432u64 | 1073741824u64 | 4096u64 | 67108864u64) by (bit_vector);
}

/// A gateway frame: opcode, data, event type (dispatches only) and
/// sequence number.
#[derive(Debug)]
pub struct WsFrame {
    pub op: u64,
    pub d: JsonValue,
    pub t: Option<String>,
    pub s: Option<u64>,
}

/// The author of a message event.
#[derive(Debug, Clone)]
pub struct MessageAuthor {
    pub id: String,
    pub username: String,
}

/// The fields of a message event that the channel reads.
#[derive(Debug, Clone)]
pub struct MessageEventData {
    pub id: String,
    pub content: String,
    pub author: MessageAuthor,
    pub group_open_id: Option<String>,
    pub guild_id: Option<String>,
    pub channel_id: Option<String>,
}

/// The text inside an optional string.
pub open spec fn opt_text(o: Option<String>) -> Option<Seq<char>> {
    match o {
        Some(s) => Some(s@),
        None => None,
    }
}

/// The string member `key` of the event's `author`, or empty.
pub open spec fn author_text(d: JsonValue, key: Seq<char>) -> Seq<char> {
    match json_get(d, "author"@) {
        Some(a) => or_text(member_text(a, key), Seq::empty()),
        None => Seq::empty(),
    }
}

/// An event carries a message: it has a string `id` and a string `content`.
pub open spec fn message_event_ok(d: JsonValue) -> bool {
    member_text(d, "id"@) is Some && member_text(d, "content"@) is Some
}

/// Reads the message fields of an event's data `d`; none unless it has a
/// string `id` and a string `content`.
pub fn parse_message_event(d: &JsonValue) -> (r: Option<MessageEventData>)
    ensures
        r is Some <==> message_event_ok(*d),
        r matches Some(m) ==> {
            &&& Some(m.id@) == member_text(*d, "id"@)
            &&& Some(m.content@) == member_text(*d, "content"@)
            &&& m.author.id@ == author_text(*d, "id"@)
            &&& m.author.username@ == author_text(*d, "username"@)
            &&& opt_text(m.group_open_id) == member_text(*d, "group_open_id"@)
            &&& opt_text(m.guild_id) == member_text(*d, "guild_id"@)
            &&& opt_text(m.channel_id) == member_text(*d, "channel_id"@)
        },
{
    let id = match member_string(d, "id") {
        Some(s) => s,
        None => return None,
    };
    let content = match member_string(d, "content") {
        Some(s) => s,
        None => return None,
    };
    let (author_id, username) = match d.get("author") {
        Some(a) => {
            let i = match member_string(a, "id") {
                Some(s) => s,
                None => String::new(),
            };
            let u = match member_string(a, "username") {
                Some(s) => s,
                None => String::new(),
            };
            (i, u)
        },
        None => (String::new(), String::new()),
    };
    Some(
        MessageEventData {
            id,
            content,
            author: MessageAuthor { id: author_id, username },
            group_open_id: member_string(d, "group_open_id"),
            guild_id: member_string(d, "guild_id"),
            channel_id: member_string(d, "channel_id"),
        },
    )
}

/// A frame's event type; `UNKNOWN` when it has none.
pub open spec fn frame_event_type(t: Option<String>) -> Seq<char> {
    match t {
        Some(s) => s@,
        None => "UNKNOWN"@,
    }
}

/// The event types that carry a user's message.
pub open spec fn is_message_event(et: Seq<char>) -> bool {
    et == "AT_MESSAGE_CREATE"@ || et == "C2C_MESSAGE_CREATE"@ || et == "GROUP_AT_MESSAGE_CREATE"@
}

/// Where a reply to a message event goes: its group when it came from a
/// group that names itself, otherwise its author.
pub open spec fn qq_reply_target(et: Seq<char>, d: JsonValue) -> Seq<char> {
    if et != "C2C_MESSAGE_CREATE"@ {
        match member_text(d, "group_open_id"@) {
            Some(g) => "group:"@ + g,
            None => "private:"@ + author_text(d, "id"@),
        }
    } else {
        "private:"@ + author_text(d, "id"@)
    }
}

/// `m` is the inbound message that the channel `name` makes of the message
/// event `d` of type `et`.
pub open spec fn qq_delivered(m: InboundMessage, name: Seq<char>, et: Seq<char>, d: JsonValue) -> bool {
    let target = qq_reply_target(et, d);
    &&& Some(m.content@) == member_text(d, "content"@)
    &&& m.channel@ == name
    &&& m.sender@ == target
    &&& m.metadata@.len() == 4
    &&& m.metadata@[0].0@ == "qqbot_msg_id"@
    &&& Some(m.metadata@[0].1@) == member_text(d, "id"@)
    &&& m.metadata@[1].0@ == "qqbot_target"@
    &&& m.metadata@[1].1@ == target
    &&& m.metadata@[2].0@ == "nickname"@
    &&& m.metadata@[2].1@ == author_text(d, "username"@)
    &&& m.metadata@[3].0@ == "event_type"@
    &&& m.metadata@[3].1@ == et
}

/// What to do after a gateway frame.
#[derive(Debug)]
pub enum GatewayStep {
    /// Keep reading.
    Continue,
    /// Hand this message to the engine, then keep reading.
    Deliver(InboundMessage),
    /// Drop the connection and connect again, for this reason.
    Reconnect(String),
}

/// `d` is the JSON form of an optional sequence number.
pub open spec fn seq_json(d: JsonValue, s: Option<u64>) -> bool {
    match s {
        None => d == JsonValue::Null,
        Some(n) => if n <= i64::MAX {
            d == JsonValue::Int(n as i64)
        } else {
            d matches JsonValue::OtherNumber(t) && t@ == dec(n as nat)
        },
    }
}

/// One connection to the QQ bot gateway: after the server's hello and the
/// identify frame, frames are read and heartbeats sent until the
/// connection ends.
pub struct QqGatewaySession {
    name: String,
    last_seq: Option<u64>,
}

impl QqGatewaySession {
    pub closed spec fn name_text(&self) -> Seq<char> {
        self.name@
    }

    /// The last sequence number the server dispatched.
    pub closed spec fn last_seq_value(&self) -> Option<u64> {
        self.last_seq
    }

    /// A new connection for the channel `name`, before any dispatch.
    pub fn new(name: &str) -> (r: Self)
        ensures
            r.name_text() == name@,
            r.last_seq_value() is None,
    {
        QqGatewaySession { name: name.to_string(), last_seq: None }
    }

    pub fn last_seq(&self) -> (r: Option<u64>)
        ensures
            r == self.last_seq_value(),
    {
        self.last_seq
    }

    /// Checks that the first frame is the server's hello.
    pub fn check_hello(op: u64) -> (r: Result<(), String>)
        ensures
            op == OP_HELLO ==> r is Ok,
            op != OP_HELLO ==> (r matches Err(e) && e@ == "QQ Bot: expected hello (op 10), got op "@
                + dec(op as nat)),
    {
        if op == OP_HELLO {
            Ok(())
        } else {
            Err(concat2("QQ Bot: expected hello (op 10), got op ", u64_to_string(op).as_str()))
        }
    }

    /// The identify frame that authenticates with an access token and
    /// subscribes to the default events on the single shard.
    pub fn identify_frame(access_token: &str) -> (r: WsFrame)
        ensures
            r.op == OP_IDENTIFY,
            r.t is None,
            r.s is None,
            r.d matches JsonValue::Object(m) && m@.len() == 3 && m@[0].0@ == "token"@ && m@[1].0@
                == "intents"@ && m@[2].0@ == "shard"@ && m@[1].1 == JsonValue::Int(
                DEFAULT_INTENTS as i64,
            ) && (m@[0].1 matches JsonValue::Str(tok) && tok@ == "QQBot "@ + access_token@) && (
            m@[2].1 matches JsonValue::Array(v) && v@ == seq![JsonValue::Int(0), JsonValue::Int(1)]),
    {
        let mut shard: Vec<JsonValue> = Vec::new();
        shard.push(JsonValue::Int(0));
        shard.push(JsonValue::Int(1));
        let mut members: Vec<(String, JsonValue)> = Vec::new();
        members.push(("token".to_string(), JsonValue::Str(bearer(access_token))));
        members.push(("intents".to_string(), JsonValue::Int(DEFAULT_INTENTS as i64)));
        members.push(("shard".to_string(), JsonValue::Array(shard)));
        WsFrame { op: OP_IDENTIFY, d: JsonValue::Object(members), t: None, s: None }
    }

    /// The heartbeat frame, carrying the last sequence number seen.
    pub fn heartbeat_frame(&self) -> (r: WsFrame)
        ensures
            r.op == OP_HEARTBEAT,
            r.t is None,
            r.s is None,
            seq_json(r.d, self.last_seq_value()),
    {
        let d = match self.last_seq {
            None => JsonValue::Null,
            Some(n) => if n <= i64::MAX as u64 {
                JsonValue::Int(n as i64)
            } else {
                JsonValue::OtherNumber(u64_to_string(n))
            },
        };
        WsFrame { op: OP_HEARTBEAT, d, t: None, s: None }
    }

    /// Handles one frame from the server. A dispatch records its sequence
    /// number and, when it carries a user's message, delivers it with the
    /// reply target; the server's reconnect request ends the connection;
    /// every other frame is passed over.
    pub fn on_frame(&mut self, frame: &WsFrame) -> (r: GatewayStep)
        ensures
            final(self).name_text() == old(self).name_text(),
            final(self).last_seq_value() == (if frame.op == OP_DISPATCH && frame.s is Some {
                frame.s
            } else {
                old(self).last_seq_value()
            }),
            match r {
                GatewayStep::Deliver(m) => frame.op == OP_DISPATCH && is_message_event(
                    frame_event_type(frame.t),
                ) && message_event_ok(frame.d) && qq_delivered(
                    m,
                    old(self).name_text(),
                    frame_event_type(frame.t),
                    frame.d,
                ),
                GatewayStep::Reconnect(e) => frame.op == OP_RECONNECT && e@
                    == "server requested reconnect"@,
                GatewayStep::Continue => frame.op != OP_RECONNECT && !(frame.op == OP_DISPATCH
                    && is_message_event(frame_event_type(frame.t)) && message_event_ok(frame.d)),
            },
    {
        if frame.op == OP_RECONNECT {
            return GatewayStep::Reconnect("server requested reconnect".to_string());
        }
        if frame.op != OP_DISPATCH {
            return GatewayStep::Continue;
        }
        if let Some(s) = frame.s {
            self.last_seq = Some(s);
        }
        let et: &str = match &frame.t {
            Some(t) => t.as_str(),
            None => "UNKNOWN",
        };
        let is_msg = str_eq(et, "AT_MESSAGE_CREATE") || str_eq(et, "C2C_MESSAGE_CREATE") || str_eq(
            et,
            "GROUP_AT_MESSAGE_CREATE",
        );
        if !is_msg {
            return GatewayStep::Continue;
        }
        match parse_message_event(&frame.d) {
            None => GatewayStep::Continue,
            Some(data) => {
                let is_group = !str_eq(et, "C2C_MESSAGE_CREATE");
                let target = if is_group {
                    match &data.group_open_id {
                        Some(gid) => concat2("group:", gid.as_str()),
                        None => concat2("private:", data.author.id.as_str()),
                    }
                } else {
                    concat2("private:", data.author.id.as_str())
                };
                let mut msg = InboundMessage::new(data.content.as_str(), self.name.as_str(), target.as_str());
                msg.metadata.push(("qqbot_msg_id".to_string(), data.id.clone()));
                msg.metadata.push(("qqbot_target".to_string(), target.clone()));
                msg.metadata.push(("nickname".to_string(), data.author.username.clone()));
                msg.metadata.push(("event_type".to_string(), et.to_string()));
                GatewayStep::Deliver(msg)
            },
        }
    }
}

// ─── NapCat events ───────────────────────────────

/// The sender of a OneBot message event.
#[derive(Debug, Clone)]
pub struct SenderInfo {
    pub nickname: String,
    pub user_id: Option<i64>,
}

/// The fields of a OneBot 11 event that the channel reads; absent text
/// fields are empty.
#[derive(Debug, Clone)]
pub struct OneBotEvent {
    /// `message`, `notice`, `request` or `meta_event`.
    pub post_type: String,
    /// `group` or `private` for message events.
    pub message_type: String,
    pub sub_type: String,
    pub group_id: Option<i64>,
    pub user_id: Option<i64>,
    pub raw_message: String,
    pub sender: Option<SenderInfo>,
}

/// An optional id, zero when absent.
pub open spec fn id_or_zero(o: Option<i64>) -> int {
    match o {
        Some(v) => v as int,
        None => 0,
    }
}

/// The sender's nickname, empty when there is no sender.
pub open spec fn nickname_of(s: Option<SenderInfo>) -> Seq<char> {
    match s {
        Some(i) => i.nickname@,
        None => Seq::empty(),
    }
}

/// The message a NapCat event becomes: only a group or private message with
/// text left after trimming becomes one. Its channel names the group or the
/// user, and replies go to the user.
pub fn napcat_inbound(event: &OneBotEvent) -> (r: Option<InboundMessage>)
    ensures
        r is Some <==> event.post_type@ == "message"@ && trim_spec(event.raw_message@).len() > 0 && (
        event.message_type@ == "group"@ || event.message_type@ == "private"@),
        r matches Some(m) ==> {
            &&& m.content@ == trim_spec(event.raw_message@)
            &&& m.channel@ == (if event.message_type@ == "group"@ {
                "napcat.group."@ + dec_int(id_or_zero(event.group_id))
            } else {
                "napcat.private."@ + dec_int(id_or_zero(event.user_id))
            })
            &&& m.sender@ == dec_int(id_or_zero(event.user_id))
            &&& m.metadata@.len() == 2
            &&& m.metadata@[0].0@ == "nickname"@
            &&& m.metadata@[0].1@ == nickname_of(event.sender)
            &&& m.metadata@[1].0@ == "message_type"@
            &&& m.metadata@[1].1@ == event.message_type@
        },
{
    if !str_eq(event.post_type.as_str(), "message") {
        return None;
    }
    let raw = trim_str(event.raw_message.as_str());
    if raw.as_str().unicode_len() == 0 {
        return None;
    }
    let uid = match event.user_id {
        Some(v) => v,
        None => 0,
    };
    let channel_detail = if str_eq(event.message_type.as_str(), "group") {
        let gid = match event.group_id {
            Some(v) => v,
            None => 0,
        };
        concat2("napcat.group.", i64_to_string(gid).as_str())
    } else if str_eq(event.message_type.as_str(), "private") {
        concat2("napcat.private.", i64_to_string(uid).as_str())
    } else {
        return None;
    };
    let nickname = match &event.sender {
        Some(s) => s.nickname.clone(),
        None => String::new(),
    };
    let sender_id = i64_to_string(uid);
    let mut msg = InboundMessage::new(raw.as_str(), channel_detail.as_str(), sender_id.as_str());
    msg.metadata.push(("nickname".to_string(), nickname));
    msg.metadata.push(("message_type".to_string(), event.message_type.clone()));
    Some(msg)
}

// ─── HTTP callbacks ──────────────────────────────

/// A channel that receives messages as HTTP POSTs to
/// `/webhook/{channel}`; it sends nothing back.
pub struct HttpChannel {
    name: String,
    addr: String,
}

impl HttpChannel {
    pub closed spec fn name_text(&self) -> Seq<char> {
        self.name@
    }

    pub closed spec fn addr_text(&self) -> Seq<char> {
        self.addr@
    }

    /// A channel named `name` that listens on `addr`, such as `0.0.0.0:9091`.
    pub fn new(name: &str, addr: &str) -> (r: Self)
        ensures
            r.name_text() == name@,
            r.addr_text() == addr@,
    {
        HttpChannel { name: name.to_string(), addr: addr.to_string() }
    }

    pub fn name(&self) -> (r: &str)
        ensures
            r@ == self.name_text(),
    {
        self.name.as_str()
    }

    pub fn addr(&self) -> (r: &str)
        ensures
            r@ == self.addr_text(),
    {
        self.addr.as_str()
    }
}

/// The message a webhook POST to `/webhook/{channel}` becomes; its sender
/// is `webhook` when the payload names none.
pub fn webhook_message(channel: &str, message: &str, sender: Option<&str>) -> (r: InboundMessage)
    ensures
        r.content@ == message@,
        r.channel@ == channel@,
        r.sender@ == (match sender {
            Some(s) => s@,
            None => "webhook"@,
        }),
        r.metadata@.len() == 0,
{
    let from = match sender {
        Some(s) => s,
        None => "webhook",
    };
    InboundMessage::new(message, channel, from)
}

/// The scheduler task an inbound message becomes: the sender's session,
/// with the content as input.
pub fn task_from_inbound(m: InboundMessage) -> (r: SessionTask)
    ensures
        r.session_id@ == m.sender@,
        r.input@ == m.content@,
        r.channel@ == m.channel@,
        r.sender@ == m.sender@,
{
    SessionTask { session_id: m.sender.clone(), input: m.content, channel: m.channel, sender: m.sender }
}

// ─── The channels module ─────────────────────────

/// What a tool call on the channels module asks for.
#[derive(Debug)]
pub enum ChannelsToolStep {
    /// Answer with this text.
    Reply(String),
    /// Send this message; on success answer with [`sent_reply`].
    Send(OutboundMessage),
}

/// The answer to `list_channels` for the registered channel names.
pub open spec fn channel_list_text(names: Seq<String>) -> Seq<char> {
    if names.len() == 0 {
        "没有已注册的消息通道"@
    } else {
        "已注册通道: "@ + join_texts(names, ", "@)
    }
}

/// The module that hosts the message channels: it keeps their names, knows
/// whether it is bridged to the scheduler, and decides its tool calls.
pub struct ChannelsModule {
    channel_names: Vec<String>,
    bridged: bool,
}

impl ChannelsModule {
    /// The names of the registered channels, in registration order.
    pub closed spec fn names(&self) -> Seq<String> {
        self.channel_names@
    }

    pub closed spec fn is_bridged(&self) -> bool {
        self.bridged
    }

    /// A module with no channels.
    pub fn new() -> (r: Self)
        ensures
            r.names().len() == 0,
            !r.is_bridged(),
    {
        ChannelsModule { channel_names: Vec::new(), bridged: false }
    }

    /// A module for channels already registered, given by their names.
    pub fn from_registry(channel_names: Vec<String>) -> (r: Self)
        ensures
            r.names() == channel_names@,
            !r.is_bridged(),
    {
        ChannelsModule { channel_names, bridged: false }
    }

    /// Records a channel that was registered and started.
    pub fn register_channel(&mut self, name: String)
        ensures
            final(self).names() == old(self).names().push(name),
            final(self).is_bridged() == old(self).is_bridged(),
    {
        self.channel_names.push(name);
    }

    /// The names of the registered channels.
    pub fn list_channels(&self) -> (r: Vec<String>)
        ensures
            r@ == self.names(),
    {
        self.channel_names.clone()
    }

    /// Starts the bridge to the scheduler unless it is running: whether the
    /// caller should start it now.
    pub fn begin_bridge(&mut self) -> (r: bool)
        ensures
            r == !old(self).is_bridged(),
            final(self).is_bridged(),
            final(self).names() == old(self).names(),
    {
        if self.bridged {
            false
        } else {
            self.bridged = true;
            true
        }
    }

    pub fn id(&self) -> (r: &'static str)
        ensures
            r@ == "channels"@,
    {
        "channels"
    }

    pub fn name(&self) -> (r: &'static str)
        ensures
            r@ == "消息通道"@,
    {
        "消息通道"
    }

    pub fn version(&self) -> (r: &'static str)
        ensures
            r@ == "0.1.0"@,
    {
        "0.1.0"
    }

    /// The capabilities the module provides.
    pub fn provides(&self) -> (r: Vec<String>)
        ensures
            r@.len() == 3,
            r@[0]@ == "channels.qqbot"@,
            r@[1]@ == "channels.napcat"@,
            r@[2]@ == "channels.http"@,
    {
        let mut v = Vec::new();
        v.push("channels.qqbot".to_string());
        v.push("channels.napcat".to_string());
        v.push("channels.http".to_string());
        v
    }

    /// The status line: the channel names, or none.
    pub fn display_status(&self) -> (r: Option<String>)
        ensures
            r matches Some(t) && t@ == (if self.names().len() == 0 {
                "通道: 无"@
            } else {
                "通道: "@ + join_texts(self.names(), ", "@)
            }),
    {
        if self.channel_names.len() == 0 {
            Some("通道: 无".to_string())
        } else {
            Some(concat2("通道: ", join_strings(&self.channel_names, ", ").as_str()))
        }
    }

    /// Decides a tool call. `list_channels` answers with the names;
    /// `send_message` needs non-empty string arguments `channel`, `target`
    /// and `content` and asks for that message to be sent.
    pub fn tool_step(&self, name: &str, args: &ToolArgs) -> (r: Result<ChannelsToolStep, ModuleError>)
        ensures
            name@ == "list_channels"@ ==> (r matches Ok(ChannelsToolStep::Reply(t)) && t@
                == channel_list_text(self.names())),
            name@ == "send_message"@ ==> match *args {
                Err(e) => r matches Err(ModuleError::ToolExecutionFailed(m)) && m@ == "参数解析: "@
                    + e@,
                Ok(m) => {
                    let c = or_text(str_member(m@, "channel"@), Seq::empty());
                    let t = or_text(str_member(m@, "target"@), Seq::empty());
                    let x = or_text(str_member(m@, "content"@), Seq::empty());
                    if c.len() == 0 || t.len() == 0 || x.len() == 0 {
                        r matches Err(ModuleError::ToolExecutionFailed(e)) && e@
                            == "缺少必要参数：channel/target/content"@
                    } else {
                        r matches Ok(ChannelsToolStep::Send(o)) && o.content@ == x && o.channel@
                            == c && o.target@ == t
                    }
                },
            },
            name@ != "list_channels"@ && name@ != "send_message"@ ==> (r matches Err(
                ModuleError::ToolNotFound(n),
            ) && n@ == name@),
    {
        proof {
            reveal_strlit("list_channels");
            reveal_strlit("send_message");
            assert("list_channels"@.len() != "send_message"@.len());
        }
        if str_eq(name, "list_channels") {
            if self.channel_names.len() == 0 {
                Ok(ChannelsToolStep::Reply("没有已注册的消息通道".to_string()))
            } else {
                Ok(
                    ChannelsToolStep::Reply(
                        concat2("已注册通道: ", join_strings(&self.channel_names, ", ").as_str()),
                    ),
                )
            }
        } else if str_eq(name, "send_message") {
            match args {
                Err(e) => Err(ModuleError::ToolExecutionFailed(concat2("参数解析: ", e.as_str()))),
                Ok(m) => {
                    let channel = match get_str_member(m, "channel") {
                        Some(s) => s,
                        None => "",
                    };
                    let target = match get_str_member(m, "target") {
                        Some(s) => s,
                        None => "",
                    };
                    let content = match get_str_member(m, "content") {
                        Some(s) => s,
                        None => "",
                    };
                    proof {
                        reveal_strlit("");
                        assert(""@ =~= Seq::<char>::empty());
                    }
                    if channel.unicode_len() == 0 || target.unicode_len() == 0
                        || content.unicode_len() == 0 {
                        Err(
                            ModuleError::ToolExecutionFailed(
                                "缺少必要参数：channel/target/content".to_string(),
                            ),
                        )
                    } else {
                        Ok(ChannelsToolStep::Send(OutboundMessage::new(content, channel, target)))
                    }
                },
            }
        } else {
            Err(ModuleError::ToolNotFound(name.to_string()))
        }
    }
}

/// The answer after a `send_message` was handed on.
pub fn sent_reply(channel: &str, target: &str) -> (r: String)
    ensures
        r@ == "消息已发送到通道 '"@ + channel@ + "'，目标 '"@ + target@ + "'"@,
{
    let mut s = concat3("消息已发送到通道 '", channel, "'，目标 '");
    append_str(&mut s, target);
    append_str(&mut s, "'");
    s
}

// ─── Laws ────────────────────────────────────────

/// A target written as `kind:rest`, where `kind` has no `:`, splits back
/// into `kind` and `rest`.
proof fn lemma_split_target_of(kind: Seq<char>, rest: Seq<char>)
    requires
        forall|i: int| 0 <= i < kind.len() ==> kind[i] != ':',
    ensures
        split_target(kind + seq![':'] + rest) == Some((kind, rest)),
{
    let s = kind + seq![':'] + rest;
    let p = seq![':'];
    let k = kind.len() as int;
    assert(s.subrange(k, k + 1) =~= p);
    assert(matches_at(s, p, k));
    lemma_find_from(s, p, 0);
    match find_from(s, p, 0) {
        Some(j) => {
            if j < k {
                assert(s.subrange(j, j + 1)[0] == s[j]);
                assert(s[j] == kind[j]);
            }
        },
        None => {},
    }
    assert(s.take(k) =~= kind);
    assert(s.skip(k + 1) =~= rest);
}

/// A reply target made from a QQ message event is always `group:<id>` or
/// `private:<id>`, so sending a reply never fails on its address.
pub proof fn law_qq_reply_target_addressable(et: Seq<char>, d: JsonValue)
    ensures
        split_target(qq_reply_target(et, d)) matches Some(p) && (p.0 == "group"@ || p.0
            == "private"@),
{
    reveal_strlit("group");
    reveal_strlit("private");
    reveal_strlit("group:");
    reveal_strlit("private:");
    assert("group:"@ =~= "group"@ + seq![':']);
    assert("private:"@ =~= "private"@ + seq![':']);
    let a = author_text(d, "id"@);
    lemma_split_target_of("private"@, a);
    match member_text(d, "group_open_id"@) {
        Some(g) => {
            lemma_split_target_of("group"@, g);
        },
        None => {},
    }
}

/// An id that NapCat sent as a number can be sent back: the target
/// `group:<n>` or `private:<n>` splits into its kind and a text that reads
/// back as `n`.
pub proof fn law_napcat_numeric_target(n: i64)
    ensures
        split_target("group:"@ + dec_int(n as int)) == Some(("group"@, dec_int(n as int))),
        split_target("private:"@ + dec_int(n as int)) == Some(("private"@, dec_int(n as int))),
        parse_i64_spec(dec_int(n as int)) == Ok::<int, IntParseError>(n as int),
{
    reveal_strlit("group");
    reveal_strlit("private");
    reveal_strlit("group:");
    reveal_strlit("private:");
    assert("group:"@ =~= "group"@ + seq![':']);
    assert("private:"@ =~= "private"@ + seq![':']);
    lemma_split_target_of("group"@, dec_int(n as int));
    lemma_split_target_of("private"@, dec_int(n as int));
    if n < 0 {
        let m = (-n) as nat;
        let s = dec_int(n as int);
        lemma_dec_first(m);
        lemma_accum_dec(m, true);
        assert(s.skip(1) =~= dec(m));
    } else {
        lemma_dec_first(n as nat);
        lemma_accum_dec(n as nat, false);
        let c = dec(n as nat)[0];
        assert(c != '-' && c != '+');
    }
}

// ─── Tool schemas ────────────────────────────────

/// The parameters of `send_message`.
pub open spec fn send_message_params() -> Seq<crate::schema::ParamSpec> {
    seq![
        crate::schema::plain_param("channel"@, "string"@, "目标通道名"@),
        crate::schema::plain_param("target"@, "string"@, "目标标识，如 group:123456 或 private:654321"@),
        crate::schema::plain_param("content"@, "string"@, "消息内容"@),
    ]
}

impl ChannelsModule {
    /// The module's tools: `list_channels`, whose schema lists no required
    /// parameters, and `send_message`.
    pub fn tool_definitions(&self) -> (r: Vec<crate::llm::ToolDefinition>)
        ensures
            r@.len() == 2,
            crate::schema::tool_of(r@[0], "list_channels"@, "列出所有已注册的消息通道及其状态"@, Seq::empty(), None),
            crate::schema::tool_of(
                r@[1],
                "send_message"@,
                "通过指定通道发送消息到外部平台"@,
                send_message_params(),
                Some(seq!["channel"@, "target"@, "content"@]),
            ),
    {
        let list = crate::schema::object_schema(Vec::new(), None);
        let mut props: Vec<(String, JsonValue)> = Vec::new();
        props.push(("channel".to_string(), crate::schema::param("string", "目标通道名")));
        props.push(("target".to_string(), crate::schema::param("string", "目标标识，如 group:123456 或 private:654321")));
        props.push(("content".to_string(), crate::schema::param("string", "消息内容")));
        let ghost ps = props@;
        let mut req: Vec<String> = Vec::new();
        req.push("channel".to_string());
        req.push("target".to_string());
        req.push("content".to_string());
        assert(crate::schema::texts(req@) =~= seq!["channel"@, "target"@, "content"@]);
        let send = crate::schema::object_schema(props, Some(req));
        assert forall|i: int| 0 <= i < send_message_params().len() implies #[trigger] ps[i].0@
            == send_message_params()[i].name && crate::schema::param_schema(
            ps[i].1,
            send_message_params()[i].ty,
            send_message_params()[i].desc,
            send_message_params()[i].choices,
        ) by {}
        let mut v: Vec<crate::llm::ToolDefinition> = Vec::new();
        v.push(crate::schema::function_tool("list_channels", "列出所有已注册的消息通道及其状态", list));
        v.push(crate::schema::function_tool("send_message", "通过指定通道发送消息到外部平台", send));
        v
    }
}

} // verus!
