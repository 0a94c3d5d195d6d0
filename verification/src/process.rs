//! The line protocol of external process modules.
//!
//! A process module is any program that speaks JSON lines on its standard
//! input and output: its first line declares its capabilities and tools;
//! then it is sent events and tool calls, one message per line, and answers
//! them. Starting the process and moving the lines stay with the caller;
//! this module decides what is sent and what an answer means.
use vstd::prelude::*;
use crate::json::{json_get, JsonValue};
use crate::llm::{ToolDefinition, ToolFunction};
use crate::module::{Capability, EventResponse, ModuleError, PromptContribution, ToolResultMessage};
use crate::registry::Event;
use crate::text::{concat2, concat3, str_eq, u64_to_string, dec};

verus! {

/// A process module's first line.
#[derive(Debug)]
pub struct CapabilityDeclaration {
    pub msg_type: String,
    pub id: String,
    pub name: String,
    pub version: String,
    pub provides: Vec<Capability>,
    /// The capabilities it needs from other modules.
    pub needs: Vec<Capability>,
    pub tools: Vec<JsonValue>,
    pub prompt_contributions: Vec<PromptContribution>,
}

/// A process module's answer to an event.
#[derive(Debug)]
pub struct ModuleEventResponse {
    pub msg_type: String,
    pub status: String,
    pub data: JsonValue,
}

/// The string member `key` of `v`.
pub open spec fn str_at(v: JsonValue, key: Seq<char>) -> Option<Seq<char>> {
    match json_get(v, key) {
        Some(JsonValue::Str(s)) => Some(s@),
        _ => None,
    }
}

/// A declared tool becomes a tool definition when it has a string `name`;
/// its description defaults to empty.
pub open spec fn declared_tool_ok(t: JsonValue) -> bool {
    str_at(t, "name"@) is Some
}

/// Takes the member `key` out of an object's members: its value, and the
/// members without it.
fn take_member(members: Vec<(String, JsonValue)>, key: &str) -> (r: (Option<JsonValue>, Vec<(String, JsonValue)>))
    ensures
        r.0 == crate::json::obj_get(members@, key@),
{
    let ghost all = members@;
    let mut rest = members;
    let mut i: usize = 0;
    assert(all.skip(0) == all);
    while i < rest.len()
        invariant
            i <= rest@.len(),
            rest@ == all,
            all == members@,
            crate::json::obj_get(all, key@) == crate::json::obj_get(all.skip(i as int), key@),
        decreases rest@.len() - i,
    {
        assert(all.skip(i as int)[0] == all[i as int]);
        assert(all.skip(i as int).skip(1) == all.skip(i + 1));
        if str_eq(rest[i].0.as_str(), key) {
            let pair = rest.remove(i);
            return (Some(pair.1), rest);
        }
        i += 1;
    }
    (None, rest)
}

/// `d` is what the declared tool `t` becomes: a function with the declared
/// name, description (empty when absent) and parameters (null when absent).
pub open spec fn declared_as(t: JsonValue, d: ToolDefinition) -> bool {
    &&& d.def_type@ == "function"@
    &&& Some(d.function.name@) == str_at(t, "name"@)
    &&& d.function.description@ == (match str_at(t, "description"@) {
        Some(s) => s,
        None => Seq::empty(),
    })
    &&& d.function.parameters == (match json_get(t, "parameters"@) {
        Some(p) => p,
        None => JsonValue::Null,
    })
}

/// `defs` are the declared tools `ts` that have a name, each as it becomes.
pub open spec fn defs_of_declared(ts: Seq<JsonValue>, defs: Seq<ToolDefinition>) -> bool {
    let named = ts.filter(|t: JsonValue| declared_tool_ok(t));
    &&& defs.len() == named.len()
    &&& forall|i: int| 0 <= i < defs.len() ==> declared_as(named[i], #[trigger] defs[i])
}

/// The tool definition a declared tool becomes: a function with the
/// declared name, description (empty when absent) and parameters (null when
/// absent).
pub fn tool_from_declared(t: JsonValue) -> (r: Option<ToolDefinition>)
    ensures
        r is Some <==> declared_tool_ok(t),
        r matches Some(d) ==> declared_as(t, d),
{
    let name = match t.get("name") {
        Some(v) => match v.as_str() {
            Some(s) => s.to_string(),
            None => return None,
        },
        None => return None,
    };
    let description = match t.get("description") {
        Some(v) => match v.as_str() {
            Some(s) => s.to_string(),
            None => String::new(),
        },
        None => String::new(),
    };
    let parameters = match t {
        JsonValue::Object(members) => {
            let (p, _) = take_member(members, "parameters");
            match p {
                Some(v) => v,
                None => JsonValue::Null,
            }
        },
        _ => JsonValue::Null,
    };
    Some(
        ToolDefinition {
            def_type: "function".to_string(),
            function: ToolFunction { name, description, parameters },
        },
    )
}

/// The engine's side of a running process module: what it declared, and
/// the sequence number of its next message.
pub struct ProcessModule {
    id: String,
    name: String,
    version: String,
    provides: Vec<Capability>,
    needs: Vec<Capability>,
    tools: Vec<ToolDefinition>,
    prompt_content: Option<String>,
    seq: u64,
}

/// What the engine sends a process module for an event.
#[derive(Debug)]
pub enum EventPayload {
    /// Send the message `{"msg_type": "event", "event": kind, "data": data,
    /// "seq": seq}`.
    Send { kind: String, data: JsonValue },
    /// Send that message with the registered module's info, as JSON, for
    /// data.
    SendInfo { kind: String },
    /// Stop the process instead.
    Stop,
}

/// `v` is the object with these members, in this order.
pub open spec fn object_of(v: JsonValue, keys: Seq<Seq<char>>, values: Seq<JsonValue>) -> bool {
    &&& v matches JsonValue::Object(m)
    &&& m@.len() == keys.len()
    &&& keys.len() == values.len()
    &&& forall|i: int| 0 <= i < keys.len() ==> #[trigger] m@[i].0@ == keys[i] && m@[i].1 == values[i]
}

impl ProcessModule {
    pub closed spec fn id_text(&self) -> Seq<char> {
        self.id@
    }

    pub closed spec fn name_text(&self) -> Seq<char> {
        self.name@
    }

    pub closed spec fn version_text(&self) -> Seq<char> {
        self.version@
    }

    pub closed spec fn provided(&self) -> Seq<Capability> {
        self.provides@
    }

    pub closed spec fn needed(&self) -> Seq<Capability> {
        self.needs@
    }

    pub closed spec fn tool_defs(&self) -> Seq<ToolDefinition> {
        self.tools@
    }

    pub closed spec fn prompt(&self) -> Option<String> {
        self.prompt_content
    }

    pub closed spec fn next_seq(&self) -> u64 {
        self.seq
    }

    /// The module `id` as its declaration describes it, numbering its
    /// messages from `seq`: refused unless the first line is a
    /// `capability_declare`. Declared tools without a name are dropped; the
    /// first prompt contribution becomes its prompt segment.
    pub fn from_declaration(id: &str, decl: CapabilityDeclaration, seq: u64) -> (r: Result<Self, String>)
        ensures
            decl.msg_type@ != "capability_declare"@ ==> (r matches Err(e) && e@
                == "Expected capability_declare, got '"@ + decl.msg_type@ + "'"@),
            decl.msg_type@ == "capability_declare"@ ==> (r matches Ok(m) && {
                &&& m.id_text() == id@
                &&& m.name_text() == decl.name@
                &&& m.version_text() == decl.version@
                &&& m.provided() == decl.provides@
                &&& m.needed() == decl.needs@
                &&& defs_of_declared(decl.tools@, m.tool_defs())
                &&& m.prompt() == (if decl.prompt_contributions@.len() > 0 {
                    Some(decl.prompt_contributions@[0].content)
                } else {
                    None
                })
                &&& m.next_seq() == seq
            }),
    {
        if !str_eq(decl.msg_type.as_str(), "capability_declare") {
            return Err(concat3("Expected capability_declare, got '", decl.msg_type.as_str(), "'"));
        }
        let CapabilityDeclaration { msg_type, id: _, name, version, provides, needs, tools, prompt_contributions } = decl;
        let prompt_content = if prompt_contributions.len() > 0 {
            Some(prompt_contributions[0].content.clone())
        } else {
            None
        };
        let mut declared = tools;
        let ghost all = declared@;
        let mut defs: Vec<ToolDefinition> = Vec::new();
        let mut k: usize = 0;
        let n = declared.len();
        assert(all.take(0).filter(|t: JsonValue| declared_tool_ok(t)) =~= Seq::<JsonValue>::empty()) by {
            reveal(Seq::filter);
        }
        while declared.len() > 0
            invariant
                k + declared@.len() == n,
                n == all.len(),
                declared@ == all.skip(k as int),
                defs_of_declared(all.take(k as int), defs@),
            decreases declared@.len(),
        {
            let t = declared.remove(0);
            assert(t == all[k as int]);
            assert(all.take(k + 1).drop_last() == all.take(k as int));
            assert(all.take(k + 1).last() == all[k as int]);
            proof {
                reveal(Seq::filter);
            }
            assert(declared@ =~= all.skip(k + 1));
            let ghost before = defs@;
            let ghost named0 = all.take(k as int).filter(|t: JsonValue| declared_tool_ok(t));
            if let Some(d) = tool_from_declared(t) {
                defs.push(d);
                assert forall|i: int| 0 <= i < defs@.len() implies declared_as(
                    all.take(k + 1).filter(|t: JsonValue| declared_tool_ok(t))[i],
                    #[trigger] defs@[i],
                ) by {
                    if i < before.len() {
                        assert(defs@[i] == before[i]);
                        assert(declared_as(named0[i], before[i]));
                    }
                }
            }
            k += 1;
        }
        assert(all.take(n as int) == all);
        Ok(
            ProcessModule {
                id: id.to_string(),
                name,
                version,
                provides,
                needs,
                tools: defs,
                prompt_content,
                seq,
            },
        )
    }

    pub fn id(&self) -> (r: &str)
        ensures
            r@ == self.id_text(),
    {
        self.id.as_str()
    }

    pub fn name(&self) -> (r: &str)
        ensures
            r@ == self.name_text(),
    {
        self.name.as_str()
    }

    pub fn version(&self) -> (r: &str)
        ensures
            r@ == self.version_text(),
    {
        self.version.as_str()
    }

    pub fn provides(&self) -> (r: Vec<Capability>)
        ensures
            r@ == self.provided(),
    {
        self.provides.clone()
    }

    pub fn required_capabilities(&self) -> (r: Vec<Capability>)
        ensures
            r@ == self.needed(),
    {
        self.needs.clone()
    }

    pub fn prompt_segment(&self) -> (r: Option<String>)
        ensures
            r == self.prompt(),
    {
        self.prompt_content.clone()
    }

    pub fn tool_definitions(&self) -> (r: &Vec<ToolDefinition>)
        ensures
            r@ == self.tool_defs(),
    {
        &self.tools
    }

    /// What to send for `event`: the event's kind and data, or, for
    /// shutdown, to stop the process.
    pub fn event_payload(event: &Event) -> (r: EventPayload)
        ensures
            match *event {
                Event::Shutdown => r is Stop,
                Event::Startup => r matches EventPayload::Send { kind, data } && kind@ == "startup"@
                    && data == JsonValue::Null,
                Event::BuildPrompt => r matches EventPayload::Send { kind, data } && kind@
                    == "build_prompt"@ && data == JsonValue::Null,
                Event::Decontaminate => r matches EventPayload::Send { kind, data } && kind@
                    == "decontaminate"@ && data == JsonValue::Null,
                Event::OnMessage { input, channel } => r matches EventPayload::Send { kind, data }
                    && kind@ == "on_message"@ && texts_object(data, seq!["input"@, "channel"@], seq![input@, channel@]),
                Event::OnResponse { response } => r matches EventPayload::Send { kind, data } && kind@
                    == "on_response"@ && texts_object(data, seq!["response"@], seq![response@]),
                Event::OnToolCall { name, args, success } => r matches EventPayload::Send { kind, data }
                    && kind@ == "on_tool_call"@ && tool_call_event_data(data, name@, args@, success),
                Event::ModuleRegistered { .. } => r matches EventPayload::SendInfo { kind } && kind@
                    == "module_registered"@,
            },
    {
        match event {
            Event::Shutdown => EventPayload::Stop,
            Event::Startup => EventPayload::Send { kind: "startup".to_string(), data: JsonValue::Null },
            Event::BuildPrompt => EventPayload::Send { kind: "build_prompt".to_string(), data: JsonValue::Null },
            Event::Decontaminate => EventPayload::Send { kind: "decontaminate".to_string(), data: JsonValue::Null },
            Event::OnMessage { input, channel } => {
                let mut m: Vec<(String, JsonValue)> = Vec::new();
                m.push(("input".to_string(), JsonValue::Str(input.clone())));
                m.push(("channel".to_string(), JsonValue::Str(channel.clone())));
                EventPayload::Send { kind: "on_message".to_string(), data: JsonValue::Object(m) }
            },
            Event::OnResponse { response } => {
                let mut m: Vec<(String, JsonValue)> = Vec::new();
                m.push(("response".to_string(), JsonValue::Str(response.clone())));
                EventPayload::Send { kind: "on_response".to_string(), data: JsonValue::Object(m) }
            },
            Event::OnToolCall { name, args, success } => {
                let mut m: Vec<(String, JsonValue)> = Vec::new();
                m.push(("name".to_string(), JsonValue::Str(name.clone())));
                m.push(("args".to_string(), JsonValue::Str(args.clone())));
                m.push(("success".to_string(), JsonValue::Bool(*success)));
                EventPayload::Send { kind: "on_tool_call".to_string(), data: JsonValue::Object(m) }
            },
            Event::ModuleRegistered { .. } => EventPayload::SendInfo { kind: "module_registered".to_string() },
        }
    }

    /// The sequence number of the next message.
    pub fn seq(&self) -> (r: u64)
        ensures
            r == self.next_seq(),
    {
        self.seq
    }

    /// The event message to send, numbered with the next sequence number,
    /// which then advances.
    pub fn event_message(&mut self, kind: &str, data: JsonValue) -> (r: JsonValue)
        requires
            old(self).next_seq() < u64::MAX,
        ensures
            final(self).next_seq() == old(self).next_seq() + 1,
            final(self).id_text() == old(self).id_text(),
            final(self).prompt() == old(self).prompt(),
            r matches JsonValue::Object(m) && m@.len() == 4 && m@[0].0@ == "msg_type"@ && (m@[0].1
                matches JsonValue::Str(t) && t@ == "event"@) && m@[1].0@ == "event"@ && (m@[1].1
                matches JsonValue::Str(k) && k@ == kind@) && m@[2].0@ == "data"@ && m@[2].1 == data
                && m@[3].0@ == "seq"@ && seq_value(m@[3].1, old(self).next_seq()),
    {
        let mut m: Vec<(String, JsonValue)> = Vec::new();
        m.push(("msg_type".to_string(), JsonValue::Str("event".to_string())));
        m.push(("event".to_string(), JsonValue::Str(kind.to_string())));
        m.push(("data".to_string(), data));
        m.push(("seq".to_string(), u64_json(self.seq)));
        self.seq = self.seq + 1;
        JsonValue::Object(m)
    }

    /// The tool-call message for `name` with `args` (the parsed arguments,
    /// or null when they are not JSON), identified by the next sequence
    /// number.
    pub fn tool_call_message(&self, name: &str, args: JsonValue) -> (r: JsonValue)
        ensures
            r matches JsonValue::Object(m) && m@.len() == 4 && m@[0].0@ == "msg_type"@ && (m@[0].1
                matches JsonValue::Str(t) && t@ == "tool_call"@) && m@[1].0@ == "name"@ && (m@[1].1
                matches JsonValue::Str(n) && n@ == name@) && m@[2].0@ == "args"@ && m@[2].1 == args
                && m@[3].0@ == "tool_call_id"@ && (m@[3].1 matches JsonValue::Str(c) && c@ == "proc_"@
                + dec(self.next_seq() as nat)),
    {
        let mut m: Vec<(String, JsonValue)> = Vec::new();
        m.push(("msg_type".to_string(), JsonValue::Str("tool_call".to_string())));
        m.push(("name".to_string(), JsonValue::Str(name.to_string())));
        m.push(("args".to_string(), args));
        m.push(("tool_call_id".to_string(), JsonValue::Str(concat2("proc_", u64_to_string(self.seq).as_str()))));
        JsonValue::Object(m)
    }

    /// The tool-call message for `name` with its arguments' JSON text, as
    /// [`ProcessModule::tool_call_message`] builds it from the parsed
    /// arguments, or from null when the text is not JSON.
    pub fn tool_call_message_from_text(&self, name: &str, args: &str) -> (r: JsonValue)
        ensures
            r matches JsonValue::Object(m) && m@.len() == 4 && m@[0].0@ == "msg_type"@ && (m@[0].1
                matches JsonValue::Str(t) && t@ == "tool_call"@) && m@[1].0@ == "name"@ && (m@[1].1
                matches JsonValue::Str(n) && n@ == name@) && m@[2].0@ == "args"@ && m@[2].1 == (match crate::json::parsed_json(args@) {
                Some(v) => v,
                None => JsonValue::Null,
            }) && m@[3].0@ == "tool_call_id"@ && (m@[3].1 matches JsonValue::Str(c) && c@ == "proc_"@
                + dec(self.next_seq() as nat)),
    {
        let parsed = match crate::json::parse_json(args) {
            Some(v) => v,
            None => JsonValue::Null,
        };
        self.tool_call_message(name, parsed)
    }

    /// What a tool's answer means: `tool_result` gives its output (empty
    /// when absent), `tool_error` its error; anything else is unexpected.
    pub fn tool_result(result: ToolResultMessage) -> (r: Result<String, ModuleError>)
        ensures
            result.msg_type@ == "tool_result"@ ==> (r matches Ok(o) && o@ == (match result.output {
                Some(t) => t@,
                None => Seq::empty(),
            })),
            result.msg_type@ == "tool_error"@ ==> (r matches Err(ModuleError::ToolExecutionFailed(e))
                && e@ == (match result.error {
                Some(t) => t@,
                None => Seq::empty(),
            })),
            result.msg_type@ != "tool_result"@ && result.msg_type@ != "tool_error"@ ==> (r matches Err(
                ModuleError::ToolExecutionFailed(e),
            ) && e@ == "unexpected response type: "@ + result.msg_type@),
    {
        proof {
            reveal_strlit("tool_result");
            reveal_strlit("tool_error");
            assert("tool_result"@.len() != "tool_error"@.len());
        }
        if str_eq(result.msg_type.as_str(), "tool_result") {
            Ok(
                match result.output {
                    Some(t) => t,
                    None => String::new(),
                },
            )
        } else if str_eq(result.msg_type.as_str(), "tool_error") {
            Err(
                ModuleError::ToolExecutionFailed(
                    match result.error {
                        Some(t) => t,
                        None => String::new(),
                    },
                ),
            )
        } else {
            Err(ModuleError::ToolExecutionFailed(concat2("unexpected response type: ", result.msg_type.as_str())))
        }
    }

    /// Takes the module's answer to an event: `skip` asks to skip the rest
    /// of the turn; `modified` passes, and when its data carries
    /// `prompt_additions` whose first entry has a string `content`, that
    /// becomes the module's prompt segment; anything else passes.
    pub fn on_response(&mut self, resp: ModuleEventResponse) -> (r: EventResponse)
        ensures
            final(self).id_text() == old(self).id_text(),
            final(self).next_seq() == old(self).next_seq(),
            resp.status@ == "skip"@ ==> r is Skip && final(self).prompt() == old(self).prompt(),
            resp.status@ != "skip"@ ==> r is Pass,
            resp.status@ != "modified"@ ==> final(self).prompt() == old(self).prompt(),
            resp.status@ == "modified"@ ==> match first_addition(resp.data) {
                Some(c) => final(self).prompt() matches Some(p) && p@ == c,
                None => final(self).prompt() == old(self).prompt(),
            },
    {
        proof {
            reveal_strlit("skip");
            reveal_strlit("modified");
            assert("skip"@.len() != "modified"@.len());
        }
        if str_eq(resp.status.as_str(), "skip") {
            return EventResponse::Skip;
        }
        if str_eq(resp.status.as_str(), "modified") {
            if let Some(additions) = resp.data.get("prompt_additions") {
                if let JsonValue::Array(items) = additions {
                    if items.len() > 0 {
                        if let Some(c) = items[0].get("content") {
                            if let Some(s) = c.as_str() {
                                self.prompt_content = Some(s.to_string());
                            }
                        }
                    }
                }
            }
        }
        EventResponse::Pass
    }
}

/// The text of the first prompt addition in an event answer's data.
pub open spec fn first_addition(data: JsonValue) -> Option<Seq<char>> {
    match json_get(data, "prompt_additions"@) {
        Some(JsonValue::Array(items)) => if items@.len() > 0 {
            str_at(items@[0], "content"@)
        } else {
            None
        },
        _ => None,
    }
}

/// `d` is an object of string members with these names and texts.
pub open spec fn texts_object(d: JsonValue, keys: Seq<Seq<char>>, texts: Seq<Seq<char>>) -> bool {
    &&& d matches JsonValue::Object(m)
    &&& m@.len() == keys.len()
    &&& keys.len() == texts.len()
    &&& forall|i: int| 0 <= i < keys.len() ==> #[trigger] m@[i].0@ == keys[i] && (m@[i].1 matches JsonValue::Str(s) && s@ == texts[i])
}

/// `d` is `{"name": name, "args": args, "success": success}`.
pub open spec fn tool_call_event_data(d: JsonValue, name: Seq<char>, args: Seq<char>, success: bool) -> bool {
    &&& d matches JsonValue::Object(m)
    &&& m@.len() == 3
    &&& m@[0].0@ == "name"@
    &&& m@[0].1 matches JsonValue::Str(s) && s@ == name
    &&& m@[1].0@ == "args"@
    &&& m@[1].1 matches JsonValue::Str(a) && a@ == args
    &&& m@[2].0@ == "success"@
    &&& m@[2].1 == JsonValue::Bool(success)
}

/// `v` is the JSON number `n`.
pub open spec fn seq_value(v: JsonValue, n: u64) -> bool {
    if n <= i64::MAX {
        v == JsonValue::Int(n as i64)
    } else {
        v matches JsonValue::OtherNumber(t) && t@ == dec(n as nat)
    }
}

/// The JSON number `n`.
pub fn u64_json(n: u64) -> (r: JsonValue)
    ensures
        seq_value(r, n),
{
    if n <= i64::MAX as u64 {
        JsonValue::Int(n as i64)
    } else {
        JsonValue::OtherNumber(u64_to_string(n))
    }
}

} // verus!
