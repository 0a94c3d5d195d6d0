//! The model providers' own decisions: where each sends its requests, how a
//! reply becomes an [`LlmResponse`], and how a server-sent event stream is
//! read line by line.
//!
//! The HTTP client and the JSON encoding of requests and replies stay with
//! the caller.
use vstd::prelude::*;
use crate::llm::{LlmError, LlmResponse, StreamChunk, ToolCall, ToolDefinition, Usage};
use crate::text::{
    concat2, concat3, from_chars, spec_starts_with, str_eq, strip_suffixes, strip_suffixes_exec,
    to_chars, trim_spec, trim_str,
};

verus! {

// ─── Errors ──────────────────────────────────────

/// The error for a reply with a failure status, such as `404 Not Found`.
pub fn http_status_error(status: &str, body: &str) -> (r: LlmError)
    ensures
        r matches LlmError::Api(m) && m@ == "HTTP "@ + status@ + ": "@ + body@,
{
    let mut m = concat3("HTTP ", status, ": ");
    m.append(body);
    LlmError::Api(m)
}

// ─── DeepSeek ────────────────────────────────────

/// The DeepSeek chat API.
pub struct DeepSeekProvider {
    api_key: String,
    model: String,
    timeout_secs: u64,
}

/// A choice's message in a DeepSeek reply.
#[derive(Debug, Clone)]
pub struct DeepSeekMessage {
    pub content: Option<String>,
    pub tool_calls: Option<Vec<ToolCall>>,
}

/// A choice in a DeepSeek reply.
#[derive(Debug, Clone)]
pub struct DeepSeekChoice {
    pub message: DeepSeekMessage,
    pub finish_reason: String,
}

/// A DeepSeek chat reply.
#[derive(Debug, Clone)]
pub struct DeepSeekReply {
    pub choices: Vec<DeepSeekChoice>,
    pub usage: Option<Usage>,
}

/// A choice in a streamed DeepSeek delta.
#[derive(Debug, Clone)]
pub struct DeltaChoice {
    pub content: Option<String>,
    pub finish_reason: Option<String>,
}

impl DeepSeekProvider {
    pub closed spec fn key_text(&self) -> Seq<char> {
        self.api_key@
    }

    pub closed spec fn model_text(&self) -> Seq<char> {
        self.model@
    }

    pub closed spec fn timeout(&self) -> u64 {
        self.timeout_secs
    }

    /// A provider for `model` with `api_key`, waiting up to 180 seconds.
    pub fn new(api_key: &str, model: &str) -> (r: Self)
        ensures
            r.key_text() == api_key@,
            r.model_text() == model@,
            r.timeout() == 180,
    {
        DeepSeekProvider { api_key: api_key.to_string(), model: model.to_string(), timeout_secs: 180 }
    }

    /// The same provider waiting up to `secs` seconds.
    pub fn with_timeout(self, secs: u64) -> (r: Self)
        ensures
            r.key_text() == self.key_text(),
            r.model_text() == self.model_text(),
            r.timeout() == secs,
    {
        DeepSeekProvider { timeout_secs: secs, ..self }
    }

    pub fn timeout_secs(&self) -> (r: u64)
        ensures
            r == self.timeout(),
    {
        self.timeout_secs
    }

    pub fn name(&self) -> (r: &'static str)
        ensures
            r@ == "deepseek"@,
    {
        "deepseek"
    }

    pub fn model(&self) -> (r: &str)
        ensures
            r@ == self.model_text(),
    {
        self.model.as_str()
    }

    /// The provider's models: its one model.
    pub fn models(&self) -> (r: Vec<String>)
        ensures
            r@.len() == 1,
            r@[0]@ == self.model_text(),
    {
        let mut v = Vec::new();
        v.push(self.model.clone());
        v
    }

    /// Where chat requests go.
    pub fn endpoint() -> (r: &'static str)
        ensures
            r@ == "https://api.deepseek.com/chat/completions"@,
    {
        "https://api.deepseek.com/chat/completions"
    }

    /// The `Authorization` header value.
    pub fn authorization(&self) -> (r: String)
        ensures
            r@ == "Bearer "@ + self.key_text(),
    {
        concat2("Bearer ", self.api_key.as_str())
    }

    /// A streamed call cannot carry tools: with tools it is made as one
    /// call and handed out as a single chunk.
    pub fn stream_falls_back(tools: &[ToolDefinition]) -> (r: bool)
        ensures
            r == (tools@.len() > 0),
    {
        tools.len() > 0
    }

    /// The reply of a chat call: its first choice's text (empty when it has
    /// none), tool calls and finish reason, and the usage.
    pub fn response_from(reply: DeepSeekReply) -> (r: Result<LlmResponse, LlmError>)
        ensures
            reply.choices@.len() == 0 ==> (r matches Err(LlmError::Api(m)) && m@
                == "No choices returned"@),
            reply.choices@.len() > 0 ==> (r matches Ok(resp) && {
                let c = reply.choices@[0];
                &&& resp.content@ == (match c.message.content {
                    Some(t) => t@,
                    None => Seq::empty(),
                })
                &&& resp.tool_calls@ == (match c.message.tool_calls {
                    Some(v) => v@,
                    None => Seq::empty(),
                })
                &&& resp.finish_reason == c.finish_reason
                &&& resp.usage == reply.usage
            }),
    {
        let DeepSeekReply { choices, usage } = reply;
        if choices.len() == 0 {
            return Err(LlmError::Api("No choices returned".to_string()));
        }
        let mut choices = choices;
        let c = choices.remove(0);
        let DeepSeekChoice { message, finish_reason } = c;
        let content = match message.content {
            Some(t) => t,
            None => String::new(),
        };
        let tool_calls = match message.tool_calls {
            Some(v) => v,
            None => Vec::new(),
        };
        Ok(LlmResponse { content, tool_calls, finish_reason, usage })
    }
}

// ─── Server-sent events ──────────────────────────

/// What a line of an event stream is.
#[derive(Debug)]
pub enum SseLine {
    /// Blank, or not a data line.
    Skip,
    /// `data: [DONE]`: the stream is over.
    Done,
    /// A data line, with what follows `data: `.
    Data(String),
}

/// A trimmed event-stream line's kind.
pub open spec fn sse_kind(t: Seq<char>) -> u8 {
    if t.len() == 0 {
        0
    } else if t == "data: [DONE]"@ {
        1
    } else if spec_starts_with(t, "data: "@) {
        2
    } else {
        0
    }
}

/// Reads a line of an event stream, trimmed.
pub fn classify_sse_line(line: &str) -> (r: SseLine)
    ensures
        sse_kind(trim_spec(line@)) == 0 ==> r is Skip,
        sse_kind(trim_spec(line@)) == 1 ==> r is Done,
        sse_kind(trim_spec(line@)) == 2 ==> (r matches SseLine::Data(d) && d@ == trim_spec(
            line@,
        ).skip("data: "@.len() as int)),
{
    let t = trim_str(line);
    if t.as_str().unicode_len() == 0 {
        return SseLine::Skip;
    }
    if str_eq(t.as_str(), "data: [DONE]") {
        return SseLine::Done;
    }
    let c = to_chars(t.as_str());
    let p = to_chars("data: ");
    if crate::text::starts_with_chars(c.as_slice(), p.as_slice()) {
        let rest = from_chars(&c.as_slice()[p.len()..c.len()]);
        assert(c@.subrange(p@.len() as int, c@.len() as int) == c@.skip(p@.len() as int));
        SseLine::Data(rest)
    } else {
        SseLine::Skip
    }
}

/// `c` is the chunk that ends a stream: no text, no tool calls, finished
/// with `stop`.
pub open spec fn is_done_chunk(c: StreamChunk) -> bool {
    &&& c.content@.len() == 0
    &&& c.tool_calls@.len() == 0
    &&& c.finish_reason matches Some(f) && f@ == "stop"@
}

/// The chunk that ends a stream.
pub fn done_chunk() -> (r: StreamChunk)
    ensures
        is_done_chunk(r),
{
    StreamChunk { content: String::new(), tool_calls: Vec::new(), finish_reason: Some("stop".to_string()) }
}

/// The chunk a streamed delta carries: its first choice's text (empty when
/// there is none) and finish reason.
pub fn delta_chunk(choices: &Vec<DeltaChoice>) -> (r: StreamChunk)
    ensures
        r.tool_calls@.len() == 0,
        choices@.len() == 0 ==> r.content@.len() == 0 && r.finish_reason is None,
        choices@.len() > 0 ==> r.content@ == (match choices@[0].content {
            Some(t) => t@,
            None => Seq::empty(),
        }) && r.finish_reason == choices@[0].finish_reason,
{
    if choices.len() == 0 {
        StreamChunk { content: String::new(), tool_calls: Vec::new(), finish_reason: None }
    } else {
        let content = match &choices[0].content {
            Some(t) => t.clone(),
            None => String::new(),
        };
        StreamChunk { content, tool_calls: Vec::new(), finish_reason: choices[0].finish_reason.clone() }
    }
}

/// The error for a data line that does not parse.
pub fn sse_parse_error(reason: &str, data: &str) -> (r: LlmError)
    ensures
        r matches LlmError::Parse(m) && m@ == "SSE parse error: "@ + reason@ + " line: "@ + data@,
{
    let mut m = concat3("SSE parse error: ", reason, " line: ");
    m.append(data);
    LlmError::Parse(m)
}

/// What the stream reader does with what it read.
#[derive(Debug)]
pub enum SseStep {
    /// Read the next line.
    ReadMore,
    /// Parse this data as a delta and hand out its chunk.
    Parse(String),
    /// Hand out this chunk; the stream is over.
    Finish(StreamChunk),
    /// Hand out nothing more.
    End,
}

/// An event stream being read: once over, it stays over.
pub struct SseStream {
    done: bool,
}

impl SseStream {
    pub closed spec fn is_done(&self) -> bool {
        self.done
    }

    pub fn new() -> (r: Self)
        ensures
            !r.is_done(),
    {
        SseStream { done: false }
    }

    /// Whether the stream is over.
    pub fn done(&self) -> (r: bool)
        ensures
            r == self.is_done(),
    {
        self.done
    }

    /// Reads a line: blank and non-data lines are passed over, `[DONE]`
    /// ends the stream with a final chunk, a data line is handed on to be
    /// parsed. Nothing more comes once the stream is over.
    pub fn on_line(&mut self, line: &str) -> (r: SseStep)
        ensures
            old(self).is_done() ==> r is End && final(self).is_done(),
            !old(self).is_done() ==> {
                let k = sse_kind(trim_spec(line@));
                &&& k == 0 ==> r is ReadMore && !final(self).is_done()
                &&& k == 1 ==> (r matches SseStep::Finish(c) && is_done_chunk(c)) && final(self).is_done()
                &&& k == 2 ==> (r matches SseStep::Parse(d) && d@ == trim_spec(line@).skip(
                    "data: "@.len() as int,
                )) && !final(self).is_done()
            },
    {
        if self.done {
            return SseStep::End;
        }
        match classify_sse_line(line) {
            SseLine::Skip => SseStep::ReadMore,
            SseLine::Done => {
                self.done = true;
                SseStep::Finish(done_chunk())
            },
            SseLine::Data(d) => SseStep::Parse(d),
        }
    }

    /// The stream ended.
    pub fn on_end(&mut self)
        ensures
            final(self).is_done(),
    {
        self.done = true;
    }

    /// Reading failed: the error is handed out and the stream is over.
    pub fn on_read_error(&mut self, reason: &str) -> (r: LlmError)
        ensures
            final(self).is_done(),
            r matches LlmError::Http(m) && m@ == reason@,
    {
        self.done = true;
        LlmError::Http(reason.to_string())
    }
}

// ─── Ollama ──────────────────────────────────────

/// A local Ollama server.
pub struct OllamaProvider {
    base_url: String,
    model: String,
    timeout_secs: u64,
}

impl OllamaProvider {
    pub closed spec fn base_text(&self) -> Seq<char> {
        self.base_url@
    }

    pub closed spec fn model_text(&self) -> Seq<char> {
        self.model@
    }

    pub closed spec fn timeout(&self) -> u64 {
        self.timeout_secs
    }

    /// A provider for `model` at `base_url` (trailing `/` removed), waiting
    /// up to 300 seconds.
    pub fn new(base_url: &str, model: &str) -> (r: Self)
        ensures
            r.base_text() == strip_suffixes(base_url@, "/"@),
            r.model_text() == model@,
            r.timeout() == 300,
    {
        let b = to_chars(base_url);
        let slash = to_chars("/");
        let trimmed = strip_suffixes_exec(b.as_slice(), slash.as_slice());
        OllamaProvider { base_url: from_chars(trimmed.as_slice()), model: model.to_string(), timeout_secs: 300 }
    }

    /// The default local server, `http://localhost:11434`.
    pub fn local(model: &str) -> (r: Self)
        ensures
            r.base_text() == strip_suffixes("http://localhost:11434"@, "/"@),
            r.model_text() == model@,
            r.timeout() == 300,
    {
        Self::new("http://localhost:11434", model)
    }

    /// The same provider waiting up to `secs` seconds.
    pub fn with_timeout(self, secs: u64) -> (r: Self)
        ensures
            r.base_text() == self.base_text(),
            r.model_text() == self.model_text(),
            r.timeout() == secs,
    {
        OllamaProvider { timeout_secs: secs, ..self }
    }

    pub fn timeout_secs(&self) -> (r: u64)
        ensures
            r == self.timeout(),
    {
        self.timeout_secs
    }

    pub fn name(&self) -> (r: &'static str)
        ensures
            r@ == "ollama"@,
    {
        "ollama"
    }

    pub fn model(&self) -> (r: &str)
        ensures
            r@ == self.model_text(),
    {
        self.model.as_str()
    }

    /// The provider's models: its one model.
    pub fn models(&self) -> (r: Vec<String>)
        ensures
            r@.len() == 1,
            r@[0]@ == self.model_text(),
    {
        let mut v = Vec::new();
        v.push(self.model.clone());
        v
    }

    /// Where chat requests go.
    pub fn chat_url(&self) -> (r: String)
        ensures
            r@ == self.base_text() + "/api/chat"@,
    {
        concat2(self.base_url.as_str(), "/api/chat")
    }

    /// Ollama's chat reply: its text, no tool calls, `stop` when done and
    /// `unknown` otherwise, and no usage.
    pub fn response_from(content: String, done: bool) -> (r: LlmResponse)
        ensures
            r.content == content,
            r.tool_calls@.len() == 0,
            r.finish_reason@ == (if done {
                "stop"@
            } else {
                "unknown"@
            }),
            r.usage is None,
    {
        LlmResponse {
            content,
            tool_calls: Vec::new(),
            finish_reason: if done {
                "stop".to_string()
            } else {
                "unknown".to_string()
            },
            usage: None,
        }
    }

    /// Streaming is not offered.
    pub fn stream_unsupported() -> (r: LlmError)
        ensures
            r matches LlmError::Api(m) && m@ == "Streaming not implemented yet"@,
    {
        LlmError::Api("Streaming not implemented yet".to_string())
    }
}

} // verus!
