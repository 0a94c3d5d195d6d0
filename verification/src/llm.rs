//! Chat messages, model responses, usage accounting, prompt assembly, and the
//! decisions of the tool-call loop.
//!
//! Talking to model providers over HTTP, waiting between retries and running
//! tools stay with the caller; the loop's decisions are the state machine
//! [`ToolLoop`].
use vstd::prelude::*;
use crate::json::JsonValue;
use crate::text::{append_str, concat2, concat3, dec, join_strings, join_texts, u64_to_string};

verus! {

// ─── Messages ────────────────────────────────────

/// A chat message.
#[derive(Debug, Clone)]
pub struct Message {
    pub role: String,
    pub content: String,
    pub tool_calls: Option<Vec<ToolCall>>,
    pub tool_call_id: Option<String>,
}

/// A tool call requested by the model.
#[derive(Debug, Clone)]
pub struct ToolCall {
    pub id: String,
    pub call_type: String,
    pub function: ToolCallFunction,
}

/// The function of a tool call: its name and JSON arguments.
#[derive(Debug, Clone)]
pub struct ToolCallFunction {
    pub name: String,
    pub arguments: String,
}

/// A tool as offered to the model (function-calling schema).
#[derive(Debug)]
pub struct ToolDefinition {
    pub def_type: String,
    pub function: ToolFunction,
}

/// The function of a tool definition.
#[derive(Debug)]
pub struct ToolFunction {
    pub name: String,
    pub description: String,
    pub parameters: JsonValue,
}

/// A model's reply.
#[derive(Debug, Clone)]
pub struct LlmResponse {
    pub content: String,
    pub tool_calls: Vec<ToolCall>,
    pub finish_reason: String,
    pub usage: Option<Usage>,
}

/// Token usage of a model call.
#[derive(Debug, Clone, Copy)]
pub struct Usage {
    pub prompt_tokens: u32,
    pub completion_tokens: u32,
    pub total_tokens: u32,
}

/// One piece of a streamed reply.
#[derive(Debug, Clone)]
pub struct StreamChunk {
    pub content: String,
    pub tool_calls: Vec<ToolCall>,
    pub finish_reason: Option<String>,
}

/// Whether `m` is a plain message of `role` with `content`.
pub open spec fn plain_message(m: Message, role: Seq<char>, content: Seq<char>) -> bool {
    m.role@ == role && m.content@ == content && m.tool_calls is None && m.tool_call_id is None
}

impl Message {
    /// A system message.
    pub fn system(content: &str) -> (r: Self)
        ensures
            plain_message(r, "system"@, content@),
    {
        Message {
            role: "system".to_string(),
            content: content.to_string(),
            tool_calls: None,
            tool_call_id: None,
        }
    }

    /// A user message.
    pub fn user(content: &str) -> (r: Self)
        ensures
            plain_message(r, "user"@, content@),
    {
        Message {
            role: "user".to_string(),
            content: content.to_string(),
            tool_calls: None,
            tool_call_id: None,
        }
    }

    /// An assistant message.
    pub fn assistant(content: &str) -> (r: Self)
        ensures
            plain_message(r, "assistant"@, content@),
    {
        Message {
            role: "assistant".to_string(),
            content: content.to_string(),
            tool_calls: None,
            tool_call_id: None,
        }
    }

    /// The result of the tool call `tool_call_id`.
    pub fn tool_result(tool_call_id: &str, content: &str) -> (r: Self)
        ensures
            r.role@ == "tool"@,
            r.content@ == content@,
            r.tool_calls is None,
            r.tool_call_id matches Some(id) && id@ == tool_call_id@,
    {
        Message {
            role: "tool".to_string(),
            content: content.to_string(),
            tool_calls: None,
            tool_call_id: Some(tool_call_id.to_string()),
        }
    }
}

// ─── Errors ──────────────────────────────────────

/// Errors of model calls.
#[derive(Debug)]
pub enum LlmError {
    Http(String),
    Api(String),
    Parse(String),
    Timeout,
    ProviderNotFound(String),
    /// Every attempt failed, with each attempt's error.
    AllRetriesFailed(Vec<String>),
}

/// The display text of a model error.
pub open spec fn llm_error_text(e: LlmError) -> Seq<char> {
    match e {
        LlmError::Http(m) => "HTTP error: "@ + m@,
        LlmError::Api(m) => "API error: "@ + m@,
        LlmError::Parse(m) => "Parse error: "@ + m@,
        LlmError::Timeout => "Request timeout"@,
        LlmError::ProviderNotFound(n) => "Provider '"@ + n@ + "' not found"@,
        LlmError::AllRetriesFailed(v) => "All retries failed ("@ + dec(v@.len()) + " attempts): "@
            + join_texts(v@, "; "@),
    }
}

impl LlmError {
    /// The display text of this error.
    pub fn message(&self) -> (r: String)
        ensures
            r@ == llm_error_text(*self),
    {
        match self {
            LlmError::Http(m) => concat2("HTTP error: ", m.as_str()),
            LlmError::Api(m) => concat2("API error: ", m.as_str()),
            LlmError::Parse(m) => concat2("Parse error: ", m.as_str()),
            LlmError::Timeout => "Request timeout".to_string(),
            LlmError::ProviderNotFound(n) => concat3("Provider '", n.as_str(), "' not found"),
            LlmError::AllRetriesFailed(v) => {
                let mut out = "All retries failed (".to_string();
                append_str(&mut out, u64_to_string(v.len() as u64).as_str());
                append_str(&mut out, " attempts): ");
                append_str(&mut out, join_strings(v, "; ").as_str());
                out
            },
        }
    }
}

// ─── Streams ─────────────────────────────────────

/// A source of reply chunks.
pub trait StreamIterator {
    /// The next chunk, or `None` at the end.
    fn next_chunk(&mut self) -> Option<Result<StreamChunk, LlmError>>;
}

/// A whole reply handed out as one chunk.
#[derive(Debug)]
pub struct SingleChunkStream {
    response: Option<LlmResponse>,
}

impl SingleChunkStream {
    /// A stream of the one reply `response`.
    pub fn new(response: LlmResponse) -> (r: Self)
        ensures
            r.pending() == Some(response),
    {
        SingleChunkStream { response: Some(response) }
    }

    /// The reply not yet handed out.
    pub closed spec fn pending(&self) -> Option<LlmResponse> {
        self.response
    }
}

impl StreamIterator for SingleChunkStream {
    /// The reply as a chunk the first time, then `None`.
    fn next_chunk(&mut self) -> (r: Option<Result<StreamChunk, LlmError>>)
        ensures
            final(self).pending() is None,
            match old(self).pending() {
                Some(resp) => r matches Some(Ok(c)) && c.content == resp.content && c.tool_calls
                    == resp.tool_calls && c.finish_reason == Some(resp.finish_reason),
                None => r is None,
            },
    {
        match self.response.take() {
            Some(resp) => Some(
                Ok(
                    StreamChunk {
                        content: resp.content,
                        tool_calls: resp.tool_calls,
                        finish_reason: Some(resp.finish_reason),
                    },
                ),
            ),
            None => None,
        }
    }
}

// ─── Usage accounting ────────────────────────────

/// Accumulated token usage and call counts.
#[derive(Debug, Clone)]
pub struct FeeTracker {
    pub total_prompt_tokens: u64,
    pub total_completion_tokens: u64,
    pub total_calls: u64,
    pub successful_calls: u64,
    pub failed_calls: u64,
}

impl FeeTracker {
    /// Every call was either a success or a failure.
    pub open spec fn wf(&self) -> bool {
        self.total_calls == self.successful_calls + self.failed_calls
    }

    /// All counters at zero.
    pub fn new() -> (r: Self)
        ensures
            r.total_prompt_tokens == 0 && r.total_completion_tokens == 0 && r.total_calls == 0
                && r.successful_calls == 0 && r.failed_calls == 0,
            r.wf(),
    {
        FeeTracker {
            total_prompt_tokens: 0,
            total_completion_tokens: 0,
            total_calls: 0,
            successful_calls: 0,
            failed_calls: 0,
        }
    }

    /// Counts a successful call and its tokens.
    pub fn record_success(&mut self, usage: &Usage)
        requires
            old(self).total_calls < u64::MAX,
            old(self).successful_calls < u64::MAX,
            old(self).total_prompt_tokens + usage.prompt_tokens <= u64::MAX,
            old(self).total_completion_tokens + usage.completion_tokens <= u64::MAX,
        ensures
            final(self).total_calls == old(self).total_calls + 1,
            final(self).successful_calls == old(self).successful_calls + 1,
            final(self).failed_calls == old(self).failed_calls,
            final(self).total_prompt_tokens == old(self).total_prompt_tokens + usage.prompt_tokens,
            final(self).total_completion_tokens == old(self).total_completion_tokens
                + usage.completion_tokens,
            old(self).wf() ==> final(self).wf(),
    {
        self.total_calls += 1;
        self.successful_calls += 1;
        self.total_prompt_tokens += usage.prompt_tokens as u64;
        self.total_completion_tokens += usage.completion_tokens as u64;
    }

    /// Counts a failed call.
    pub fn record_failure(&mut self)
        requires
            old(self).total_calls < u64::MAX,
            old(self).failed_calls < u64::MAX,
        ensures
            final(self).total_calls == old(self).total_calls + 1,
            final(self).failed_calls == old(self).failed_calls + 1,
            final(self).successful_calls == old(self).successful_calls,
            final(self).total_prompt_tokens == old(self).total_prompt_tokens,
            final(self).total_completion_tokens == old(self).total_completion_tokens,
            old(self).wf() ==> final(self).wf(),
    {
        self.total_calls += 1;
        self.failed_calls += 1;
    }

    /// Sets every counter back to zero.
    pub fn reset(&mut self)
        ensures
            final(self).total_prompt_tokens == 0 && final(self).total_completion_tokens == 0
                && final(self).total_calls == 0 && final(self).successful_calls == 0
                && final(self).failed_calls == 0,
    {
        *self = FeeTracker::new();
    }
}

// ─── Prompt assembly ─────────────────────────────

/// What prompt contributors see of a turn.
#[derive(Debug, Clone)]
pub struct PromptContext {
    pub user_input: String,
    pub conversation_history: Vec<Message>,
    pub available_tools: Vec<String>,
}

/// A source of a system-prompt segment, asked in order of priority.
pub trait PromptContributor {
    /// The priority that `priority` returns. Each implementation states its
    /// own; the default stands only for one that Verus does not read.
    open spec fn priority_spec(&self) -> u8 {
        0
    }

    /// The segment that `contribute` returns for a turn, if any.
    open spec fn segment_spec(&self, ctx: PromptContext) -> Option<Seq<char>> {
        None
    }

    fn id(&self) -> &str;

    /// Higher priorities contribute earlier.
    fn priority(&self) -> (r: u8)
        ensures
            r == self.priority_spec(),
    ;

    /// The segment for this turn, if any.
    fn contribute(&self, ctx: &PromptContext) -> (r: Option<String>)
        ensures
            opt_text(r) == self.segment_spec(*ctx),
    ;
}

/// Assembles the messages of a turn: the system prompt with the contributors'
/// segments, the history, and the user's input. `C` is the contributors'
/// type, usually `dyn PromptContributor`.
pub struct PromptBuilder<C: PromptContributor + ?Sized> {
    contributors: Vec<Box<C>>,
    system_prompt: String,
}

/// The positions of the priorities equal to `p`, in increasing order.
pub open spec fn positions_of(prios: Seq<u8>, p: int) -> Seq<int>
    decreases prios.len(),
{
    if prios.len() == 0 {
        Seq::empty()
    } else if prios.last() == p {
        positions_of(prios.drop_last(), p).push(prios.len() - 1)
    } else {
        positions_of(prios.drop_last(), p)
    }
}

/// The positions ordered by priority from `hi` down to 0, positions of equal
/// priority in their original order (a stable sort, highest first).
pub open spec fn priority_order(prios: Seq<u8>, hi: int) -> Seq<int>
    decreases hi + 1,
{
    if hi < 0 {
        Seq::empty()
    } else {
        positions_of(prios, hi) + priority_order(prios, hi - 1)
    }
}

/// The system prompt followed by each segment that came back, each after a
/// blank line.
pub open spec fn with_segments(system: Seq<char>, segments: Seq<Option<String>>) -> Seq<char>
    decreases segments.len(),
{
    if segments.len() == 0 {
        system
    } else {
        let prev = with_segments(system, segments.drop_last());
        match segments.last() {
            Some(s) => prev + "\n\n"@ + s@,
            None => prev,
        }
    }
}

/// The text of an optional string.
pub open spec fn opt_text(o: Option<String>) -> Option<Seq<char>> {
    match o {
        Some(s) => Some(s@),
        None => None,
    }
}

/// The system prompt followed by each segment text given, each after a
/// blank line.
pub open spec fn with_texts(system: Seq<char>, segments: Seq<Option<Seq<char>>>) -> Seq<char>
    decreases segments.len(),
{
    if segments.len() == 0 {
        system
    } else {
        let prev = with_texts(system, segments.drop_last());
        match segments.last() {
            Some(s) => prev + "\n\n"@ + s,
            None => prev,
        }
    }
}

/// Appending segments depends only on their texts.
pub proof fn lemma_with_texts(system: Seq<char>, segments: Seq<Option<String>>)
    ensures
        with_segments(system, segments) == with_texts(
            system,
            segments.map_values(|o: Option<String>| opt_text(o)),
        ),
    decreases segments.len(),
{
    if segments.len() > 0 {
        lemma_with_texts(system, segments.drop_last());
        assert(segments.map_values(|o: Option<String>| opt_text(o)).drop_last() =~= segments.drop_last().map_values(
            |o: Option<String>| opt_text(o),
        ));
    }
}

/// Whether `r` is the message list of a turn: the system message, the
/// history, then the user's input.
pub open spec fn turn_messages(r: Seq<Message>, system: Seq<char>, ctx: PromptContext) -> bool {
    &&& r.len() == ctx.conversation_history@.len() + 2
    &&& plain_message(r[0], "system"@, system)
    &&& forall|i: int|
        0 <= i < ctx.conversation_history@.len() ==> same_message(
            #[trigger] r[i + 1],
            ctx.conversation_history@[i],
        )
    &&& plain_message(r.last(), "user"@, ctx.user_input@)
}

/// The positions of `prios` equal to `p`, in order.
fn positions_exec(prios: &Vec<u8>, p: u8) -> (r: Vec<usize>)
    ensures
        r@.len() == positions_of(prios@, p as int).len(),
        forall|k: int| 0 <= k < r@.len() ==> #[trigger] r@[k] as int == positions_of(prios@, p as int)[k],
{
    let mut out: Vec<usize> = Vec::new();
    let mut i: usize = 0;
    while i < prios.len()
        invariant
            i <= prios@.len(),
            out@.len() == positions_of(prios@.take(i as int), p as int).len(),
            forall|k: int|
                0 <= k < out@.len() ==> #[trigger] out@[k] as int == positions_of(
                    prios@.take(i as int),
                    p as int,
                )[k],
        decreases prios@.len() - i,
    {
        assert(prios@.take(i + 1).drop_last() == prios@.take(i as int));
        assert(prios@.take(i + 1).last() == prios@[i as int]);
        if prios[i] == p {
            out.push(i);
        }
        i += 1;
    }
    assert(prios@.take(prios@.len() as int) == prios@);
    out
}

/// Every position in a priority order is a position of the list.
pub proof fn lemma_priority_order_bounds(prios: Seq<u8>, hi: int)
    ensures
        forall|k: int|
            0 <= k < priority_order(prios, hi).len() ==> 0 <= #[trigger] priority_order(prios, hi)[k]
                < prios.len(),
    decreases hi + 1,
{
    if hi >= 0 {
        lemma_positions_bounds(prios, hi);
        lemma_priority_order_bounds(prios, hi - 1);
        let a = positions_of(prios, hi);
        let b = priority_order(prios, hi - 1);
        assert forall|k: int| 0 <= k < (a + b).len() implies 0 <= #[trigger] (a + b)[k] < prios.len() by {
            if k < a.len() {
                assert((a + b)[k] == a[k]);
            } else {
                assert((a + b)[k] == b[k - a.len()]);
            }
        }
    }
}

proof fn lemma_positions_bounds(prios: Seq<u8>, p: int)
    ensures
        forall|k: int|
            0 <= k < positions_of(prios, p).len() ==> 0 <= #[trigger] positions_of(prios, p)[k]
                < prios.len(),
    decreases prios.len(),
{
    if prios.len() > 0 {
        lemma_positions_bounds(prios.drop_last(), p);
        let a = positions_of(prios.drop_last(), p);
        assert forall|k: int| 0 <= k < positions_of(prios, p).len() implies 0
            <= #[trigger] positions_of(prios, p)[k] < prios.len() by {
            if k < a.len() {
                assert(positions_of(prios, p)[k] == a[k]);
            }
        }
    }
}

/// The positions of `prios` ordered by priority, highest first, equal
/// priorities in their original order (a stable sort).
pub fn order_by_priority(prios: &Vec<u8>) -> (r: Vec<usize>)
    ensures
        r@.len() == priority_order(prios@, 255).len(),
        forall|k: int| 0 <= k < r@.len() ==> #[trigger] r@[k] as int == priority_order(prios@, 255)[k],
        forall|k: int| 0 <= k < r@.len() ==> #[trigger] r@[k] < prios@.len(),
{
    proof {
        lemma_priority_order_bounds(prios@, 255);
    }
    let mut out: Vec<usize> = Vec::new();
    let mut p: u16 = 256;
    while p > 0
        invariant
            p <= 256,
            out@.len() + priority_order(prios@, p - 1).len() == priority_order(prios@, 255).len(),
            forall|k: int|
                0 <= k < out@.len() ==> #[trigger] out@[k] as int == priority_order(prios@, 255)[k],
            priority_order(prios@, 255) =~= out@.map_values(|x: usize| x as int) + priority_order(
                prios@,
                p - 1,
            ),
        decreases p,
    {
        p -= 1;
        let pos = positions_exec(prios, p as u8);
        let ghost rest = priority_order(prios@, p - 1);
        assert(priority_order(prios@, p as int) == positions_of(prios@, p as int) + rest);
        let ghost start = out@.map_values(|x: usize| x as int);
        let mut k: usize = 0;
        while k < pos.len()
            invariant
                k <= pos@.len(),
                pos@.len() == positions_of(prios@, p as int).len(),
                forall|j: int|
                    0 <= j < pos@.len() ==> #[trigger] pos@[j] as int == positions_of(
                        prios@,
                        p as int,
                    )[j],
                out@.map_values(|x: usize| x as int) == start + positions_of(prios@, p as int).take(
                    k as int,
                ),
            decreases pos@.len() - k,
        {
            let ghost prev = out@;
            out.push(pos[k]);
            assert(out@ == prev.push(pos@[k as int]));
            assert(out@.map_values(|x: usize| x as int) =~= prev.map_values(|x: usize| x as int).push(
                pos@[k as int] as int,
            ));
            assert(positions_of(prios@, p as int).take(k + 1) =~= positions_of(
                prios@,
                p as int,
            ).take(k as int).push(positions_of(prios@, p as int)[k as int]));
            assert(out@.map_values(|x: usize| x as int) =~= start + positions_of(
                prios@,
                p as int,
            ).take(k + 1));
            k += 1;
        }
        assert(positions_of(prios@, p as int).take(pos@.len() as int) == positions_of(
            prios@,
            p as int,
        ));
        assert(out@.map_values(|x: usize| x as int) + rest =~= start + (positions_of(prios@, p as int) + rest));
        assert forall|j: int| 0 <= j < out@.len() implies #[trigger] out@[j] as int
            == priority_order(prios@, 255)[j] by {
            assert(out@.map_values(|x: usize| x as int)[j] == out@[j] as int);
        }
    }
    assert(priority_order(prios@, -1) == Seq::<int>::empty());
    proof {
        assert forall|k: int| 0 <= k < out@.len() implies #[trigger] out@[k] < prios@.len() by {
            assert(out@[k] as int == priority_order(prios@, 255)[k]);
        }
    }
    out
}

impl<C: PromptContributor + ?Sized> PromptBuilder<C> {
    /// A builder with the base system prompt and no contributors.
    pub fn new(system_prompt: &str) -> (r: Self)
        ensures
            r.system_prompt_text() == system_prompt@,
            r.contributor_count() == 0,
    {
        PromptBuilder { contributors: Vec::new(), system_prompt: system_prompt.to_string() }
    }

    /// The base system prompt.
    pub closed spec fn system_prompt_text(&self) -> Seq<char> {
        self.system_prompt@
    }

    /// The number of contributors.
    pub closed spec fn contributor_count(&self) -> nat {
        self.contributors@.len()
    }

    /// The contributors, in registration order.
    pub closed spec fn contributors_view(&self) -> Seq<Box<C>> {
        self.contributors@
    }

    /// The contributors' priorities, in registration order.
    pub open spec fn priorities(&self) -> Seq<u8> {
        self.contributors_view().map_values(|c: Box<C>| c.priority_spec())
    }

    /// The segments a turn with `ctx` gets: the contributors' segments in
    /// order of priority, highest first, equal priorities in registration
    /// order.
    pub open spec fn contributions(&self, ctx: PromptContext) -> Seq<Option<Seq<char>>> {
        let order = priority_order(self.priorities(), 255);
        Seq::new(order.len(), |k: int| self.contributors_view()[order[k]].segment_spec(ctx))
    }

    /// Adds a contributor.
    pub fn register(&mut self, contributor: Box<C>)
        ensures
            final(self).system_prompt_text() == old(self).system_prompt_text(),
            final(self).contributor_count() == old(self).contributor_count() + 1,
            final(self).contributors_view() == old(self).contributors_view().push(contributor),
    {
        self.contributors.push(contributor);
    }

    /// Replaces the base system prompt.
    pub fn set_system_prompt(&mut self, prompt: &str)
        ensures
            final(self).system_prompt_text() == prompt@,
            final(self).contributor_count() == old(self).contributor_count(),
            final(self).contributors_view() == old(self).contributors_view(),
    {
        self.system_prompt = prompt.to_string();
    }

    /// The order in which [`PromptBuilder::build`] asks the contributors:
    /// each is asked its priority once, in registration order, and the
    /// positions are ordered as [`order_by_priority`] orders them.
    pub fn contribution_order(&self) -> (r: Vec<usize>)
        ensures
            r@.len() == priority_order(self.priorities(), 255).len(),
            forall|k: int|
                0 <= k < r@.len() ==> #[trigger] r@[k] as int == priority_order(self.priorities(), 255)[k],
            forall|k: int| 0 <= k < r@.len() ==> #[trigger] r@[k] < self.contributor_count(),
    {
        let mut prios: Vec<u8> = Vec::new();
        let mut i: usize = 0;
        while i < self.contributors.len()
            invariant
                i <= self.contributors@.len(),
                prios@ == self.contributors@.take(i as int).map_values(|c: Box<C>| c.priority_spec()),
            decreases self.contributors@.len() - i,
        {
            let p = self.contributors[i].priority();
            proof {
                assert(self.contributors@.take(i + 1).map_values(|c: Box<C>| c.priority_spec())
                    =~= self.contributors@.take(i as int).map_values(|c: Box<C>| c.priority_spec()).push(p));
            }
            prios.push(p);
            i += 1;
        }
        assert(self.contributors@.take(self.contributors@.len() as int) == self.contributors@);
        assert(prios@ == self.priorities());
        order_by_priority(&prios)
    }

    /// The messages of a turn: the system prompt followed by the
    /// contributors' segments for `ctx` (see
    /// [`PromptBuilder::contributions`]), the history, and the user's input.
    pub fn build(&self, ctx: &PromptContext) -> (r: Vec<Message>)
        ensures
            turn_messages(r@, with_texts(self.system_prompt_text(), self.contributions(*ctx)), *ctx),
    {
        let order = self.contribution_order();
        let mut segments: Vec<Option<String>> = Vec::new();
        let mut k: usize = 0;
        while k < order.len()
            invariant
                k <= order@.len(),
                segments@.len() == k,
                order@.len() == priority_order(self.priorities(), 255).len(),
                forall|j: int| 0 <= j < order@.len() ==> #[trigger] order@[j] < self.contributors@.len(),
                forall|j: int|
                    0 <= j < order@.len() ==> #[trigger] order@[j] as int == priority_order(self.priorities(), 255)[j],
                forall|j: int|
                    0 <= j < k ==> #[trigger] opt_text(segments@[j]) == self.contributions(*ctx)[j],
            decreases order@.len() - k,
        {
            let seg = self.contributors[order[k]].contribute(ctx);
            segments.push(seg);
            k += 1;
        }
        assert(segments@.map_values(|o: Option<String>| opt_text(o)) =~= self.contributions(*ctx));
        proof {
            lemma_with_texts(self.system_prompt_text(), segments@);
        }
        assemble(self.system_prompt.as_str(), &segments, ctx)
    }
}

/// A copy of a tool call.
pub fn copy_tool_call(c: &ToolCall) -> (r: ToolCall)
    ensures
        r == *c,
{
    ToolCall {
        id: c.id.clone(),
        call_type: c.call_type.clone(),
        function: ToolCallFunction {
            name: c.function.name.clone(),
            arguments: c.function.arguments.clone(),
        },
    }
}

/// A copy of a list of tool calls.
pub fn copy_tool_calls(v: &Vec<ToolCall>) -> (r: Vec<ToolCall>)
    ensures
        r@ == v@,
{
    let mut out: Vec<ToolCall> = Vec::new();
    let mut i: usize = 0;
    while i < v.len()
        invariant
            i <= v@.len(),
            out@ == v@.take(i as int),
        decreases v@.len() - i,
    {
        out.push(copy_tool_call(&v[i]));
        assert(out@ =~= v@.take(i + 1));
        i += 1;
    }
    assert(v@.take(v@.len() as int) == v@);
    out
}

/// Whether two messages have the same role, content, tool calls and tool
/// call id.
pub open spec fn same_message(a: Message, b: Message) -> bool {
    &&& a.role == b.role
    &&& a.content == b.content
    &&& a.tool_call_id == b.tool_call_id
    &&& match (a.tool_calls, b.tool_calls) {
        (None, None) => true,
        (Some(x), Some(y)) => x@ == y@,
        _ => false,
    }
}

/// A copy of a message.
pub fn copy_message(m: &Message) -> (r: Message)
    ensures
        same_message(r, *m),
{
    Message {
        role: m.role.clone(),
        content: m.content.clone(),
        tool_calls: match &m.tool_calls {
            Some(v) => Some(copy_tool_calls(v)),
            None => None,
        },
        tool_call_id: match &m.tool_call_id {
            Some(t) => Some(t.clone()),
            None => None,
        },
    }
}

/// The messages of a turn from the segments that the contributors gave, in
/// the order they were asked.
pub fn assemble(system_prompt: &str, segments: &Vec<Option<String>>, ctx: &PromptContext) -> (r: Vec<Message>)
    ensures
        turn_messages(r@, with_segments(system_prompt@, segments@), *ctx),
{
    let mut system = system_prompt.to_string();
    let mut k: usize = 0;
    while k < segments.len()
        invariant
            k <= segments@.len(),
            system@ == with_segments(system_prompt@, segments@.take(k as int)),
        decreases segments@.len() - k,
    {
        assert(segments@.take(k + 1).drop_last() == segments@.take(k as int));
        assert(segments@.take(k + 1).last() == segments@[k as int]);
        match &segments[k] {
            Some(s) => {
                append_str(&mut system, "\n\n");
                append_str(&mut system, s.as_str());
            },
            None => {},
        }
        k += 1;
    }
    assert(segments@.take(segments@.len() as int) == segments@);
    let mut out: Vec<Message> = Vec::new();
    out.push(Message::system(system.as_str()));
    let mut h: usize = 0;
    while h < ctx.conversation_history.len()
        invariant
            h <= ctx.conversation_history@.len(),
            out@.len() == h + 1,
            plain_message(out@[0], "system"@, system@),
            forall|j: int|
                0 <= j < h ==> same_message(#[trigger] out@[j + 1], ctx.conversation_history@[j]),
        decreases ctx.conversation_history@.len() - h,
    {
        out.push(copy_message(&ctx.conversation_history[h]));
        h += 1;
    }
    out.push(Message::user(ctx.user_input.as_str()));
    out
}

// ─── The tool-call loop ──────────────────────────

/// One tool call that the loop ran.
#[derive(Debug, Clone)]
pub struct ToolCallRecord {
    pub tool_name: String,
    pub arguments: String,
    pub result: String,
    pub success: bool,
}

/// What the tool-call loop ends with.
#[derive(Debug, Clone)]
pub struct ToolLoopResult {
    pub content: String,
    pub call_history: Vec<ToolCallRecord>,
    /// Model rounds that ran.
    pub rounds: u32,
    /// Token usage summed over the rounds.
    pub usage: Usage,
}

/// Settings of the tool-call loop. Waiting between retries of a model call
/// stays with the caller.
#[derive(Debug, Clone, Copy)]
pub struct ToolCallLoop {
    max_rounds: u32,
}

/// What the caller does next for the loop.
#[derive(Debug)]
pub enum LoopStep {
    /// Ask the model with the loop's messages.
    Chat,
    /// Run these tool calls and report their results.
    RunTools(Vec<ToolCall>),
    /// The loop is over.
    Done(ToolLoopResult),
}

/// What to do after a model call failed.
#[derive(Debug)]
pub enum RetryStep {
    /// Wait the back-off for this retry number, then call again.
    Retry { attempt: u32 },
    /// Stop: every attempt failed.
    GiveUp(LlmError),
}

/// The attempts of one model call: the first and up to `max_retries`
/// retries, with each failure's text.
pub struct RetryTracker {
    max_retries: u32,
    attempt: u32,
    errors: Vec<String>,
}

impl RetryTracker {
    pub closed spec fn max(&self) -> u32 {
        self.max_retries
    }

    /// The failed attempts so far.
    pub closed spec fn attempt_no(&self) -> u32 {
        self.attempt
    }

    /// The failures' texts so far.
    pub closed spec fn failures(&self) -> Seq<Seq<char>> {
        self.errors@.map_values(|e: String| e@)
    }

    /// The tracker's invariant: one failure per attempt made.
    pub closed spec fn wf(&self) -> bool {
        self.attempt <= self.max_retries && self.errors@.len() == self.attempt
    }

    /// Before the first attempt.
    pub fn new(max_retries: u32) -> (r: Self)
        ensures
            r.wf(),
            r.max() == max_retries,
            r.attempt_no() == 0,
            r.failures() == Seq::<Seq<char>>::empty(),
    {
        let r = RetryTracker { max_retries, attempt: 0, errors: Vec::new() };
        assert(r.failures() =~= Seq::<Seq<char>>::empty());
        r
    }

    /// Records a failed attempt: while retries remain the call is made
    /// again after the back-off for this attempt; after the last, every
    /// failure is reported together.
    pub fn on_error(&mut self, e: &LlmError) -> (r: RetryStep)
        requires
            old(self).wf(),
        ensures
            final(self).max() == old(self).max(),
            old(self).attempt_no() < old(self).max() ==> final(self).wf() && (r matches RetryStep::Retry { attempt }
                && attempt == old(self).attempt_no()) && final(self).attempt_no() == old(self).attempt_no() + 1
                && final(self).failures() == old(self).failures().push(llm_error_text(*e)),
            old(self).attempt_no() == old(self).max() ==> (r matches RetryStep::GiveUp(
                LlmError::AllRetriesFailed(v),
            ) && v@.map_values(|s: String| s@) == old(self).failures().push(llm_error_text(*e))),
    {
        let ghost before = self.errors@;
        let text = e.message();
        if self.attempt < self.max_retries {
            self.errors.push(text);
            self.attempt = self.attempt + 1;
            assert(self.failures() =~= old(self).failures().push(llm_error_text(*e)));
            RetryStep::Retry { attempt: self.attempt - 1 }
        } else {
            let mut all = self.errors.clone();
            all.push(text);
            assert(all@.map_values(|s: String| s@) =~= old(self).failures().push(llm_error_text(*e)));
            RetryStep::GiveUp(LlmError::AllRetriesFailed(all))
        }
    }
}

/// The message that follows a round of tool results.
pub open spec fn guidance_text() -> Seq<char> {
    "工具调用已完成。请基于以上工具返回结果，直接回复用户。不要复述工具调用过程。"@
}

/// The state of one run of the tool-call loop.
#[derive(Debug)]
pub struct ToolLoop {
    messages: Vec<Message>,
    history: Vec<ToolCallRecord>,
    usage: Usage,
    round: u32,
    max_rounds: u32,
    last: bool,
    finished: bool,
}

impl ToolCallLoop {
    /// At most 10 rounds.
    pub fn new() -> (r: Self)
        ensures
            r.rounds_limit() == 10,
    {
        ToolCallLoop { max_rounds: 10 }
    }

    /// The same loop with at most `rounds` rounds.
    pub fn with_max_rounds(self, rounds: u32) -> (r: Self)
        ensures
            r.rounds_limit() == rounds,
    {
        ToolCallLoop { max_rounds: rounds }
    }

    /// The most rounds of tool calls.
    pub closed spec fn rounds_limit(&self) -> u32 {
        self.max_rounds
    }

    /// The most rounds of tool calls.
    pub fn max_rounds(&self) -> (r: u32)
        ensures
            r == self.rounds_limit(),
    {
        self.max_rounds
    }

    /// A run of the loop on `messages`; its first step is to ask the model.
    pub fn start(&self, messages: Vec<Message>) -> (r: ToolLoop)
        ensures
            r.wf(),
            r.msgs() == messages@,
            r.hist() == Seq::<ToolCallRecord>::empty(),
            r.total_usage() == (Usage { prompt_tokens: 0, completion_tokens: 0, total_tokens: 0 }),
            r.round() == 0,
            r.limit() == self.rounds_limit(),
            r.final_round() == (self.rounds_limit() == 0),
            !r.is_finished(),
    {
        ToolLoop {
            messages,
            history: Vec::new(),
            usage: Usage { prompt_tokens: 0, completion_tokens: 0, total_tokens: 0 },
            round: 0,
            max_rounds: self.max_rounds,
            last: self.max_rounds == 0,
            finished: false,
        }
    }
}

/// Usage summed with the usage of a reply, if it has one.
pub open spec fn add_usage(total: Usage, u: Option<Usage>) -> Usage {
    match u {
        Some(u) => Usage {
            prompt_tokens: (total.prompt_tokens + u.prompt_tokens) as u32,
            completion_tokens: (total.completion_tokens + u.completion_tokens) as u32,
            total_tokens: (total.total_tokens + u.total_tokens) as u32,
        },
        None => total,
    }
}

/// Whether summing the usage fits in `u32` counters.
pub open spec fn usage_fits(total: Usage, u: Option<Usage>) -> bool {
    match u {
        Some(u) => total.prompt_tokens + u.prompt_tokens <= u32::MAX && total.completion_tokens
            + u.completion_tokens <= u32::MAX && total.total_tokens + u.total_tokens <= u32::MAX,
        None => true,
    }
}

/// A reply's usage adds to the loop's totals field by field, and a reply
/// without usage adds nothing: after a reply that is not the last, each
/// total grows by exactly that reply's count.
pub proof fn law_usage_adds_up(total: Usage, u: Usage)
    requires
        usage_fits(total, Some(u)),
    ensures
        add_usage(total, Some(u)).prompt_tokens == total.prompt_tokens + u.prompt_tokens,
        add_usage(total, Some(u)).completion_tokens == total.completion_tokens + u.completion_tokens,
        add_usage(total, Some(u)).total_tokens == total.total_tokens + u.total_tokens,
        add_usage(total, None) == total,
{
}

/// Over a run whose replies carry usages `u1` then `u2`, starting from no
/// usage, the loop's totals are the two usages summed: no round is lost.
pub proof fn law_usage_over_two_rounds(u1: Usage, u2: Usage)
    requires
        u1.prompt_tokens + u2.prompt_tokens <= u32::MAX,
        u1.completion_tokens + u2.completion_tokens <= u32::MAX,
        u1.total_tokens + u2.total_tokens <= u32::MAX,
    ensures
        add_usage(
            add_usage(Usage { prompt_tokens: 0, completion_tokens: 0, total_tokens: 0 }, Some(u1)),
            Some(u2),
        ) == (Usage {
            prompt_tokens: (u1.prompt_tokens + u2.prompt_tokens) as u32,
            completion_tokens: (u1.completion_tokens + u2.completion_tokens) as u32,
            total_tokens: (u1.total_tokens + u2.total_tokens) as u32,
        }),
{
    let zero = Usage { prompt_tokens: 0, completion_tokens: 0, total_tokens: 0 };
    law_usage_adds_up(zero, u1);
    law_usage_adds_up(add_usage(zero, Some(u1)), u2);
}

/// What a tool result reads as in the conversation.
pub open spec fn result_text(r: Result<String, String>) -> Seq<char> {
    match r {
        Ok(c) => c@,
        Err(e) => "Error: "@ + e@,
    }
}

/// Whether `rec` records call `c` with result `r`.
pub open spec fn record_of(c: ToolCall, r: Result<String, String>, rec: ToolCallRecord) -> bool {
    &&& rec.tool_name == c.function.name
    &&& rec.arguments == c.function.arguments
    &&& rec.result@ == result_text(r)
    &&& rec.success == r is Ok
}

/// Whether `m` is the tool message of call `c` with result `r`.
pub open spec fn result_message_of(c: ToolCall, r: Result<String, String>, m: Message) -> bool {
    &&& m.role@ == "tool"@
    &&& m.content@ == result_text(r)
    &&& m.tool_calls is None
    &&& m.tool_call_id matches Some(id) && id@ == c.id@
}

impl ToolLoop {
    /// The conversation so far.
    pub closed spec fn msgs(&self) -> Seq<Message> {
        self.messages@
    }

    /// The tool calls run so far.
    pub closed spec fn hist(&self) -> Seq<ToolCallRecord> {
        self.history@
    }

    /// The usage summed so far.
    pub closed spec fn total_usage(&self) -> Usage {
        self.usage
    }

    /// Rounds of tool calls completed.
    pub closed spec fn round(&self) -> u32 {
        self.round
    }

    /// The most rounds of tool calls.
    pub closed spec fn limit(&self) -> u32 {
        self.max_rounds
    }

    /// Whether the loop has returned its result.
    pub closed spec fn is_finished(&self) -> bool {
        self.finished
    }

    /// The loop's invariant: it never runs more rounds than its limit, and
    /// its next reply is the last exactly when the limit is reached.
    pub closed spec fn wf(&self) -> bool {
        self.round <= self.max_rounds && (self.last <==> self.round == self.max_rounds)
    }

    /// Whether the next reply ends the loop whatever it holds.
    pub closed spec fn final_round(&self) -> bool {
        self.last
    }

    /// The messages to send to the model.
    pub fn messages(&self) -> (r: &Vec<Message>)
        ensures
            r@ == self.msgs(),
    {
        &self.messages
    }

    /// Takes the model's reply. After the last round it ends the loop with
    /// the reply's text; otherwise it adds the reply's usage and either ends
    /// the loop (no tool calls) or records the reply and asks for its tool
    /// calls to be run.
    pub fn on_response(&mut self, resp: LlmResponse) -> (r: LoopStep)
        requires
            old(self).wf(),
            !old(self).is_finished(),
            !old(self).final_round() ==> usage_fits(old(self).total_usage(), resp.usage),
        ensures
            final(self).wf(),
            final(self).limit() == old(self).limit(),
            final(self).round() == old(self).round(),
            !final(self).is_finished() ==> final(self).hist() == old(self).hist(),
            old(self).final_round() ==> final(self).is_finished() && (r matches LoopStep::Done(res)
                && res.content == resp.content && res.call_history@ == old(self).hist()
                && res.rounds == old(self).limit() && res.usage == old(self).total_usage()),
            !old(self).final_round() ==> final(self).total_usage() == add_usage(
                old(self).total_usage(),
                resp.usage,
            ),
            !old(self).final_round() && resp.tool_calls@.len() == 0 ==> final(self).is_finished() && (
            r matches LoopStep::Done(res) && res.content == resp.content && res.call_history@
                == old(self).hist() && res.rounds == old(self).round() + 1 && res.usage == add_usage(
                old(self).total_usage(),
                resp.usage,
            )),
            !old(self).final_round() && resp.tool_calls@.len() > 0 ==> !final(self).is_finished() && (
            r matches LoopStep::RunTools(calls) && calls@ == resp.tool_calls@) && final(self).msgs()
                == old(self).msgs().push(
                Message {
                    role: final(self).msgs().last().role,
                    content: resp.content,
                    tool_calls: Some(resp.tool_calls),
                    tool_call_id: None,
                },
            ) && final(self).msgs().last().role@ == "assistant"@,
    {
        if self.last {
            self.finished = true;
            let mut history = Vec::new();
            std::mem::swap(&mut history, &mut self.history);
            let res = ToolLoopResult {
                content: resp.content,
                call_history: history,
                rounds: self.max_rounds,
                usage: self.usage,
            };
            return LoopStep::Done(res);
        }
        match resp.usage {
            Some(u) => {
                self.usage = Usage {
                    prompt_tokens: self.usage.prompt_tokens + u.prompt_tokens,
                    completion_tokens: self.usage.completion_tokens + u.completion_tokens,
                    total_tokens: self.usage.total_tokens + u.total_tokens,
                };
            },
            None => {},
        }
        if resp.tool_calls.len() == 0 {
            self.finished = true;
            let mut history = Vec::new();
            std::mem::swap(&mut history, &mut self.history);
            let res = ToolLoopResult {
                content: resp.content,
                call_history: history,
                rounds: self.round + 1,
                usage: self.usage,
            };
            return LoopStep::Done(res);
        }
        let calls = copy_tool_calls(&resp.tool_calls);
        self.messages.push(
            Message {
                role: "assistant".to_string(),
                content: resp.content,
                tool_calls: Some(resp.tool_calls),
                tool_call_id: None,
            },
        );
        LoopStep::RunTools(calls)
    }

    /// Takes the results of the tool calls that the last reply asked for,
    /// in order: each is recorded and added to the conversation as a tool
    /// message, then a note asks the model to answer from them. One more
    /// round has then run; the next reply is the last when the limit is
    /// reached.
    pub fn on_tool_results(&mut self, calls: &Vec<ToolCall>, results: Vec<Result<String, String>>) -> (r: LoopStep)
        requires
            old(self).wf(),
            !old(self).is_finished(),
            !old(self).final_round(),
            results@.len() == calls@.len(),
        ensures
            final(self).wf(),
            r is Chat,
            !final(self).is_finished(),
            final(self).limit() == old(self).limit(),
            final(self).round() == old(self).round() + 1,
            final(self).final_round() == (final(self).round() == final(self).limit()),
            final(self).total_usage() == old(self).total_usage(),
            final(self).hist().len() == old(self).hist().len() + calls@.len(),
            final(self).hist().take(old(self).hist().len() as int) == old(self).hist(),
            forall|k: int|
                0 <= k < calls@.len() ==> record_of(
                    calls@[k],
                    results@[k],
                    #[trigger] final(self).hist()[old(self).hist().len() + k],
                ),
            final(self).msgs().len() == old(self).msgs().len() + calls@.len() + 1,
            final(self).msgs().take(old(self).msgs().len() as int) == old(self).msgs(),
            forall|k: int|
                0 <= k < calls@.len() ==> result_message_of(
                    calls@[k],
                    results@[k],
                    #[trigger] final(self).msgs()[old(self).msgs().len() + k],
                ),
            plain_message(final(self).msgs().last(), "system"@, guidance_text()),
    {
        let ghost h0 = self.history@;
        let ghost m0 = self.messages@;
        let mut i: usize = 0;
        while i < calls.len()
            invariant
                i <= calls@.len(),
                results@.len() == calls@.len(),
                self.history@.len() == h0.len() + i,
                self.history@.take(h0.len() as int) == h0,
                self.messages@.len() == m0.len() + i,
                self.messages@.take(m0.len() as int) == m0,
                forall|k: int|
                    0 <= k < i ==> record_of(
                        calls@[k],
                        results@[k],
                        #[trigger] self.history@[h0.len() + k],
                    ),
                forall|k: int|
                    0 <= k < i ==> result_message_of(
                        calls@[k],
                        results@[k],
                        #[trigger] self.messages@[m0.len() + k],
                    ),
                self.round == old(self).round,
                self.max_rounds == old(self).max_rounds,
                self.last == old(self).last,
                self.finished == old(self).finished,
                self.usage == old(self).usage,
            decreases calls@.len() - i,
        {
            let c = &calls[i];
            let (text, ok) = match &results[i] {
                Ok(t) => (t.clone(), true),
                Err(e) => (concat2("Error: ", e.as_str()), false),
            };
            let ghost hb = self.history@;
            let ghost mb = self.messages@;
            self.history.push(
                ToolCallRecord {
                    tool_name: c.function.name.clone(),
                    arguments: c.function.arguments.clone(),
                    result: text.clone(),
                    success: ok,
                },
            );
            self.messages.push(Message::tool_result(c.id.as_str(), text.as_str()));
            assert(self.history@.take(h0.len() as int) =~= hb.take(h0.len() as int));
            assert(self.messages@.take(m0.len() as int) =~= mb.take(m0.len() as int));
            assert forall|k: int| 0 <= k < i + 1 implies record_of(
                calls@[k],
                results@[k],
                #[trigger] self.history@[h0.len() + k],
            ) by {
                if k < i {
                    assert(self.history@[h0.len() + k] == hb[h0.len() + k]);
                }
            }
            assert forall|k: int| 0 <= k < i + 1 implies result_message_of(
                calls@[k],
                results@[k],
                #[trigger] self.messages@[m0.len() + k],
            ) by {
                if k < i {
                    assert(self.messages@[m0.len() + k] == mb[m0.len() + k]);
                }
            }
            i += 1;
        }
        let ghost mb = self.messages@;
        self.messages.push(
            Message::system("工具调用已完成。请基于以上工具返回结果，直接回复用户。不要复述工具调用过程。"),
        );
        assert(self.messages@.take(m0.len() as int) =~= mb.take(m0.len() as int));
        assert forall|k: int| 0 <= k < calls@.len() implies result_message_of(
            calls@[k],
            results@[k],
            #[trigger] self.messages@[m0.len() + k],
        ) by {
            assert(self.messages@[m0.len() + k] == mb[m0.len() + k]);
        }
        self.round = self.round + 1;
        self.last = self.round == self.max_rounds;
        LoopStep::Chat
    }
}

/// The loop never runs more rounds of tool calls than its limit, and the
/// reply after the last allowed round ends it: the model is asked at most
/// the limit plus one times.
pub proof fn law_loop_bounded(l: ToolLoop)
    requires
        l.wf(),
    ensures
        l.round() <= l.limit(),
        l.final_round() <==> l.round() == l.limit(),
{
}

// ─── Providers ───────────────────────────────────

/// A model provider.
pub trait LLMProvider {
    /// The name that `name` returns. Each implementation states its own;
    /// the default stands only for one that Verus does not read.
    open spec fn name_spec(&self) -> Seq<char> {
        Seq::empty()
    }

    fn name(&self) -> (r: &str)
        ensures
            r@ == self.name_spec(),
    ;

    /// One chat call.
    fn chat(&self, messages: &[Message], tools: &[ToolDefinition]) -> Result<LlmResponse, LlmError>;

    /// One streamed chat call.
    fn chat_stream(&self, messages: &[Message], tools: &[ToolDefinition]) -> Result<
        Box<dyn StreamIterator>,
        LlmError,
    >;

    /// The provider's models.
    fn models(&self) -> Vec<String>;

    /// The largest context, in tokens, that `max_context_tokens` returns;
    /// 128000 for a provider that sets no other.
    open spec fn max_context_spec(&self) -> u32 {
        128000
    }

    /// The largest context, in tokens; 128000 unless the provider says
    /// otherwise.
    fn max_context_tokens(&self) -> (r: u32)
        ensures
            r == self.max_context_spec(),
    ;
}

/// The providers by name, and which one is the default. `P` is the
/// providers' type, usually `dyn LLMProvider`.
pub struct ProviderRegistry<P: LLMProvider + ?Sized> {
    providers: Vec<(String, Box<P>)>,
    default: Option<String>,
}

impl<P: LLMProvider + ?Sized> ProviderRegistry<P> {
    /// The names of the registered providers.
    pub closed spec fn names(&self) -> Set<Seq<char>> {
        crate::kv::kv_map(self.providers@).dom()
    }

    /// The registered providers by name.
    pub closed spec fn provider_map(&self) -> Map<Seq<char>, Box<P>> {
        crate::kv::kv_map(self.providers@)
    }

    /// What the default provider reports as its name, if there is a
    /// default.
    pub open spec fn default_provider_name(&self) -> Option<Seq<char>> {
        match self.default_name() {
            Some(d) => Some(self.provider_map()[d].name_spec()),
            None => None,
        }
    }

    /// The names of the registered providers, in registration order.
    pub closed spec fn name_list(&self) -> Seq<String> {
        self.providers@.map_values(|p: (String, Box<P>)| p.0)
    }

    /// The default provider's name, if one was chosen.
    pub closed spec fn default_name(&self) -> Option<Seq<char>> {
        match self.default {
            Some(d) => Some(d@),
            None => None,
        }
    }

    /// The registry's invariant: each name is registered once, and the
    /// default is a registered name.
    #[verifier::type_invariant]
    spec fn inv(&self) -> bool {
        &&& crate::kv::keys_distinct(self.providers@)
        &&& match self.default {
            Some(d) => self.names().contains(d@),
            None => true,
        }
    }

    /// No providers and no default.
    pub fn new() -> (r: Self)
        ensures
            r.names() == Set::<Seq<char>>::empty(),
            r.default_name() is None,
    {
        let r = ProviderRegistry { providers: Vec::new(), default: None };
        assert(r.names() =~= Set::<Seq<char>>::empty());
        r
    }

    /// Registers `provider` under `name`, replacing one of that name.
    pub fn register(&mut self, name: &str, provider: Box<P>)
        ensures
            final(self).names() == old(self).names().insert(name@),
            final(self).provider_map() == old(self).provider_map().insert(name@, provider),
            final(self).default_name() == old(self).default_name(),
    {
        proof {
            use_type_invariant(&*self);
        }
        let mut default: Option<String> = None;
        std::mem::swap(&mut default, &mut self.default);
        let mut providers: Vec<(String, Box<P>)> = Vec::new();
        std::mem::swap(&mut providers, &mut self.providers);
        let ghost before = providers@;
        assert(before == old(self).providers@);
        proof {
            crate::kv::lemma_kv_map(before);
        }
        match crate::kv::kv_find(&providers, name) {
            Some(p) => {
                providers.set(p, (providers[p].0.clone(), provider));
                proof {
                    let v = providers@[p as int].1;
                    assert(providers@ =~= before.update(p as int, (before[p as int].0, v)));
                    crate::kv::lemma_kv_update(before, p as int, v);
                }
            },
            None => {
                let key = name.to_string();
                let ghost k = key;
                providers.push((key, provider));
                proof {
                    let v = providers@.last().1;
                    assert(providers@ == before.push((k, v)));
                    crate::kv::lemma_kv_push(before, k, v);
                }
            },
        }
        self.providers = providers;
        assert(self.names() =~= old(self).names().insert(name@));
        self.default = default;
    }

    /// Makes `name` the default; an unknown name is refused and the default
    /// stays.
    pub fn set_default(&mut self, name: &str) -> (r: Result<(), LlmError>)
        ensures
            final(self).names() == old(self).names(),
            final(self).provider_map() == old(self).provider_map(),
            old(self).names().contains(name@) ==> r is Ok && final(self).default_name() == Some(
                name@,
            ),
            !old(self).names().contains(name@) ==> (r matches Err(LlmError::ProviderNotFound(n))
                && n@ == name@) && final(self).default_name() == old(self).default_name(),
    {
        proof {
            use_type_invariant(&*self);
        }
        proof {
            crate::kv::lemma_kv_map(self.providers@);
        }
        if crate::kv::kv_find(&self.providers, name).is_some() {
            self.default = Some(name.to_string());
            Ok(())
        } else {
            Err(LlmError::ProviderNotFound(name.to_string()))
        }
    }

    /// The provider named `name`.
    pub fn get(&self, name: &str) -> (r: Option<&P>)
        ensures
            r is Some <==> self.names().contains(name@),
            r matches Some(p) ==> p == &*self.provider_map()[name@],
            self.names() == self.provider_map().dom(),
    {
        proof {
            use_type_invariant(&*self);
        }
        proof {
            crate::kv::lemma_kv_map(self.providers@);
        }
        match crate::kv::kv_find(&self.providers, name) {
            Some(p) => Some(&*self.providers[p].1),
            None => None,
        }
    }

    /// The default provider.
    pub fn get_default(&self) -> (r: Option<&P>)
        ensures
            r is Some <==> self.default_name() is Some,
            match self.default_name() {
                Some(d) => r matches Some(p) && p == &*self.provider_map()[d],
                None => r is None,
            },
    {
        proof {
            use_type_invariant(&*self);
        }
        match &self.default {
            Some(d) => self.get(d.as_str()),
            None => None,
        }
    }

    /// The registered names, each once, in registration order.
    pub fn list(&self) -> (r: Vec<String>)
        ensures
            r@ == self.name_list(),
            forall|i: int| 0 <= i < r@.len() ==> self.names().contains(#[trigger] r@[i]@),
            forall|k: Seq<char>| #[trigger] self.names().contains(k) ==> exists|i: int| 0 <= i < r@.len() && r@[i]@ == k,
            forall|i: int, j: int| 0 <= i < j < r@.len() ==> #[trigger] r@[i]@ != #[trigger] r@[j]@,
    {
        proof {
            use_type_invariant(&*self);
        }
        proof {
            crate::kv::lemma_kv_map(self.providers@);
        }
        let mut out: Vec<String> = Vec::new();
        let mut i: usize = 0;
        while i < self.providers.len()
            invariant
                i <= self.providers@.len(),
                out@.len() == i,
                forall|j: int| 0 <= j < i ==> #[trigger] out@[j] == self.providers@[j].0,
            decreases self.providers@.len() - i,
        {
            out.push(self.providers[i].0.clone());
            i += 1;
        }
        proof {
            assert forall|k: Seq<char>| #[trigger] self.names().contains(k) implies exists|i: int|
                0 <= i < out@.len() && out@[i]@ == k by {
                let i = choose|i: int| 0 <= i < self.providers@.len() && self.providers@[i].0@ == k;
                assert(out@[i] == self.providers@[i].0);
            }
            assert forall|a: int, b: int| 0 <= a < b < out@.len() implies #[trigger] out@[a]@
                != #[trigger] out@[b]@ by {
                assert(out@[a] == self.providers@[a].0);
                assert(out@[b] == self.providers@[b].0);
            }
            assert forall|a: int| 0 <= a < out@.len() implies self.names().contains(#[trigger] out@[a]@) by {
                assert(out@[a] == self.providers@[a].0);
            }
            assert(out@ =~= self.name_list());
        }
        out
    }

    /// The default provider's context size, or 128000 without a default.
    pub fn max_context_tokens(&self) -> (r: u32)
        ensures
            r == match self.default_name() {
                Some(d) => self.provider_map()[d].max_context_spec(),
                None => 128000,
            },
    {
        proof {
            use_type_invariant(&*self);
        }
        match self.get_default() {
            Some(p) => p.max_context_tokens(),
            None => 128000,
        }
    }
}

} // verus!
