//! The decisions of a session worker: which lines are commands, what each
//! command answers and changes, what a line for the model is sent with, and
//! where a reply goes.
//!
//! Threads, channels between them and the model calls stay with the caller.
use vstd::prelude::*;
use crate::channels::OutboundMessage;
use crate::json::JsonValue;
use crate::llm::{plain_message, LlmError, LLMProvider, Message, ProviderRegistry};
use crate::text::{
    append_str, concat2, concat3, dec, from_chars, join_spec, join_strings, join_texts,
    lemma_join_texts_spec, spec_starts_with, str_eq, str_starts_with, to_chars, trim_chars,
    trim_spec, u64_to_string,
};

verus! {

/// A task for the session scheduler: input for a session, from a sender on
/// a channel.
#[derive(Debug, Clone)]
pub struct SessionTask {
    pub session_id: String,
    pub input: String,
    pub channel: String,
    pub sender: String,
}

// ─── Answering a line ────────────────────────────

/// The reply when no model provider is configured, by the current emotion.
pub open spec fn fallback_spec(emotion: Seq<char>) -> Seq<char> {
    if emotion == "爱"@ || emotion == "快乐"@ || emotion == "欣喜"@ {
        "噜噜……神大人说的呢，葵听到了喔~"@
    } else if emotion == "悲伤"@ || emotion == "焦虑"@ {
        "呜……神大人说这样的话，葵有点担心呢……"@
    } else if emotion == "愤怒"@ || emotion == "不满"@ {
        "哼~神大人这样说葵可不高兴呢……"@
    } else {
        "噜噜……神大人说的葵听到了，葵正在努力理解喔~"@
    }
}

/// The reply when no model provider is configured.
pub fn fallback_reply(emotion: &str) -> (r: &'static str)
    ensures
        r@ == fallback_spec(emotion@),
{
    if str_eq(emotion, "爱") || str_eq(emotion, "快乐") || str_eq(emotion, "欣喜") {
        "噜噜……神大人说的呢，葵听到了喔~"
    } else if str_eq(emotion, "悲伤") || str_eq(emotion, "焦虑") {
        "呜……神大人说这样的话，葵有点担心呢……"
    } else if str_eq(emotion, "愤怒") || str_eq(emotion, "不满") {
        "哼~神大人这样说葵可不高兴呢……"
    } else {
        "噜噜……神大人说的葵听到了，葵正在努力理解喔~"
    }
}

/// The conversation recovered from memory entries, oldest first: an entry
/// `kamisama: …` is the user's, `葵: …` the assistant's, others are skipped.
/// Each is a role and a content.
pub open spec fn history_spec(entries: Seq<String>) -> Seq<(Seq<char>, Seq<char>)>
    decreases entries.len(),
{
    if entries.len() == 0 {
        Seq::empty()
    } else {
        let prev = history_spec(entries.drop_last());
        let c = entries.last()@;
        if spec_starts_with(c, "kamisama: "@) {
            prev.push(("user"@, c.skip("kamisama: "@.len() as int)))
        } else if spec_starts_with(c, "葵: "@) {
            prev.push(("assistant"@, c.skip("葵: "@.len() as int)))
        } else {
            prev
        }
    }
}

/// The chat messages recovered from memory entries.
pub fn history_messages(entries: &Vec<String>) -> (r: Vec<Message>)
    ensures
        r@.len() == history_spec(entries@).len(),
        forall|i: int|
            0 <= i < r@.len() ==> plain_message(
                #[trigger] r@[i],
                history_spec(entries@)[i].0,
                history_spec(entries@)[i].1,
            ),
{
    let user_tag = to_chars("kamisama: ");
    let bot_tag = to_chars("葵: ");
    let mut out: Vec<Message> = Vec::new();
    let mut i: usize = 0;
    while i < entries.len()
        invariant
            i <= entries@.len(),
            user_tag@ == "kamisama: "@,
            bot_tag@ == "葵: "@,
            out@.len() == history_spec(entries@.take(i as int)).len(),
            forall|k: int|
                0 <= k < out@.len() ==> plain_message(
                    #[trigger] out@[k],
                    history_spec(entries@.take(i as int))[k].0,
                    history_spec(entries@.take(i as int))[k].1,
                ),
        decreases entries@.len() - i,
    {
        assert(entries@.take(i + 1).drop_last() == entries@.take(i as int));
        assert(entries@.take(i + 1).last() == entries@[i as int]);
        let c = to_chars(entries[i].as_str());
        if str_starts_with(entries[i].as_str(), "kamisama: ") {
            let rest = from_chars(&c.as_slice()[user_tag.len()..c.len()]);
            assert(c@.subrange(user_tag@.len() as int, c@.len() as int) =~= c@.skip(
                user_tag@.len() as int,
            ));
            out.push(Message::user(rest.as_str()));
        } else if str_starts_with(entries[i].as_str(), "葵: ") {
            let rest = from_chars(&c.as_slice()[bot_tag.len()..c.len()]);
            assert(c@.subrange(bot_tag@.len() as int, c@.len() as int) =~= c@.skip(
                bot_tag@.len() as int,
            ));
            out.push(Message::assistant(rest.as_str()));
        }
        i += 1;
    }
    assert(entries@.take(entries@.len() as int) == entries@);
    out
}

/// The system prompt: the soul, then each module's segment, separated by
/// blank lines.
pub fn compose_system_prompt(soul: &str, segments: &Vec<String>) -> (r: String)
    ensures
        r@ == join_spec(seq![soul@] + segments@.map_values(|s: String| s@), "\n\n"@),
{
    let mut parts: Vec<String> = Vec::new();
    parts.push(soul.to_string());
    assert(parts@.map_values(|s: String| s@) =~= seq![soul@] + segments@.take(0).map_values(
        |s: String| s@,
    ));
    let mut i: usize = 0;
    while i < segments.len()
        invariant
            i <= segments@.len(),
            parts@.map_values(|s: String| s@) == seq![soul@] + segments@.take(i as int).map_values(
                |s: String| s@,
            ),
        decreases segments@.len() - i,
    {
        let ghost before = parts@;
        parts.push(segments[i].clone());
        assert(segments@.take(i + 1) == segments@.take(i as int).push(segments@[i as int]));
        assert(parts@.map_values(|s: String| s@) =~= before.map_values(|s: String| s@).push(
            segments@[i as int]@,
        ));
        assert(segments@.take(i + 1).map_values(|s: String| s@) =~= segments@.take(
            i as int,
        ).map_values(|s: String| s@).push(segments@[i as int]@));
        i += 1;
    }
    assert(segments@.take(segments@.len() as int) == segments@);
    proof {
        lemma_join_texts_spec(parts@, "\n\n"@);
    }
    join_strings(&parts, "\n\n")
}

// ─── Commands ────────────────────────────────────

/// A line is a command when it starts with `/`.
pub fn is_command(input: &str) -> (r: bool)
    ensures
        r == (input@.len() > 0 && input@[0] == '/'),
{
    let c = to_chars(input);
    c.len() > 0 && c[0] == '/'
}

/// A space or a tab.
pub open spec fn is_blank(c: char) -> bool {
    c == ' ' || c == '\t'
}

/// The position of the first blank at or after `i`, or the length.
pub open spec fn first_blank_from(t: Seq<char>, i: int) -> int
    decreases t.len() - i,
{
    if i < 0 || i >= t.len() {
        t.len() as int
    } else if is_blank(t[i]) {
        i
    } else {
        first_blank_from(t, i + 1)
    }
}

/// The command word of a trimmed line: up to its first blank.
pub open spec fn command_word(t: Seq<char>) -> Seq<char> {
    t.take(first_blank_from(t, 0))
}

/// What follows the first blank of a trimmed line, trimmed; empty without
/// one.
pub open spec fn command_arg(t: Seq<char>) -> Seq<char> {
    let k = first_blank_from(t, 0);
    if k < t.len() {
        trim_spec(t.skip(k + 1))
    } else {
        Seq::empty()
    }
}

/// `first_blank_from(t, i)` is `n` when no blank lies in `t[i..n]` and `n`
/// is a blank or the end.
proof fn lemma_first_blank_at(t: Seq<char>, i: int, n: int)
    requires
        0 <= i <= n <= t.len(),
        forall|j: int| i <= j < n ==> !is_blank(#[trigger] t[j]),
        n < t.len() ==> is_blank(t[n]),
    ensures
        first_blank_from(t, i) == n,
    decreases n - i,
{
    if i < n {
        lemma_first_blank_at(t, i + 1, n);
    }
}

/// A command line made of a word without whitespace, a space and an
/// argument gives that word, and as argument the whole argument trimmed,
/// blanks inside it included.
pub proof fn law_command_argument_is_rest(w: Seq<char>, a: Seq<char>)
    requires
        w.len() > 0,
        forall|i: int| 0 <= i < w.len() ==> !crate::text::is_ws(#[trigger] w[i]),
    ensures
        command_word(trim_spec(w + seq![' '] + a)) == w,
        command_arg(trim_spec(w + seq![' '] + a)) == trim_spec(a),
{
    let line = w + seq![' '] + a;
    let n = w.len() as int;
    let (va, vb) = crate::text::trim_bounds(a);
    assert(crate::text::is_ws(' '));
    assert(line[n] == ' ');
    assert forall|i: int| 0 <= i < n implies #[trigger] line[i] == w[i] by {}
    assert forall|i: int| 0 <= i < a.len() implies #[trigger] line[n + 1 + i] == a[i] by {}
    let b = if va < vb { n + 1 + vb } else { n };
    assert forall|i: int| b <= i < line.len() implies crate::text::is_ws(#[trigger] line[i]) by {
        if i > n {
            assert(line[i] == a[i - n - 1]);
            if va >= vb && !crate::text::is_ws(a[i - n - 1]) {
                assert(exists|j: int| 0 <= j < a.len() && !crate::text::is_ws(#[trigger] a[j]));
            }
        }
    }
    assert(line[0] == w[0]);
    crate::text::lemma_trim_is(line, 0, b);
    let t = line.subrange(0, b);
    assert(trim_spec(line) == t);
    assert forall|j: int| 0 <= j < n implies !is_blank(#[trigger] t[j]) by {
        assert(t[j] == w[j]);
    }
    if va < vb {
        assert(t[n] == ' ');
        lemma_first_blank_at(t, 0, n);
        assert(t.take(n) =~= w);
        let vv = a.subrange(0, vb);
        crate::text::lemma_trim_is(vv, va, vb);
        assert(t.skip(n + 1) =~= vv);
        assert(vv.subrange(va, vb) =~= a.subrange(va, vb));
    } else {
        lemma_first_blank_at(t, 0, n);
        assert(t.take(n) =~= w);
        assert(a.subrange(va, vb) =~= Seq::<char>::empty());
    }
}

/// A slash command typed into a session.
#[derive(Debug)]
pub enum SlashCommand {
    Help,
    Reset,
    Title(String),
    Sessions,
    Peek(String),
    Share,
    Unshare,
    Status,
    Cron,
    Models,
    Model(String),
    Quit,
    Unknown(String),
}

/// A slash command as values.
pub enum CommandView {
    Help,
    Reset,
    Title(Seq<char>),
    Sessions,
    Peek(Seq<char>),
    Share,
    Unshare,
    Status,
    Cron,
    Models,
    Model(Seq<char>),
    Quit,
    Unknown(Seq<char>),
}

impl SlashCommand {
    pub open spec fn command_view(&self) -> CommandView {
        match self {
            SlashCommand::Help => CommandView::Help,
            SlashCommand::Reset => CommandView::Reset,
            SlashCommand::Title(n) => CommandView::Title(n@),
            SlashCommand::Sessions => CommandView::Sessions,
            SlashCommand::Peek(n) => CommandView::Peek(n@),
            SlashCommand::Share => CommandView::Share,
            SlashCommand::Unshare => CommandView::Unshare,
            SlashCommand::Status => CommandView::Status,
            SlashCommand::Cron => CommandView::Cron,
            SlashCommand::Models => CommandView::Models,
            SlashCommand::Model(n) => CommandView::Model(n@),
            SlashCommand::Quit => CommandView::Quit,
            SlashCommand::Unknown(c) => CommandView::Unknown(c@),
        }
    }
}

/// The command a command word and its argument name.
pub open spec fn command_of(w: Seq<char>, a: Seq<char>) -> CommandView {
    if w == "/help"@ || w == "/h"@ || w == "/commands"@ {
        CommandView::Help
    } else if w == "/new"@ || w == "/reset"@ {
        CommandView::Reset
    } else if w == "/title"@ {
        CommandView::Title(a)
    } else if w == "/sessions"@ {
        CommandView::Sessions
    } else if w == "/peek"@ {
        CommandView::Peek(a)
    } else if w == "/share"@ {
        CommandView::Share
    } else if w == "/unshare"@ {
        CommandView::Unshare
    } else if w == "/status"@ {
        CommandView::Status
    } else if w == "/cron"@ {
        CommandView::Cron
    } else if w == "/models"@ {
        CommandView::Models
    } else if w == "/model"@ {
        CommandView::Model(a)
    } else if w == "/quit"@ || w == "/exit"@ || w == "/q"@ {
        CommandView::Quit
    } else {
        CommandView::Unknown(w)
    }
}

/// `/title`, `/peek` and `/model` followed by a space take the whole
/// trimmed rest of the line as their argument, blanks inside it included.
pub proof fn law_argument_commands(a: Seq<char>)
    ensures
        command_of(
            command_word(trim_spec("/title"@ + seq![' '] + a)),
            command_arg(trim_spec("/title"@ + seq![' '] + a)),
        ) == CommandView::Title(trim_spec(a)),
        command_of(
            command_word(trim_spec("/peek"@ + seq![' '] + a)),
            command_arg(trim_spec("/peek"@ + seq![' '] + a)),
        ) == CommandView::Peek(trim_spec(a)),
        command_of(
            command_word(trim_spec("/model"@ + seq![' '] + a)),
            command_arg(trim_spec("/model"@ + seq![' '] + a)),
        ) == CommandView::Model(trim_spec(a)),
{
    reveal_strlit("/title");
    reveal_strlit("/peek");
    reveal_strlit("/model");
    reveal_strlit("/help");
    reveal_strlit("/h");
    reveal_strlit("/commands");
    reveal_strlit("/new");
    reveal_strlit("/reset");
    reveal_strlit("/sessions");
    reveal_strlit("/share");
    reveal_strlit("/unshare");
    reveal_strlit("/status");
    reveal_strlit("/cron");
    reveal_strlit("/models");
    law_command_argument_is_rest("/title"@, a);
    law_command_argument_is_rest("/peek"@, a);
    law_command_argument_is_rest("/model"@, a);
    assert("/title"@ != "/help"@ && "/title"@ != "/commands"@ && "/title"@ != "/reset"@ && "/title"@ != "/h"@ && "/title"@ != "/new"@) by {
        assert("/title"@[1] != "/help"@[1]);
        assert("/title"@[1] != "/commands"@[1]);
        assert("/title"@[1] != "/reset"@[1]);
        assert("/title"@.len() != "/h"@.len());
        assert("/title"@.len() != "/new"@.len());
    }
    assert("/peek"@ != "/help"@ && "/peek"@ != "/h"@ && "/peek"@ != "/commands"@ && "/peek"@ != "/new"@
        && "/peek"@ != "/reset"@ && "/peek"@ != "/title"@ && "/peek"@ != "/sessions"@) by {
        assert("/peek"@[1] != "/help"@[1]);
        assert("/peek"@.len() != "/h"@.len());
        assert("/peek"@[1] != "/commands"@[1]);
        assert("/peek"@[1] != "/new"@[1]);
        assert("/peek"@[1] != "/reset"@[1]);
        assert("/peek"@[1] != "/title"@[1]);
        assert("/peek"@[1] != "/sessions"@[1]);
    }
    assert("/model"@ != "/help"@ && "/model"@ != "/h"@ && "/model"@ != "/commands"@ && "/model"@ != "/new"@
        && "/model"@ != "/reset"@ && "/model"@ != "/title"@ && "/model"@ != "/sessions"@ && "/model"@
        != "/peek"@ && "/model"@ != "/share"@ && "/model"@ != "/unshare"@ && "/model"@ != "/status"@
        && "/model"@ != "/cron"@ && "/model"@ != "/models"@) by {
        assert("/model"@[1] != "/help"@[1]);
        assert("/model"@.len() != "/h"@.len());
        assert("/model"@[1] != "/commands"@[1]);
        assert("/model"@[1] != "/new"@[1]);
        assert("/model"@[1] != "/reset"@[1]);
        assert("/model"@[1] != "/title"@[1]);
        assert("/model"@[1] != "/sessions"@[1]);
        assert("/model"@[1] != "/peek"@[1]);
        assert("/model"@[1] != "/share"@[1]);
        assert("/model"@[1] != "/unshare"@[1]);
        assert("/model"@[1] != "/status"@[1]);
        assert("/model"@[1] != "/cron"@[1]);
        assert("/model"@.len() != "/models"@.len());
    }
}

/// Reads a command line: the line is trimmed, its word runs to the first
/// space or tab, and the argument is the rest, trimmed.
pub fn parse_command(input: &str) -> (r: SlashCommand)
    ensures
        r.command_view() == command_of(
            command_word(trim_spec(input@)),
            command_arg(trim_spec(input@)),
        ),
{
    let raw = to_chars(input);
    let t = trim_chars(raw.as_slice());
    let mut k: usize = 0;
    while k < t.len() && !(t[k] == ' ' || t[k] == '\t')
        invariant
            k <= t.len(),
            first_blank_from(t@, 0) == first_blank_from(t@, k as int),
        decreases t.len() - k,
    {
        k += 1;
    }
    let word = from_chars(&t.as_slice()[0..k]);
    assert(t@.subrange(0, k as int) == t@.take(k as int));
    let arg = if k < t.len() {
        let rest = trim_chars(&t.as_slice()[k + 1..t.len()]);
        assert(t@.subrange(k + 1, t@.len() as int) == t@.skip(k + 1));
        from_chars(rest.as_slice())
    } else {
        String::new()
    };
    let w = word.as_str();
    if str_eq(w, "/help") || str_eq(w, "/h") || str_eq(w, "/commands") {
        SlashCommand::Help
    } else if str_eq(w, "/new") || str_eq(w, "/reset") {
        SlashCommand::Reset
    } else if str_eq(w, "/title") {
        SlashCommand::Title(arg)
    } else if str_eq(w, "/sessions") {
        SlashCommand::Sessions
    } else if str_eq(w, "/peek") {
        SlashCommand::Peek(arg)
    } else if str_eq(w, "/share") {
        SlashCommand::Share
    } else if str_eq(w, "/unshare") {
        SlashCommand::Unshare
    } else if str_eq(w, "/status") {
        SlashCommand::Status
    } else if str_eq(w, "/cron") {
        SlashCommand::Cron
    } else if str_eq(w, "/models") {
        SlashCommand::Models
    } else if str_eq(w, "/model") {
        SlashCommand::Model(arg)
    } else if str_eq(w, "/quit") || str_eq(w, "/exit") || str_eq(w, "/q") {
        SlashCommand::Quit
    } else {
        SlashCommand::Unknown(word)
    }
}

// ─── Command replies ─────────────────────────────

/// The lines of the command help.
pub open spec fn help_lines() -> Seq<Seq<char>> {
    seq![
        "可用命令："@,
        "  /help        — 显示此帮助"@,
        "  /new /reset  — 重置当前会话"@,
        "  /title <名>   — 设置会话名称"@,
        "  /model       — 查看当前模型"@,
        "  /model <名>   — 切换 provider"@,
        "  /models      — 列出所有已注册 provider"@,
        "  /sessions    — 列出所有活跃会话"@,
        "  /peek <id>   — 查看其他会话的上下文"@,
        "  /share       — 共享当前会话"@,
        "  /unshare     — 取消共享"@,
        "  /status      — 当前会话状态"@,
        "  /cron        — 列出定时任务"@,
        "  /quit /exit  — 退出"@,
    ]
}

/// The command help.
pub fn help_reply() -> (r: String)
    ensures
        r@ == join_spec(help_lines(), "\n"@),
{
    let mut v: Vec<String> = Vec::new();
    v.push("可用命令：".to_string());
    v.push("  /help        — 显示此帮助".to_string());
    v.push("  /new /reset  — 重置当前会话".to_string());
    v.push("  /title <名>   — 设置会话名称".to_string());
    v.push("  /model       — 查看当前模型".to_string());
    v.push("  /model <名>   — 切换 provider".to_string());
    v.push("  /models      — 列出所有已注册 provider".to_string());
    v.push("  /sessions    — 列出所有活跃会话".to_string());
    v.push("  /peek <id>   — 查看其他会话的上下文".to_string());
    v.push("  /share       — 共享当前会话".to_string());
    v.push("  /unshare     — 取消共享".to_string());
    v.push("  /status      — 当前会话状态".to_string());
    v.push("  /cron        — 列出定时任务".to_string());
    v.push("  /quit /exit  — 退出".to_string());
    proof {
        lemma_join_texts_spec(v@, "\n"@);
        assert(v@.map_values(|s: String| s@) =~= help_lines());
    }
    join_strings(&v, "\n")
}

/// The texts each behind `prefix`, one after another.
pub open spec fn prefixed(v: Seq<Seq<char>>, prefix: Seq<char>) -> Seq<char>
    decreases v.len(),
{
    if v.len() == 0 {
        Seq::empty()
    } else {
        prefixed(v.drop_last(), prefix) + prefix + v.last()
    }
}

/// Appends each string behind `prefix`.
fn append_prefixed(out: &mut String, v: &Vec<String>, prefix: &str)
    ensures
        final(out)@ == old(out)@ + prefixed(v@.map_values(|s: String| s@), prefix@),
{
    let mut i: usize = 0;
    while i < v.len()
        invariant
            i <= v@.len(),
            out@ == old(out)@ + prefixed(v@.take(i as int).map_values(|s: String| s@), prefix@),
        decreases v@.len() - i,
    {
        assert(v@.take(i + 1).map_values(|s: String| s@).drop_last() =~= v@.take(
            i as int,
        ).map_values(|s: String| s@));
        append_str(out, prefix);
        append_str(out, v[i].as_str());
        i += 1;
    }
    assert(v@.take(v@.len() as int) == v@);
}

/// A session in the `/sessions` list: its id, marked when shared.
pub open spec fn session_line(id: Seq<char>, shared: bool) -> Seq<char> {
    if shared {
        "  "@ + id + " [共享]"@
    } else {
        "  "@ + id
    }
}

/// The answer to `/sessions` for the sessions as `(id, shared)` pairs.
pub open spec fn sessions_spec(v: Seq<(String, bool)>) -> Seq<char> {
    if v.len() == 0 {
        "没有活跃会话喔~"@
    } else {
        "活跃会话（"@ + dec(v.len()) + "）："@ + prefixed(
            v.map_values(|e: (String, bool)| session_line(e.0@, e.1)),
            "\n"@,
        )
    }
}

/// The answer to `/sessions`.
pub fn sessions_reply(v: &Vec<(String, bool)>) -> (r: String)
    ensures
        r@ == sessions_spec(v@),
{
    if v.len() == 0 {
        return "没有活跃会话喔~".to_string();
    }
    let mut lines: Vec<String> = Vec::new();
    let mut i: usize = 0;
    while i < v.len()
        invariant
            i <= v@.len(),
            lines@.map_values(|s: String| s@) == v@.take(i as int).map_values(
                |e: (String, bool)| session_line(e.0@, e.1),
            ),
        decreases v@.len() - i,
    {
        let line = if v[i].1 {
            concat3("  ", v[i].0.as_str(), " [共享]")
        } else {
            concat2("  ", v[i].0.as_str())
        };
        let ghost before = lines@;
        lines.push(line);
        assert(lines@.map_values(|s: String| s@) =~= before.map_values(|s: String| s@).push(
            session_line(v@[i as int].0@, v@[i as int].1),
        ));
        assert(v@.take(i + 1).map_values(|e: (String, bool)| session_line(e.0@, e.1)) =~= v@.take(
            i as int,
        ).map_values(|e: (String, bool)| session_line(e.0@, e.1)).push(
            session_line(v@[i as int].0@, v@[i as int].1),
        ));
        i += 1;
    }
    assert(v@.take(v@.len() as int) == v@);
    let mut out = concat3("活跃会话（", u64_to_string(v.len() as u64).as_str(), "）：");
    append_prefixed(&mut out, &lines, "\n");
    out
}

/// The answer to `/peek` for a target and its recent entries.
pub open spec fn peek_spec(target: Seq<char>, entries: Seq<String>) -> Seq<char> {
    if target.len() == 0 {
        "用法：/peek <session_id>"@
    } else if entries.len() == 0 {
        "会话「"@ + target + "」没有找到记录呢"@
    } else {
        "会话「"@ + target + "」最近记录："@ + prefixed(entries.map_values(|s: String| s@), "\n  "@)
    }
}

/// The answer to `/peek`: the target session's recent entries.
pub fn peek_reply(target: &str, entries: &Vec<String>) -> (r: String)
    ensures
        r@ == peek_spec(target@, entries@),
{
    if target.unicode_len() == 0 {
        "用法：/peek <session_id>".to_string()
    } else if entries.len() == 0 {
        concat3("会话「", target, "」没有找到记录呢")
    } else {
        let mut out = concat3("会话「", target, "」最近记录：");
        append_prefixed(&mut out, entries, "\n  ");
        out
    }
}

/// Yes or no.
pub open spec fn yes_no(b: bool) -> Seq<char> {
    if b {
        "是"@
    } else {
        "否"@
    }
}

/// The answer to `/status`: the session, its sharing and cooling when it
/// is known as `(shared, closed)`, and the default model's name.
pub open spec fn status_spec(
    session_id: Seq<char>,
    state: Option<(bool, bool)>,
    model: Option<Seq<char>>,
) -> Seq<char> {
    let head = "会话："@ + session_id;
    let with_state = match state {
        Some(s) => head + "\n共享："@ + yes_no(s.0) + "\n已冷却："@ + yes_no(s.1),
        None => head,
    };
    match model {
        Some(m) => with_state + "\n模型："@ + m,
        None => with_state,
    }
}

/// The answer to `/status`.
pub fn status_reply(session_id: &str, state: Option<(bool, bool)>, model: Option<&str>) -> (r: String)
    ensures
        r@ == status_spec(
            session_id@,
            state,
            match model {
                Some(m) => Some(m@),
                None => None,
            },
        ),
{
    let mut info = concat2("会话：", session_id);
    if let Some((shared, closed)) = state {
        append_str(&mut info, "\n共享：");
        append_str(&mut info, if shared {
            "是"
        } else {
            "否"
        });
        append_str(&mut info, "\n已冷却：");
        append_str(&mut info, if closed {
            "是"
        } else {
            "否"
        });
    }
    if let Some(m) = model {
        append_str(&mut info, "\n模型：");
        append_str(&mut info, m);
    }
    info
}

/// A provider in the `/models` list, marked when it is the current one.
pub open spec fn model_line(name: Seq<char>, current: Option<Seq<char>>) -> Seq<char> {
    if current == Some(name) {
        name + " ⬅️ 当前"@
    } else {
        name
    }
}

/// The answer to `/models` for the registered names and the current one.
pub open spec fn models_spec(models: Seq<String>, current: Option<Seq<char>>) -> Seq<char> {
    if models.len() == 0 {
        "没有注册任何 provider 呢"@
    } else {
        "已注册 provider（"@ + dec(models.len()) + "）："@ + prefixed(
            models.map_values(|m: String| model_line(m@, current)),
            "\n  "@,
        )
    }
}

/// The answer to `/models`.
pub fn models_reply(models: &Vec<String>, current: Option<&str>) -> (r: String)
    ensures
        r@ == models_spec(
            models@,
            match current {
                Some(c) => Some(c@),
                None => None,
            },
        ),
{
    let ghost cur: Option<Seq<char>> = match current {
        Some(c) => Some(c@),
        None => None,
    };
    if models.len() == 0 {
        return "没有注册任何 provider 呢".to_string();
    }
    let mut lines: Vec<String> = Vec::new();
    let mut i: usize = 0;
    while i < models.len()
        invariant
            i <= models@.len(),
            cur == (match current {
                Some(c) => Some(c@),
                None => None::<Seq<char>>,
            }),
            lines@.map_values(|s: String| s@) == models@.take(i as int).map_values(
                |m: String| model_line(m@, cur),
            ),
        decreases models@.len() - i,
    {
        let is_current = match current {
            Some(c) => str_eq(models[i].as_str(), c),
            None => false,
        };
        let line = if is_current {
            concat2(models[i].as_str(), " ⬅️ 当前")
        } else {
            models[i].clone()
        };
        let ghost before = lines@;
        lines.push(line);
        assert(lines@.map_values(|s: String| s@) =~= before.map_values(|s: String| s@).push(
            model_line(models@[i as int]@, cur),
        ));
        assert(models@.take(i + 1).map_values(|m: String| model_line(m@, cur)) =~= models@.take(
            i as int,
        ).map_values(|m: String| model_line(m@, cur)).push(model_line(models@[i as int]@, cur)));
        i += 1;
    }
    assert(models@.take(models@.len() as int) == models@);
    let mut out = concat3("已注册 provider（", u64_to_string(models.len() as u64).as_str(), "）：");
    append_prefixed(&mut out, &lines, "\n  ");
    out
}

/// The answer to `/model` without an argument.
pub open spec fn current_model_spec(current: Option<Seq<char>>) -> Seq<char> {
    match current {
        Some(n) => "当前模型："@ + n,
        None => "当前没有默认模型呢~"@,
    }
}

/// The answer to `/model <name>`, by whether the switch was made.
pub open spec fn switch_model_spec(name: Seq<char>, switched: bool) -> Seq<char> {
    if switched {
        "已切换到「"@ + name + "」，重启后会恢复默认喔~"@
    } else {
        "没有叫「"@ + name + "」的 provider 呢。看看 /models 有哪些呢~"@
    }
}

/// What a session command changes in the session's records.
#[derive(Debug)]
pub enum SessionEffect {
    /// Cool the session down.
    Close,
    Share,
    Unshare,
    /// Remember this note in the session's memory.
    Remember(String),
}

/// The change a command makes: `/new` cools the session, `/share` and
/// `/unshare` set its sharing, and `/title` with a name remembers it.
pub fn command_effect(cmd: &SlashCommand) -> (r: Option<SessionEffect>)
    ensures
        match cmd.command_view() {
            CommandView::Reset => r matches Some(SessionEffect::Close),
            CommandView::Share => r matches Some(SessionEffect::Share),
            CommandView::Unshare => r matches Some(SessionEffect::Unshare),
            CommandView::Title(n) => if n.len() > 0 {
                r matches Some(SessionEffect::Remember(m)) && m@ == "[session_title] "@ + n
            } else {
                r is None
            },
            _ => r is None,
        },
{
    match cmd {
        SlashCommand::Reset => Some(SessionEffect::Close),
        SlashCommand::Share => Some(SessionEffect::Share),
        SlashCommand::Unshare => Some(SessionEffect::Unshare),
        SlashCommand::Title(n) => if n.as_str().unicode_len() > 0 {
            Some(SessionEffect::Remember(concat2("[session_title] ", n.as_str())))
        } else {
            None
        },
        _ => None,
    }
}

/// What a session knows when it answers a command: the sessions as
/// `(id, shared)` pairs, its own `(shared, closed)` state if recorded, and
/// the recent entries of the session a `/peek` names.
pub struct SessionFacts {
    pub session_id: String,
    pub sessions: Vec<(String, bool)>,
    pub state: Option<(bool, bool)>,
    pub peek_entries: Vec<String>,
}

/// The answer to a command that needs nothing from the providers, given
/// what the session knows.
pub open spec fn command_reply_spec(c: CommandView, facts: SessionFacts) -> Seq<char> {
    match c {
        CommandView::Help => join_spec(help_lines(), "\n"@),
        CommandView::Reset => "会话已重置。可以重新开始了呢~"@,
        CommandView::Title(n) => if n.len() == 0 {
            "用法：/title <会话名称>"@
        } else {
            "会话标题已设为「"@ + n + "」"@
        },
        CommandView::Sessions => sessions_spec(facts.sessions@),
        CommandView::Peek(t) => peek_spec(t, facts.peek_entries@),
        CommandView::Share => "已共享当前会话，别的 session 可以 peek 进来了喔"@,
        CommandView::Unshare => "已取消共享"@,
        CommandView::Cron => "定时任务由调度器管理，当前 session 不能直接查看。\n如需注册，走调度器 API 呢~"@,
        CommandView::Quit => "再见~"@,
        CommandView::Unknown(w) => "不认识「"@ + w + "」。试试 /help 呢~"@,
        _ => Seq::empty(),
    }
}

/// Whether a command's answer depends on the model providers.
pub open spec fn needs_providers(c: CommandView) -> bool {
    c is Status || c is Models || c is Model
}

/// Answers a command. `/status`, `/models` and `/model` read the providers,
/// and `/model <name>` makes `name` the default when it is registered; the
/// names shown for the current provider are what the provider reports.
pub fn command_reply<P: LLMProvider + ?Sized>(
    cmd: &SlashCommand,
    facts: &SessionFacts,
    providers: &mut ProviderRegistry<P>,
) -> (r: String)
    ensures
        final(providers).names() == old(providers).names(),
        final(providers).provider_map() == old(providers).provider_map(),
        !needs_providers(cmd.command_view()) ==> r@ == command_reply_spec(cmd.command_view(), *facts)
            && final(providers).default_name() == old(providers).default_name(),
        cmd.command_view() is Status ==> final(providers).default_name() == old(providers).default_name()
            && r@ == status_spec(facts.session_id@, facts.state, old(providers).default_provider_name()),
        cmd.command_view() is Models ==> final(providers).default_name() == old(providers).default_name()
            && r@ == models_spec(old(providers).name_list(), old(providers).default_provider_name()),
        cmd.command_view() matches CommandView::Model(n) ==> if n.len() == 0 {
            final(providers).default_name() == old(providers).default_name() && r@ == current_model_spec(
                old(providers).default_provider_name(),
            )
        } else {
            r@ == switch_model_spec(n, old(providers).names().contains(n)) && (if old(
                providers,
            ).names().contains(n) {
                final(providers).default_name() == Some(n)
            } else {
                final(providers).default_name() == old(providers).default_name()
            })
        },
{
    match cmd {
        SlashCommand::Help => help_reply(),
        SlashCommand::Reset => "会话已重置。可以重新开始了呢~".to_string(),
        SlashCommand::Title(n) => if n.as_str().unicode_len() == 0 {
            "用法：/title <会话名称>".to_string()
        } else {
            concat3("会话标题已设为「", n.as_str(), "」")
        },
        SlashCommand::Sessions => sessions_reply(&facts.sessions),
        SlashCommand::Peek(t) => peek_reply(t.as_str(), &facts.peek_entries),
        SlashCommand::Share => "已共享当前会话，别的 session 可以 peek 进来了喔".to_string(),
        SlashCommand::Unshare => "已取消共享".to_string(),
        SlashCommand::Status => {
            let current = match providers.get_default() {
                Some(p) => Some(p.name()),
                None => None,
            };
            status_reply(facts.session_id.as_str(), facts.state, current)
        },
        SlashCommand::Cron => "定时任务由调度器管理，当前 session 不能直接查看。\n如需注册，走调度器 API 呢~".to_string(),
        SlashCommand::Models => {
            let models = providers.list();
            let current = match providers.get_default() {
                Some(p) => Some(p.name()),
                None => None,
            };
            models_reply(&models, current)
        },
        SlashCommand::Model(n) => {
            if n.as_str().unicode_len() == 0 {
                match providers.get_default() {
                    Some(p) => {
                        let name = p.name();
                        let r = concat2("当前模型：", name);
                        assert(r@ == current_model_spec(Some(name@)));
                        r
                    },
                    None => {
                        let r = "当前没有默认模型呢~".to_string();
                        assert(r@ == current_model_spec(None));
                        r
                    },
                }
            } else {
                match providers.set_default(n.as_str()) {
                    Ok(()) => concat3("已切换到「", n.as_str(), "」，重启后会恢复默认喔~"),
                    Err(_) => concat3("没有叫「", n.as_str(), "」的 provider 呢。看看 /models 有哪些呢~"),
                }
            }
        },
        SlashCommand::Quit => "再见~".to_string(),
        SlashCommand::Unknown(w) => concat3("不认识「", w.as_str(), "」。试试 /help 呢~"),
    }
}

// ─── Where replies go ────────────────────────────

/// The message that carries a reply back on its channel to its sender;
/// none when a caller is already waiting for the reply under the sender's
/// id.
pub fn reply_outbound(response: &str, channel: &str, sender: &str, awaited: bool) -> (r: Option<
    OutboundMessage,
>)
    ensures
        awaited ==> r is None,
        !awaited ==> (r matches Some(o) && o.content@ == response@ && o.channel@ == channel@
            && o.target@ == sender@),
{
    if awaited {
        None
    } else {
        Some(OutboundMessage::new(response, channel, sender))
    }
}

/// The id under which a caller waits for a reply, from the time in
/// nanoseconds.
pub fn pending_id(nanos: u128) -> (r: String)
    ensures
        r@ == "pending-"@ + dec(nanos as nat),
{
    let mut out = "pending-".to_string();
    let d = crate::text::dec_chars_u128(nanos);
    crate::text::push_chars(&mut out, d.as_slice());
    out
}

/// `v` is the object `{"content": c}`.
pub open spec fn content_item(v: JsonValue, c: Seq<char>) -> bool {
    &&& v matches JsonValue::Object(e)
    &&& e@.len() == 1
    &&& e@[0].0@ == "content"@
    &&& e@[0].1 matches JsonValue::Str(t) && t@ == c
}

/// The arguments that hand recent memory entries to the compressor:
/// `{"entries": [{"content": …}, …]}`; none without entries.
pub fn compress_request(entries: &Vec<String>) -> (r: Option<JsonValue>)
    ensures
        entries@.len() == 0 <==> r is None,
        r matches Some(v) ==> {
            &&& v matches JsonValue::Object(m)
            &&& m@.len() == 1
            &&& m@[0].0@ == "entries"@
            &&& m@[0].1 matches JsonValue::Array(items)
            &&& items@.len() == entries@.len()
            &&& forall|i: int|
                0 <= i < items@.len() ==> content_item(#[trigger] items@[i], entries@[i]@)
        },
{
    if entries.len() == 0 {
        return None;
    }
    let mut items: Vec<JsonValue> = Vec::new();
    let mut i: usize = 0;
    while i < entries.len()
        invariant
            i <= entries@.len(),
            items@.len() == i,
            forall|k: int| 0 <= k < i ==> content_item(#[trigger] items@[k], entries@[k]@),
        decreases entries@.len() - i,
    {
        let mut e: Vec<(String, JsonValue)> = Vec::new();
        e.push(("content".to_string(), JsonValue::Str(entries[i].clone())));
        items.push(JsonValue::Object(e));
        i += 1;
    }
    let mut m: Vec<(String, JsonValue)> = Vec::new();
    m.push(("entries".to_string(), JsonValue::Array(items)));
    Some(JsonValue::Object(m))
}

} // verus!
