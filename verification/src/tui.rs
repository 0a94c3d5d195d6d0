//! The decisions of the terminal chat interface.
//!
//! Key presses edit the input line and walk the input history; `/exit`,
//! `/quit`, `/help`, `/clear` and `/emotion` act at once; any other line is
//! shown as the user's message and handed to the engine, with a thinking
//! placeholder that the reply later replaces. Drawing, reading the keyboard
//! and the clock stay with the caller, which hands the time in as text.
use vstd::prelude::*;
use crate::text::{concat2, concat3, from_chars, str_eq, to_chars, trim_chars, trim_spec};

verus! {

/// How a chat message is shown.
#[derive(Debug, Clone, Copy, PartialEq, Eq, Structural)]
pub enum MessageStyle {
    User,
    Assistant,
    Thinking,
    System,
    Info,
}

/// A message in the chat view.
#[derive(Debug, Clone)]
pub struct ChatMessage {
    pub sender: String,
    pub content: String,
    pub style: MessageStyle,
    pub timestamp: String,
}

/// A chat message as text.
pub struct MsgView {
    pub sender: Seq<char>,
    pub content: Seq<char>,
    pub style: MessageStyle,
    pub timestamp: Seq<char>,
}

pub open spec fn msg_view(m: ChatMessage) -> MsgView {
    MsgView { sender: m.sender@, content: m.content@, style: m.style, timestamp: m.timestamp@ }
}

pub open spec fn mk_msg(sender: Seq<char>, content: Seq<char>, style: MessageStyle, ts: Seq<char>) -> MsgView {
    MsgView { sender, content, style, timestamp: ts }
}

/// A key press, as the interface tells them apart.
#[derive(Debug, Clone, Copy)]
pub enum Key {
    /// A character, and whether Control was held.
    Char { c: char, control: bool },
    Enter,
    Up,
    Down,
    Backspace,
    Esc,
    PageUp,
    PageDown,
    /// Any other key.
    Other,
}

/// The state of the interface as values.
pub struct TuiModel {
    pub messages: Seq<MsgView>,
    pub input: Seq<char>,
    pub scroll: int,
    pub quit: bool,
    pub thinking: bool,
    pub history: Seq<Seq<char>>,
    pub history_index: int,
    pub provider: Seq<char>,
}

/// The help text for the provider and emotion shown.
pub open spec fn help_text(provider: Seq<char>, emotion: Seq<char>) -> Seq<char> {
    "命令列表:\n  /exit /quit  — 退出\n  /help       — 显示帮助\n  /clear      — 清屏\n  /emotion    — 显示当前情绪\n\n状态:\n  提供者: "@
        + provider + "\n  情绪: "@ + emotion
}

/// The text that reports the current emotion.
pub open spec fn emotion_text(emotion: Seq<char>) -> Seq<char> {
    "当前情绪:\n  复合: "@ + emotion
}

/// The state after Enter with a non-blank input line: the trimmed line goes
/// into the history; a command acts, any other line is shown as the user's
/// and followed by a thinking placeholder.
pub open spec fn enter_model(m: TuiModel, emotion: Seq<char>, now: Seq<char>) -> TuiModel {
    let t = trim_spec(m.input);
    let h = m.history.push(t);
    if t == "/exit"@ || t == "/quit"@ {
        TuiModel {
            messages: m.messages.push(mk_msg("系统"@, "Goodbye."@, MessageStyle::System, now)),
            input: Seq::empty(),
            quit: true,
            history: h,
            history_index: h.len() as int,
            ..m
        }
    } else if t == "/help"@ {
        TuiModel {
            messages: m.messages.push(
                mk_msg("系统"@, help_text(m.provider, emotion), MessageStyle::System, now),
            ),
            input: Seq::empty(),
            history: h,
            history_index: h.len() as int,
            ..m
        }
    } else if t == "/clear"@ {
        TuiModel {
            messages: Seq::empty(),
            input: Seq::empty(),
            scroll: 0,
            history: h,
            history_index: h.len() as int,
            ..m
        }
    } else if t == "/emotion"@ {
        TuiModel {
            messages: m.messages.push(
                mk_msg("系统"@, emotion_text(emotion), MessageStyle::Info, now),
            ),
            input: Seq::empty(),
            history: h,
            history_index: h.len() as int,
            ..m
        }
    } else {
        TuiModel {
            messages: m.messages.push(mk_msg("You"@, t, MessageStyle::User, now)).push(
                mk_msg("Agent"@, "‖ thinking... ‖"@, MessageStyle::Thinking, now),
            ),
            input: Seq::empty(),
            thinking: true,
            history: h,
            history_index: h.len() as int,
            ..m
        }
    }
}

/// The line after Enter is handed to the engine: it is not blank and not a
/// command.
pub open spec fn enter_processes(m: TuiModel) -> bool {
    let t = trim_spec(m.input);
    !m.thinking && t.len() > 0 && t != "/exit"@ && t != "/quit"@ && t != "/help"@ && t != "/clear"@
        && t != "/emotion"@
}

/// The state after a key press.
pub open spec fn key_model(m: TuiModel, key: Key, emotion: Seq<char>, now: Seq<char>) -> TuiModel {
    match key {
        Key::Char { c, control } => if control && c == 'c' {
            TuiModel { quit: true, ..m }
        } else if !m.thinking {
            TuiModel { input: m.input.push(c), ..m }
        } else {
            m
        },
        Key::Enter => if !m.thinking && trim_spec(m.input).len() > 0 {
            enter_model(m, emotion, now)
        } else {
            m
        },
        Key::Up => if !m.thinking && m.history.len() > 0 && m.history_index > 0 {
            TuiModel {
                history_index: m.history_index - 1,
                input: m.history[m.history_index - 1],
                ..m
            }
        } else {
            m
        },
        Key::Down => if !m.thinking && m.history.len() > 0 {
            if m.history_index < m.history.len() - 1 {
                TuiModel {
                    history_index: m.history_index + 1,
                    input: m.history[m.history_index + 1],
                    ..m
                }
            } else {
                TuiModel { history_index: m.history.len() as int, input: Seq::empty(), ..m }
            }
        } else {
            m
        },
        Key::Backspace => if !m.thinking && m.input.len() > 0 {
            TuiModel { input: m.input.drop_last(), ..m }
        } else {
            m
        },
        Key::Esc => TuiModel { quit: true, ..m },
        Key::PageUp => TuiModel { scroll: m.scroll + 5, ..m },
        Key::PageDown => TuiModel {
            scroll: if m.scroll >= 5 {
                m.scroll - 5
            } else {
                0
            },
            ..m
        },
        Key::Other => m,
    }
}

/// The state after the engine's reply, stamped `now`, replaces the
/// placeholder at `slot`.
pub open spec fn complete_model(m: TuiModel, slot: int, reply: Seq<char>, now: Seq<char>) -> TuiModel {
    TuiModel {
        messages: m.messages.update(slot, mk_msg("Agent"@, reply, MessageStyle::Assistant, now)),
        thinking: false,
        scroll: 0,
        ..m
    }
}

/// What the caller does after a key press.
#[derive(Debug)]
pub enum TuiAction {
    /// Nothing beyond drawing again.
    Redraw,
    /// Hand `text` to the engine, then put the reply in message `slot`
    /// with [`TuiState::complete`].
    Process { text: String, slot: usize },
}

/// The state of the chat interface.
pub struct TuiState {
    messages: Vec<ChatMessage>,
    input: Vec<char>,
    scroll: usize,
    quit: bool,
    thinking: bool,
    history: Vec<String>,
    history_index: usize,
    provider: String,
}

impl View for TuiState {
    type V = TuiModel;

    closed spec fn view(&self) -> TuiModel {
        TuiModel {
            messages: self.messages@.map_values(|c: ChatMessage| msg_view(c)),
            input: self.input@,
            scroll: self.scroll as int,
            quit: self.quit,
            thinking: self.thinking,
            history: self.history@.map_values(|h: String| h@),
            history_index: self.history_index as int,
            provider: self.provider@,
        }
    }
}

impl TuiState {
    /// The history position never passes the end of the history.
    pub closed spec fn wf(&self) -> bool {
        self.history_index <= self.history@.len()
    }

    /// The interface for the model provider `provider`, greeting at `now`.
    pub fn new(provider: &str, now: &str) -> (r: Self)
        ensures
            r.wf(),
            r@.messages == seq![mk_msg("系统"@, "✦ Tremolite TUI ✦"@, MessageStyle::System, now@)],
            r@.input.len() == 0,
            r@.scroll == 0,
            !r@.quit,
            !r@.thinking,
            r@.history.len() == 0,
            r@.history_index == 0,
            r@.provider == provider@,
    {
        let mut messages = Vec::new();
        messages.push(
            ChatMessage {
                sender: "系统".to_string(),
                content: "✦ Tremolite TUI ✦".to_string(),
                style: MessageStyle::System,
                timestamp: now.to_string(),
            },
        );
        let r = TuiState {
            messages,
            input: Vec::new(),
            scroll: 0,
            quit: false,
            thinking: false,
            history: Vec::new(),
            history_index: 0,
            provider: provider.to_string(),
        };
        assert(r@.messages =~= seq![mk_msg("系统"@, "✦ Tremolite TUI ✦"@, MessageStyle::System, now@)]);
        r
    }

    pub fn messages(&self) -> (r: &Vec<ChatMessage>)
        ensures
            r@.map_values(|c: ChatMessage| msg_view(c)) == self@.messages,
    {
        &self.messages
    }

    /// The input line being typed.
    pub fn input(&self) -> (r: String)
        ensures
            r@ == self@.input,
    {
        from_chars(self.input.as_slice())
    }

    pub fn scroll_offset(&self) -> (r: usize)
        ensures
            r == self@.scroll,
    {
        self.scroll
    }

    pub fn should_quit(&self) -> (r: bool)
        ensures
            r == self@.quit,
    {
        self.quit
    }

    pub fn thinking(&self) -> (r: bool)
        ensures
            r == self@.thinking,
    {
        self.thinking
    }

    pub fn provider(&self) -> (r: &str)
        ensures
            r@ == self@.provider,
    {
        self.provider.as_str()
    }

    fn push_message(&mut self, sender: &str, content: String, style: MessageStyle, now: &str)
        ensures
            final(self)@ == (TuiModel {
                messages: old(self)@.messages.push(mk_msg(sender@, content@, style, now@)),
                ..old(self)@
            }),
            final(self).history_index == old(self).history_index,
            final(self).history@ == old(self).history@,
    {
        self.messages.push(
            ChatMessage { sender: sender.to_string(), content, style, timestamp: now.to_string() },
        );
        assert(self@.messages =~= old(self)@.messages.push(mk_msg(sender@, content@, style, now@)));
    }

    /// Handles a key press, showing `emotion` and stamping new messages with
    /// `now`. Enter hands a line that is no command to the engine.
    pub fn on_key(&mut self, key: Key, emotion: &str, now: &str) -> (r: TuiAction)
        requires
            old(self).wf(),
            key is PageUp ==> old(self)@.scroll + 5 <= usize::MAX,
        ensures
            final(self).wf(),
            final(self)@ == key_model(old(self)@, key, emotion@, now@),
            match r {
                TuiAction::Process { text, slot } => key is Enter && enter_processes(old(self)@)
                    && text@ == trim_spec(old(self)@.input) && slot == old(self)@.messages.len()
                    + 1,
                TuiAction::Redraw => !(key is Enter && enter_processes(old(self)@)),
            },
    {
        proof {
            reveal_strlit("/exit");
            reveal_strlit("/quit");
            reveal_strlit("/help");
            reveal_strlit("/clear");
            reveal_strlit("/emotion");
        }
        match key {
            Key::Char { c, control } => {
                if control && c == 'c' {
                    self.quit = true;
                } else if !self.thinking {
                    self.input.push(c);
                }
                TuiAction::Redraw
            },
            Key::Enter => {
                if self.thinking {
                    return TuiAction::Redraw;
                }
                let t = trim_chars(self.input.as_slice());
                if t.len() == 0 {
                    return TuiAction::Redraw;
                }
                let line = from_chars(t.as_slice());
                self.input = Vec::new();
                self.history.push(line.clone());
                self.history_index = self.history.len();
                proof {
                    assert(self@.history =~= old(self)@.history.push(t@));
                }
                if str_eq(line.as_str(), "/exit") || str_eq(line.as_str(), "/quit") {
                    self.push_message("系统", "Goodbye.".to_string(), MessageStyle::System, now);
                    self.quit = true;
                    TuiAction::Redraw
                } else if str_eq(line.as_str(), "/help") {
                    let mut help = concat3(
                        "命令列表:\n  /exit /quit  — 退出\n  /help       — 显示帮助\n  /clear      — 清屏\n  /emotion    — 显示当前情绪\n\n状态:\n  提供者: ",
                        self.provider.as_str(),
                        "\n  情绪: ",
                    );
                    help.append(emotion);
                    self.push_message("系统", help, MessageStyle::System, now);
                    TuiAction::Redraw
                } else if str_eq(line.as_str(), "/clear") {
                    self.messages = Vec::new();
                    self.scroll = 0;
                    proof {
                        assert(self@.messages =~= Seq::<MsgView>::empty());
                    }
                    TuiAction::Redraw
                } else if str_eq(line.as_str(), "/emotion") {
                    let text = concat2("当前情绪:\n  复合: ", emotion);
                    self.push_message("系统", text, MessageStyle::Info, now);
                    TuiAction::Redraw
                } else {
                    self.push_message("You", line.clone(), MessageStyle::User, now);
                    self.thinking = true;
                    let slot = self.messages.len();
                    self.push_message(
                        "Agent",
                        "‖ thinking... ‖".to_string(),
                        MessageStyle::Thinking,
                        now,
                    );
                    TuiAction::Process { text: line, slot }
                }
            },
            Key::Up => {
                if !self.thinking && self.history.len() > 0 && self.history_index > 0 {
                    self.history_index = self.history_index - 1;
                    let h = to_chars(self.history[self.history_index].as_str());
                    self.input = h;
                }
                TuiAction::Redraw
            },
            Key::Down => {
                if !self.thinking && self.history.len() > 0 {
                    if self.history_index < self.history.len() - 1 {
                        self.history_index = self.history_index + 1;
                        let h = to_chars(self.history[self.history_index].as_str());
                        self.input = h;
                    } else {
                        self.history_index = self.history.len();
                        self.input = Vec::new();
                    }
                }
                TuiAction::Redraw
            },
            Key::Backspace => {
                if !self.thinking && self.input.len() > 0 {
                    self.input.pop();
                }
                TuiAction::Redraw
            },
            Key::Esc => {
                self.quit = true;
                TuiAction::Redraw
            },
            Key::PageUp => {
                self.scroll = self.scroll + 5;
                TuiAction::Redraw
            },
            Key::PageDown => {
                self.scroll = if self.scroll >= 5 {
                    self.scroll - 5
                } else {
                    0
                };
                TuiAction::Redraw
            },
            Key::Other => TuiAction::Redraw,
        }
    }

    /// Puts the engine's reply, stamped `now`, in the placeholder at `slot`
    /// and shows the newest messages again.
    pub fn complete(&mut self, slot: usize, reply: String, now: &str)
        requires
            old(self).wf(),
            slot < old(self)@.messages.len(),
        ensures
            final(self).wf(),
            final(self)@ == complete_model(old(self)@, slot as int, reply@, now@),
    {
        let m = ChatMessage {
            sender: "Agent".to_string(),
            content: reply,
            style: MessageStyle::Assistant,
            timestamp: now.to_string(),
        };
        self.messages.set(slot, m);
        self.thinking = false;
        self.scroll = 0;
        assert(self@.messages =~= old(self)@.messages.update(
            slot as int,
            mk_msg("Agent"@, m.content@, MessageStyle::Assistant, now@),
        ));
    }
}

// ─── What is drawn ───────────────────────────────

/// The status bar text.
pub open spec fn status_spec(thinking: bool, provider: Seq<char>, emotion: Seq<char>) -> Seq<char> {
    if thinking {
        " ◆ "@ + provider + " ◆ "@ + emotion + " ◆ thinking..."@
    } else {
        " ◇ "@ + provider + " ◆ "@ + emotion
    }
}

/// The status bar: provider and emotion, and whether a reply is awaited.
pub fn status_text(thinking: bool, provider: &str, emotion: &str) -> (r: String)
    ensures
        r@ == status_spec(thinking, provider@, emotion@),
{
    let mut s = concat3(if thinking {
        " ◆ "
    } else {
        " ◇ "
    }, provider, " ◆ ");
    s.append(emotion);
    if thinking {
        s.append(" ◆ thinking...");
    }
    s
}

/// The label shown before a message of each style.
pub open spec fn style_label(style: MessageStyle) -> Seq<char> {
    match style {
        MessageStyle::User => "◈ You"@,
        MessageStyle::Assistant => "◇ Agent"@,
        MessageStyle::Thinking => "◇ Agent"@,
        MessageStyle::System => "◆ 系统"@,
        MessageStyle::Info => "● 信息"@,
    }
}

/// The header line of a message: its label and time.
pub fn message_header(style: MessageStyle, timestamp: &str) -> (r: String)
    ensures
        r@ == " "@ + style_label(style) + " "@ + timestamp@ + " "@,
{
    let label = match style {
        MessageStyle::User => "◈ You",
        MessageStyle::Assistant => "◇ Agent",
        MessageStyle::Thinking => "◇ Agent",
        MessageStyle::System => "◆ 系统",
        MessageStyle::Info => "● 信息",
    };
    let mut s = concat3(" ", label, " ");
    s.append(timestamp);
    s.append(" ");
    s
}

/// The title of the input box.
pub fn input_title(thinking: bool) -> (r: &'static str)
    ensures
        r@ == (if thinking {
            " processing… "@
        } else {
            " input "@
        }),
{
    if thinking {
        " processing… "
    } else {
        " input "
    }
}

// ─── Laws ────────────────────────────────────────

/// A line handed to the engine is shown as the user's message, and the
/// reply then stands right after it; the line is the newest history entry
/// and the view is ready for the next line.
pub proof fn law_reply_follows_line(
    m: TuiModel,
    emotion: Seq<char>,
    now: Seq<char>,
    reply: Seq<char>,
    later: Seq<char>,
)
    requires
        enter_processes(m),
    ensures
        ({
            let sent = key_model(m, Key::Enter, emotion, now);
            let slot = m.messages.len() + 1int;
            let done = complete_model(sent, slot, reply, later);
            &&& slot < sent.messages.len()
            &&& done.messages.len() == m.messages.len() + 2
            &&& done.messages[slot - 1] == mk_msg("You"@, trim_spec(m.input), MessageStyle::User, now)
            &&& done.messages[slot] == mk_msg("Agent"@, reply, MessageStyle::Assistant, later)
            &&& forall|i: int| 0 <= i < m.messages.len() ==> done.messages[i] == m.messages[i]
            &&& done.history.last() == trim_spec(m.input)
            &&& done.input.len() == 0
            &&& !done.thinking
        }),
{
    let sent = key_model(m, Key::Enter, emotion, now);
    let t = trim_spec(m.input);
    assert(sent == enter_model(m, emotion, now));
    assert(sent.messages == m.messages.push(mk_msg("You"@, t, MessageStyle::User, now)).push(
        mk_msg("Agent"@, "‖ thinking... ‖"@, MessageStyle::Thinking, now),
    ));
    assert(sent.history == m.history.push(t));
}

/// From the end of the history, Up recalls the newest line and Down goes
/// back to an empty input line at the end.
pub proof fn law_history_up_down(m: TuiModel, emotion: Seq<char>, now: Seq<char>)
    requires
        !m.thinking,
        m.history.len() > 0,
        m.history_index == m.history.len(),
    ensures
        ({
            let up = key_model(m, Key::Up, emotion, now);
            let down = key_model(up, Key::Down, emotion, now);
            &&& up.input == m.history.last()
            &&& up.history_index == m.history.len() - 1
            &&& down.input.len() == 0
            &&& down.history_index == m.history.len()
            &&& down.messages == m.messages
            &&& down.history == m.history
        }),
{
}

} // verus!
