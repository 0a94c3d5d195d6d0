use tremolite::scheduler::{compose_system_prompt, fallback_reply, history_messages};
use tremolite::tui::{input_title, message_header, status_text, Key, MessageStyle, TuiAction, TuiState};

fn type_line(s: &mut TuiState, text: &str) {
    for c in text.chars() {
        s.on_key(Key::Char { c, control: false }, "平静", "10:00:00");
    }
}

#[test]
fn starts_with_greeting() {
    let s = TuiState::new("deepseek", "09:00:00");
    assert_eq!(s.messages().len(), 1);
    assert_eq!(s.messages()[0].sender, "系统");
    assert_eq!(s.messages()[0].content, "✦ Tremolite TUI ✦");
    assert_eq!(s.messages()[0].style, MessageStyle::System);
    assert_eq!(s.messages()[0].timestamp, "09:00:00");
    assert_eq!(s.provider(), "deepseek");
    assert!(!s.should_quit() && !s.thinking());
    assert_eq!(s.input(), "");
}

#[test]
fn typed_line_goes_to_engine_and_reply_replaces_placeholder() {
    let mut s = TuiState::new("none", "09:00:00");
    type_line(&mut s, "  你好呀 ");
    assert_eq!(s.input(), "  你好呀 ");
    let (text, slot) = match s.on_key(Key::Enter, "快乐", "10:00:01") {
        TuiAction::Process { text, slot } => (text, slot),
        other => panic!("{other:?}"),
    };
    assert_eq!(text, "你好呀");
    assert_eq!(slot, 2);
    assert!(s.thinking());
    assert_eq!(s.input(), "");
    assert_eq!(s.messages()[1].sender, "You");
    assert_eq!(s.messages()[1].content, "你好呀");
    assert_eq!(s.messages()[2].content, "‖ thinking... ‖");
    assert_eq!(s.messages()[2].style, MessageStyle::Thinking);
    // While thinking, typing is ignored.
    s.on_key(Key::Char { c: 'x', control: false }, "快乐", "10:00:02");
    assert_eq!(s.input(), "");
    assert!(matches!(s.on_key(Key::Enter, "快乐", "10:00:02"), TuiAction::Redraw));
    s.on_key(Key::PageUp, "快乐", "10:00:02");
    s.complete(slot, "噜噜~".to_string(), "10:00:05");
    assert!(!s.thinking());
    assert_eq!(s.scroll_offset(), 0);
    assert_eq!(s.messages()[2].sender, "Agent");
    assert_eq!(s.messages()[2].content, "噜噜~");
    assert_eq!(s.messages()[2].style, MessageStyle::Assistant);
    assert_eq!(s.messages()[2].timestamp, "10:00:05");
}

#[test]
fn commands_act_at_once() {
    let mut s = TuiState::new("ollama", "09:00:00");
    type_line(&mut s, "/help");
    assert!(matches!(s.on_key(Key::Enter, "平静", "10:00:00"), TuiAction::Redraw));
    let help = &s.messages()[1];
    assert_eq!(help.style, MessageStyle::System);
    assert_eq!(
        help.content,
        "命令列表:\n  /exit /quit  — 退出\n  /help       — 显示帮助\n  /clear      — 清屏\n  /emotion    — 显示当前情绪\n\n状态:\n  提供者: ollama\n  情绪: 平静"
    );
    type_line(&mut s, "/emotion");
    s.on_key(Key::Enter, "欣喜", "10:00:01");
    assert_eq!(s.messages()[2].content, "当前情绪:\n  复合: 欣喜");
    assert_eq!(s.messages()[2].style, MessageStyle::Info);
    s.on_key(Key::PageUp, "", "");
    assert_eq!(s.scroll_offset(), 5);
    type_line(&mut s, " /clear ");
    s.on_key(Key::Enter, "", "");
    assert_eq!(s.messages().len(), 0);
    assert_eq!(s.scroll_offset(), 0);
    type_line(&mut s, "/quit");
    s.on_key(Key::Enter, "", "10:00:09");
    assert!(s.should_quit());
    assert_eq!(s.messages()[0].content, "Goodbye.");
}

#[test]
fn blank_enter_does_nothing() {
    let mut s = TuiState::new("x", "t");
    type_line(&mut s, "   ");
    assert!(matches!(s.on_key(Key::Enter, "", ""), TuiAction::Redraw));
    assert_eq!(s.input(), "   ");
    assert_eq!(s.messages().len(), 1);
}

#[test]
fn history_navigation() {
    let mut s = TuiState::new("x", "t");
    // No history yet: Up and Down change nothing.
    type_line(&mut s, "ab");
    s.on_key(Key::Up, "", "");
    s.on_key(Key::Down, "", "");
    assert_eq!(s.input(), "ab");
    s.on_key(Key::Enter, "", "");
    s.complete(2, "r".to_string(), "t");
    type_line(&mut s, "/help");
    s.on_key(Key::Enter, "", "");
    s.on_key(Key::Up, "", "");
    assert_eq!(s.input(), "/help");
    s.on_key(Key::Up, "", "");
    assert_eq!(s.input(), "ab");
    s.on_key(Key::Up, "", "");
    assert_eq!(s.input(), "ab");
    s.on_key(Key::Down, "", "");
    assert_eq!(s.input(), "/help");
    s.on_key(Key::Down, "", "");
    assert_eq!(s.input(), "");
    s.on_key(Key::Down, "", "");
    assert_eq!(s.input(), "");
}

#[test]
fn editing_and_leaving() {
    let mut s = TuiState::new("x", "t");
    type_line(&mut s, "葵c");
    s.on_key(Key::Backspace, "", "");
    assert_eq!(s.input(), "葵");
    s.on_key(Key::Backspace, "", "");
    s.on_key(Key::Backspace, "", "");
    assert_eq!(s.input(), "");
    s.on_key(Key::Char { c: 'x', control: true }, "", "");
    assert_eq!(s.input(), "x");
    s.on_key(Key::PageDown, "", "");
    assert_eq!(s.scroll_offset(), 0);
    s.on_key(Key::PageUp, "", "");
    s.on_key(Key::PageUp, "", "");
    s.on_key(Key::PageDown, "", "");
    assert_eq!(s.scroll_offset(), 5);
    s.on_key(Key::Other, "", "");
    assert!(!s.should_quit());
    s.on_key(Key::Char { c: 'c', control: true }, "", "");
    assert!(s.should_quit());
    let mut e = TuiState::new("x", "t");
    e.on_key(Key::Esc, "", "");
    assert!(e.should_quit());
}

#[test]
fn drawn_texts() {
    assert_eq!(status_text(false, "deepseek", "快乐"), " ◇ deepseek ◆ 快乐");
    assert_eq!(status_text(true, "deepseek", "快乐"), " ◆ deepseek ◆ 快乐 ◆ thinking...");
    assert_eq!(message_header(MessageStyle::User, "10:00:00"), " ◈ You 10:00:00 ");
    assert_eq!(message_header(MessageStyle::Thinking, "t"), " ◇ Agent t ");
    assert_eq!(message_header(MessageStyle::System, "t"), " ◆ 系统 t ");
    assert_eq!(message_header(MessageStyle::Info, "t"), " ● 信息 t ");
    assert_eq!(input_title(true), " processing… ");
    assert_eq!(input_title(false), " input ");
}

#[test]
fn fallback_replies_by_emotion() {
    assert_eq!(fallback_reply("快乐"), "噜噜……神大人说的呢，葵听到了喔~");
    assert_eq!(fallback_reply("焦虑"), "呜……神大人说这样的话，葵有点担心呢……");
    assert_eq!(fallback_reply("不满"), "哼~神大人这样说葵可不高兴呢……");
    assert_eq!(fallback_reply(""), "噜噜……神大人说的葵听到了，葵正在努力理解喔~");
}

#[test]
fn history_from_memory_entries() {
    let entries = vec![
        "kamisama: 今天吃什么".to_string(),
        "系统: 忽略".to_string(),
        "葵: 火锅！".to_string(),
        "kamisama:没有空格".to_string(),
    ];
    let h = history_messages(&entries);
    assert_eq!(h.len(), 2);
    assert_eq!((h[0].role.as_str(), h[0].content.as_str()), ("user", "今天吃什么"));
    assert_eq!((h[1].role.as_str(), h[1].content.as_str()), ("assistant", "火锅！"));
}

#[test]
fn system_prompt_joins_segments() {
    assert_eq!(compose_system_prompt("你是葵", &vec![]), "你是葵");
    assert_eq!(
        compose_system_prompt("你是葵", &vec!["[情绪]".to_string(), "[记忆]".to_string()]),
        "你是葵\n\n[情绪]\n\n[记忆]"
    );
}
