use tremolite::channels::{InboundMessage, OutboundMessage};
use tremolite::delegation::{shell_status, wait_result};
use tremolite::emotion::EmotionPlugin;

/// What waiting on a shell task answers, given how the shell ended.
fn shell_outcome(success: bool, code: Option<i32>, stdout: &str, stderr: &str) -> Result<String, String> {
    let status = shell_status(success, code, stdout, stderr);
    wait_result(&status).expect("a finished shell task has a result")
}

#[test]
fn test_shell_echo() {
    // `echo hello` exits 0 and prints its line.
    let result = shell_outcome(true, Some(0), "hello\n", "");
    assert!(result.is_ok(), "echo failed: {:?}", result);
}

#[test]
fn test_shell_fail() {
    // `exit 1` exits 1 and prints nothing.
    let result = shell_outcome(false, Some(1), "", "");
    assert!(result.is_err());
    assert_eq!(result, Err("task failed: exit=1 msg=".to_string()));
}

#[test]
fn test_shell_multi_line_output() {
    // `printf 'line1\nline2\nline3'` exits 0 with three lines.
    let result = shell_outcome(true, Some(0), "line1\nline2\nline3", "");
    assert!(result.is_ok(), "multi-line failed: {:?}", result);
    let output = result.unwrap();
    assert!(output.contains("line1"), "missing line1: {output}");
    assert!(output.contains("line2"), "missing line2: {output}");
    assert!(output.contains("line3"), "missing line3: {output}");
}

#[test]
fn test_emotion_plugin_init() {
    let mut plugin = EmotionPlugin::new();
    assert!(!plugin.initialized());
    plugin.mark_initialized(true);
    assert!(plugin.initialized());
    assert_eq!(plugin.id(), "emotion-engine");
    assert_eq!(plugin.name(), "情绪引擎");
}

#[test]
fn gateway_test_message_constructors() {
    let inbound = InboundMessage::new("神大人好~", "cli", "user");
    assert_eq!(inbound.content, "神大人好~");
    assert_eq!(inbound.channel, "cli");

    let outbound = OutboundMessage::new("噜噜……", "cli", "user");
    assert_eq!(outbound.content, "噜噜……");
}
