use tremolite::delegation::{
    parent_session, session_failure, session_mode, session_reply, session_request,
    session_result_note, session_start_notes, session_task, wait_limit, DelegateMode,
    DelegationModule,
};
use tremolite::json::JsonValue;
use tremolite::module::ModuleError;

fn s(t: &str) -> JsonValue {
    JsonValue::Str(t.to_string())
}

#[test]
fn delegation_module_starts_empty() {
    let mut m = DelegationModule::new();
    assert_eq!(m.default_timeout(), 300);
    assert_eq!(m.display_status(), None);
    assert_eq!(m.list_reply(), "暂无已完成委派任务~");
    assert!(m.list_completed_summary().is_empty());
    assert_eq!((m.id(), m.name(), m.version()), ("delegation", "任务委派", "0.2.0"));
    assert_eq!(m.provides(), vec!["delegation.spawn", "delegation.list", "delegation.session"]);
    assert_eq!(DelegationModule::new().with_timeout(42).default_timeout(), 42);
}

#[test]
fn delegation_module_numbers_tasks_and_sessions() {
    let mut m = DelegationModule::new();
    assert_eq!(m.next_task_id(), "task-1");
    assert_eq!(m.next_task_id(), "task-2");
    assert_eq!(m.next_session_id("root"), "root:delegate-1");
    assert_eq!(m.next_session_id("s9"), "s9:delegate-2");
}

#[test]
fn delegation_module_keeps_completed_results() {
    let mut m = DelegationModule::new();
    assert_eq!(m.finish_task(Ok("done".to_string())), Ok("[task:task-1] 完成: done".to_string()));
    assert_eq!(m.finish_task(Err("boom".to_string())), Err("boom".to_string()));
    let long: String = "x".repeat(100);
    assert_eq!(m.finish_task(Ok(long.clone())), Ok(format!("[task:task-3] 完成: {}", long)));
    assert_eq!(m.display_status(), Some("委派: 2完成 0活跃".to_string()));
    let lines = m.list_completed_summary();
    assert_eq!(lines.len(), 2);
    assert_eq!(lines[0], "[task-1] done...");
    assert_eq!(lines[1], format!("[task-3] {}...", "x".repeat(80)));
    assert_eq!(m.list_reply(), format!("[task-1] done...\n[task-3] {}...", "x".repeat(80)));
    m.cleanup_completed();
    assert_eq!(m.list_completed_summary().len(), 2);
}

#[test]
fn delegation_wait_limit_floor() {
    assert_eq!(wait_limit(3), 10);
    assert_eq!(wait_limit(10), 10);
    assert_eq!(wait_limit(45), 45);
}

#[test]
fn delegation_session_requests() {
    let bad: Result<Vec<(String, JsonValue)>, String> = Err("expected value".to_string());
    assert!(matches!(session_request(&bad, 300), Err(ModuleError::ToolExecutionFailed(m)) if m == "expected value"));
    let no_goal: Result<Vec<(String, JsonValue)>, String> = Ok(vec![("mode".to_string(), s("shell"))]);
    assert!(matches!(session_request(&no_goal, 300), Err(ModuleError::ToolExecutionFailed(m)) if m == "goal 不能为空"));
    let minimal: Result<Vec<(String, JsonValue)>, String> = Ok(vec![("goal".to_string(), s("ls"))]);
    let d = session_request(&minimal, 120).unwrap();
    assert_eq!((d.goal.as_str(), d.context.as_str(), d.mode.as_str(), d.timeout_secs), ("ls", "", "shell", 120));
    let full: Result<Vec<(String, JsonValue)>, String> = Ok(vec![
        ("goal".to_string(), s("写代码")),
        ("context".to_string(), s("ctx")),
        ("mode".to_string(), s("tremolite")),
        ("timeout_secs".to_string(), JsonValue::Int(30)),
    ]);
    let d = session_request(&full, 300).unwrap();
    assert_eq!((d.goal.as_str(), d.context.as_str(), d.mode.as_str(), d.timeout_secs), ("写代码", "ctx", "tremolite", 30));
    let negative: Result<Vec<(String, JsonValue)>, String> =
        Ok(vec![("goal".to_string(), s("g")), ("timeout_secs".to_string(), JsonValue::Int(-5))]);
    assert_eq!(session_request(&negative, 77).unwrap().timeout_secs, 77);
}

#[test]
fn delegation_session_modes() {
    assert!(matches!(session_mode("tremolite", "g"), DelegateMode::Tremolite));
    assert!(matches!(session_mode("opencode", "g"),
        DelegateMode::AcpTool { command, args } if command == "opencode" && args == vec!["--acp", "--stdio"]));
    assert!(matches!(session_mode("shell", "echo hi"), DelegateMode::Shell { command } if command == "echo hi"));
    assert!(matches!(session_mode("other", "ls"), DelegateMode::Shell { command } if command == "ls"));
}

#[test]
fn delegation_session_texts() {
    assert_eq!(parent_session(Some("s1")), "s1");
    assert_eq!(parent_session(Some("")), "root");
    assert_eq!(parent_session(None), "root");
    assert_eq!(session_start_notes("g", ""), vec!["[delegate_start] 目标: g"]);
    assert_eq!(session_start_notes("g", "c"), vec!["[delegate_start] 目标: g", "[delegate_context] c"]);
    assert_eq!(session_result_note("ok"), "[delegate_result] ok");
    assert_eq!(session_failure("超时"), "[delegate_error] 超时");
    let t = session_task("root:delegate-1", "g", "c");
    assert_eq!(t.session_id, "root:delegate-1");
    assert_eq!(t.input, "[delegate] 目标: g\nc");
    assert_eq!(t.channel, "delegation");
    assert_eq!(t.sender, "root:delegate-1");
    assert_eq!(
        session_reply("root:delegate-1", "g", "r"),
        "子会话 root:delegate-1 已完成。\n任务目标：g\n结果：r\n\n可用 peek_session 查看完整上下文呢~"
    );
}
