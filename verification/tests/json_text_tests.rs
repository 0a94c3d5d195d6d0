use tremolite::cron::{mark_run_in_json, CronModule, JobFileLoad};
use tremolite::delegation::{DelegateMode, DelegationModule, DelegationStep};
use tremolite::json::JsonValue;
use tremolite::module::{EventResponse, ModuleError};
use tremolite::registry::Event;

#[test]
fn delegation_tool_calls_on_json_text() {
    let mut m = DelegationModule::new();
    assert!(matches!(m.execute_tool("foo", "{}"), Err(ModuleError::ToolNotFound(n)) if n == "foo"));
    match m.execute_tool("delegate_session", "not json") {
        Err(ModuleError::ToolExecutionFailed(e)) => assert!(!e.is_empty()),
        other => panic!("unexpected {:?}", other),
    }
    assert!(matches!(
        m.execute_tool("delegate_session", r#"{"goal":"echo hi","mode":"shell"}"#),
        Err(ModuleError::ToolExecutionFailed(e)) if e == "engine 尚未就绪，无法创建子会话"
    ));
    assert!(matches!(
        m.execute_tool("delegate_task", r#"{"mode":"shell","context":"x"}"#),
        Err(ModuleError::ToolExecutionFailed(e)) if e == "goal 不能为空"
    ));
    // Arguments that do not parse count as none for delegate_task.
    assert!(matches!(
        m.execute_tool("delegate_task", "not json"),
        Err(ModuleError::ToolExecutionFailed(e)) if e == "goal 不能为空"
    ));
    assert!(matches!(m.execute_tool("list_delegations", "{}"), Ok(DelegationStep::Reply(t)) if t == "暂无已完成委派任务~"));
    match m.execute_tool("delegate_task", r#"{"goal":"ls","timeout_secs":7}"#) {
        Ok(DelegationStep::RunTask { mode, context }) => {
            assert!(matches!(mode, DelegateMode::Shell { command } if command == "ls"));
            assert_eq!(context.timeout_secs, 7);
        }
        other => panic!("unexpected {:?}", other),
    }
    assert!(matches!(m.on_event(&Event::Startup), EventResponse::Pass));
    match m.execute_tool("delegate_session", r#"{"goal":"echo hi","timeout_secs":18446744073709551615}"#) {
        Ok(DelegationStep::RunSession(d)) => {
            assert_eq!((d.goal.as_str(), d.mode.as_str(), d.timeout_secs), ("echo hi", "shell", u64::MAX));
        }
        other => panic!("unexpected {:?}", other),
    }
    match m.execute_tool("delegate_session", r#"{"goal":"g","timeout_secs":1.5}"#) {
        Ok(DelegationStep::RunSession(d)) => assert_eq!(d.timeout_secs, 300),
        other => panic!("unexpected {:?}", other),
    }
}

#[test]
fn json_as_u64_reads_large_numbers() {
    assert_eq!(JsonValue::OtherNumber("18446744073709551615".into()).as_u64(), Some(u64::MAX));
    assert_eq!(JsonValue::OtherNumber("18446744073709551616".into()).as_u64(), None);
    assert_eq!(JsonValue::OtherNumber("1.5".into()).as_u64(), None);
    assert_eq!(JsonValue::OtherNumber("1e3".into()).as_u64(), None);
    assert_eq!(JsonValue::Int(-1).as_u64(), None);
    assert_eq!(JsonValue::Int(42).as_u64(), Some(42));
}

#[test]
fn cron_job_file_text_loads() {
    let mut m = CronModule::new();
    let text = r#"[{"name":"a","schedule":"0 */30 * * * *","command":"hi","type":"prompt","next_run":5000},
                  {"name":"b","schedule":"0 */30 * * * *","command":"ls","enabled":false,"next_run":18446744073709551615}]"#;
    assert_eq!(m.load_from_json(text, 1000), JobFileLoad::Loaded);
    let jobs = m.list_jobs();
    assert_eq!(jobs.len(), 2);
    assert_eq!((jobs[0].name.as_str(), jobs[0].next_run, jobs[0].enabled), ("a", 5000, true));
    assert_eq!((jobs[1].name.as_str(), jobs[1].next_run, jobs[1].enabled), ("b", u64::MAX, false));
    assert_eq!(jobs[1].prompt, "shell: ls");
    // A text that is not an array changes nothing.
    assert_eq!(m.load_from_json("{\"name\":\"a\"}", 1000), JobFileLoad::Unparsed);
    assert_eq!(m.load_from_json("not json", 1000), JobFileLoad::Unparsed);
    assert_eq!(m.list_jobs().len(), 2);
    assert_eq!(m.load_from_json("[]", 1000), JobFileLoad::Loaded);
    assert_eq!(m.list_jobs().len(), 0);
}

#[test]
fn cron_job_file_text_marks_runs() {
    let text = r#"[{"name":"a","command":"x"},{"name":"b"},3]"#;
    let entries = mark_run_in_json(text, "a", 100, 160).unwrap();
    assert_eq!(entries.len(), 3);
    assert_eq!(entries[0].get("last_run").and_then(|v| v.as_u64()), Some(100));
    assert_eq!(entries[0].get("next_run").and_then(|v| v.as_u64()), Some(160));
    assert_eq!(entries[0].get("command").and_then(|v| v.as_str()), Some("x"));
    assert!(entries[1].get("last_run").is_none());
    assert!(matches!(entries[2], JsonValue::Int(3)));
    assert!(mark_run_in_json("not json", "a", 1, 2).is_none());
}
