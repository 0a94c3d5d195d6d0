use tremolite::cron::{
    calc_next_run_at, cron_list_answer, extract_deliver_target, job_from_entry, list_jobs,
    mark_run, normalize_deliver, parse_schedule_str, prompt_task, schedule_debug_string,
    shell_output_task, tick, CronJobState, CronModule, JobAction, Schedule,
};
use tremolite::json::JsonValue;

fn job(name: &str, schedule: Schedule, next_run: u64, enabled: bool) -> CronJobState {
    CronJobState {
        name: name.into(),
        schedule,
        action: JobAction::Prompt(format!("do {}", name)),
        channel: "qq".into(),
        deliver_target: None,
        next_run,
        run_count: 0,
        enabled,
    }
}

#[test]
fn cron_next_run_every_once_expr() {
    assert_eq!(calc_next_run_at(&Schedule::EverySecs(30), 1000), 1030);
    assert_eq!(calc_next_run_at(&Schedule::Once { delay_secs: 7 }, 1000), 1007);
    assert_eq!(calc_next_run_at(&Schedule::CronExpr("* * * * *".into()), 1000), 1060);
}

#[test]
fn cron_next_run_daily() {
    // 2023-11-14 22:13:20 UTC is 1700000000.
    let now = 1_700_000_000u64;
    let day_start = now - now % 86400;
    let r = calc_next_run_at(&Schedule::Daily { hour: 23, minute: 0 }, now);
    assert_eq!(r, day_start + 23 * 3600);
    let r = calc_next_run_at(&Schedule::Daily { hour: 8, minute: 30 }, now);
    assert_eq!(r, day_start + 86400 + 8 * 3600 + 30 * 60);
    assert!(r > now && r <= now + 86400);
}

#[test]
fn cron_parse_schedule_strings() {
    match parse_schedule_str("0 */30 * * * *") {
        Schedule::EverySecs(s) => assert_eq!(s, 1800),
        _ => panic!("expected minutes"),
    }
    match parse_schedule_str("0 0 */2 * * *") {
        Schedule::EverySecs(s) => assert_eq!(s, 7200),
        _ => panic!("expected hours"),
    }
    match parse_schedule_str("0 30 8 * * *") {
        Schedule::Daily { hour, minute } => assert_eq!((hour, minute), (8, 30)),
        _ => panic!("expected daily"),
    }
    match parse_schedule_str("0 */x * * * *") {
        Schedule::EverySecs(s) => assert_eq!(s, 1800),
        _ => panic!("expected the default interval"),
    }
    match parse_schedule_str("  15  10 * * 1-5  ") {
        Schedule::CronExpr(e) => assert_eq!(e, "15 10 * * 1-5"),
        _ => panic!("expected a cron expression"),
    }
    match parse_schedule_str("1 2 3 4 5 6 7") {
        Schedule::CronExpr(e) => assert_eq!(e, "1 2 3 4 5"),
        _ => panic!("expected a cron expression"),
    }
}

#[test]
fn cron_deliver_settings() {
    assert_eq!(normalize_deliver("all"), "__all__");
    assert_eq!(normalize_deliver(""), "__all__");
    assert_eq!(normalize_deliver("napcat:group:123"), "napcat");
    assert_eq!(normalize_deliver("origin"), "origin");
    assert_eq!(extract_deliver_target("napcat:group:123"), Some("group:123".to_string()));
    assert_eq!(extract_deliver_target("napcat:"), None);
    assert_eq!(extract_deliver_target("origin"), None);
}

#[test]
fn cron_job_from_entry() {
    let entry = JsonValue::Object(vec![
        ("name".into(), JsonValue::Str("morning".into())),
        ("schedule".into(), JsonValue::Str("0 30 8 * * *".into())),
        ("command".into(), JsonValue::Str("早安".into())),
        ("deliver".into(), JsonValue::Str("napcat:private:42".into())),
        ("type".into(), JsonValue::Str("prompt".into())),
        ("enabled".into(), JsonValue::Bool(false)),
        ("next_run".into(), JsonValue::Int(99)),
    ]);
    let j = job_from_entry(&entry, 1000);
    assert_eq!(j.name, "morning");
    assert_eq!(j.channel, "napcat");
    assert_eq!(j.deliver_target, Some("private:42".to_string()));
    assert!(!j.enabled);
    assert_eq!(j.next_run, 99);
    assert!(matches!(j.action, JobAction::Prompt(ref p) if p == "早安"));
    let bare = job_from_entry(&JsonValue::Object(vec![]), 1000);
    assert_eq!(bare.name, "未命名");
    assert_eq!(bare.channel, "origin");
    assert!(bare.enabled);
    assert_eq!(bare.next_run, 1060);
    assert!(matches!(bare.action, JobAction::Shell(ref c) if c.is_empty()));
}

#[test]
fn cron_tick_fires_due_jobs_once() {
    let mut jobs = vec![
        job("a", Schedule::EverySecs(60), 100, true),
        job("b", Schedule::EverySecs(60), 500, true),
        job("c", Schedule::EverySecs(60), 50, false),
    ];
    jobs[0].deliver_target = Some("group:1".into());
    let fired = tick(&mut jobs, 200);
    assert_eq!(fired.len(), 1);
    assert_eq!(fired[0].name, "a");
    assert_eq!(fired[0].sender, "group:1");
    assert_eq!(fired[0].next, 260);
    assert_eq!(jobs[0].next_run, 260);
    assert_eq!(jobs[0].run_count, 1);
    assert_eq!(jobs[1].run_count, 0);
    assert_eq!(jobs[2].run_count, 0);
    let again = tick(&mut jobs, 200);
    assert!(again.is_empty());
    let task = prompt_task(&fired[0]).unwrap();
    assert_eq!(task.session_id, "cron-a");
    assert_eq!(task.sender, "cron-a");
    assert_eq!(task.input, "do a");
    assert!(shell_output_task(&fired[0], "  \n ").is_none());
    let t = shell_output_task(&fired[0], " out \n").unwrap();
    assert_eq!(t.input, "out");
    assert_eq!(t.sender, "group:1");
}

#[test]
fn cron_mark_run_updates_entry() {
    let mut entries = vec![
        JsonValue::Object(vec![
            ("name".into(), JsonValue::Str("a".into())),
            ("next_run".into(), JsonValue::Int(1)),
        ]),
        JsonValue::Object(vec![("name".into(), JsonValue::Str("b".into()))]),
    ];
    mark_run(&mut entries, "a", 10, 70);
    match &entries[0] {
        JsonValue::Object(m) => {
            assert_eq!(m.len(), 3);
            assert!(matches!(m[1].1, JsonValue::Int(70)));
            assert_eq!(m[2].0, "last_run");
            assert!(matches!(m[2].1, JsonValue::Int(10)));
        },
        _ => panic!("expected an object"),
    }
    match &entries[1] {
        JsonValue::Object(m) => assert_eq!(m.len(), 1),
        _ => panic!("expected an object"),
    }
}

#[test]
fn cron_list_and_answer() {
    let jobs = vec![
        job("a", Schedule::CronExpr("1 2 3 4 5".into()), 130, true),
        job("b", Schedule::Daily { hour: 8, minute: 5 }, 90, false),
    ];
    let info = list_jobs(&jobs);
    assert_eq!(info[0].schedule, "CronExpr(\"1 2 3 4 5\")");
    assert_eq!(info[1].schedule, "Daily { hour: 8, minute: 5 }");
    assert_eq!(info[0].prompt, "prompt: do a");
    let text = cron_list_answer(&info, 100);
    assert_eq!(
        text,
        "定时任务（2）：\n🟢 a — CronExpr(\"1 2 3 4 5\") (下次: 30秒后, 已跑 0 次)\n🔴 b — Daily { hour: 8, minute: 5 } (下次: 0秒后, 已跑 0 次)"
    );
    assert_eq!(cron_list_answer(&vec![], 0), "暂无定时任务呢~");
    assert_eq!(schedule_debug_string(&Schedule::EverySecs(5)), "EverySecs(5)");
    assert_eq!(schedule_debug_string(&Schedule::Once { delay_secs: 3 }), "Once { delay_secs: 3 }");
}

#[test]
fn cron_module_tool() {
    let mut m = CronModule::new();
    m.add_job_at("n", Schedule::EverySecs(10), JobAction::Shell("ls".into()), "cli", 5);
    let list = m.list_jobs();
    assert_eq!(list.len(), 1);
    assert_eq!(list[0].next_run, 15);
    assert_eq!(list[0].prompt, "shell: ls");
    let text = m.execute_tool_at("cron_list", 5).unwrap();
    assert_eq!(text, "定时任务（1）：\n🟢 n — EverySecs(10) (下次: 10秒后, 已跑 0 次)");
    assert!(m.execute_tool_at("other", 5).is_err());
}

#[test]
fn add_jobs_now() {
    let mut m = tremolite::cron::CronModule::new();
    assert_eq!(m.add_job("p", Schedule::EverySecs(0), "hello", "cli"), Some(()));
    assert_eq!(m.add_shell_job("s", Schedule::EverySecs(60), "ls", "cli"), Some(()));
    let jobs = m.list_jobs();
    assert_eq!(jobs.len(), 2);
    assert_eq!(jobs[0].name, "p");
    assert_eq!(jobs[1].name, "s");
}
