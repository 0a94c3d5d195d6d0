use tremolite::attention::{classify_chat_type, window_segments, ChatType, EmbeddingEngine};
use tremolite::compress::{block_ranges, effective_threshold, estimate_tokens};
use tremolite::delegation::{
    acp_prompt, acp_status, delegate_request, delegate_session_name, shell_status,
    tremolite_status, wait_result, DelegateMode, TaskContext, TaskStatus,
};
use tremolite::emotion::{style_from_emotion, Intensity};
use tremolite::json::JsonValue;
use tremolite::modules::{dashboard_html, CliGateway, DashboardModule, DistillerModule};
use tremolite::session::{CrossSessionRing, NoteDistiller};
use tremolite::user::{extract_traits, traits_would_panic, UserModuleConfig};

#[test]
fn delegation_task_context_builders() {
    let c = TaskContext::new("g", "c").with_workdir("/w").with_soul("s").with_timeout(9).with_expected("e");
    assert_eq!((c.goal.as_str(), c.context.as_str(), c.workdir.as_str()), ("g", "c", "/w"));
    assert_eq!((c.soul_fragment.as_str(), c.expected_output.as_str(), c.timeout_secs), ("s", "e", 9));
    assert_eq!(TaskContext::new("a", "b").timeout_secs, 300);
    assert_eq!(acp_prompt(&c), "Task: g\n\nContext:\nc\n\nWorkdir: /w\nExpected: e");
}

#[test]
fn delegation_outcomes() {
    assert!(wait_result(&TaskStatus::Running).is_none());
    assert_eq!(wait_result(&TaskStatus::Completed("r".into())), Some(Ok("r".to_string())));
    assert_eq!(wait_result(&TaskStatus::Failed("x".into())), Some(Err("task failed: x".to_string())));
    assert_eq!(wait_result(&TaskStatus::Cancelled), Some(Err("task cancelled".to_string())));
    match shell_status(true, Some(0), "hello\n", "") {
        TaskStatus::Completed(o) => assert_eq!(o, "hello\n"),
        _ => panic!("expected completion"),
    }
    match shell_status(false, Some(1), "out", "  boom \n") {
        TaskStatus::Failed(m) => assert_eq!(m, "exit=1 msg=boom"),
        _ => panic!("expected failure"),
    }
    match shell_status(false, None, " only stdout ", "") {
        TaskStatus::Failed(m) => assert_eq!(m, "exit=-1 msg=only stdout"),
        _ => panic!("expected failure"),
    }
    match acp_status("opencode", "", Some((false, Some(2)))) {
        TaskStatus::Failed(m) => assert_eq!(m, "opencode exited with code 2"),
        _ => panic!("expected failure"),
    }
    match acp_status("opencode", " done ", Some((false, Some(2)))) {
        TaskStatus::Completed(o) => assert_eq!(o, "done"),
        _ => panic!("expected completion"),
    }
    match tremolite_status(false, " bad\n") {
        TaskStatus::Failed(e) => assert_eq!(e, "bad"),
        _ => panic!("expected failure"),
    }
    assert_eq!(delegate_session_name("abcdefghijklmnopqrstuvwxyz"), "delegate-abcdefghijklmnopqrst");
}

#[test]
fn delegation_requests() {
    let args = Some(vec![
        ("goal".to_string(), JsonValue::Str("echo hi".into())),
        ("mode".to_string(), JsonValue::Str("opencode".into())),
        ("timeout_secs".to_string(), JsonValue::Int(42)),
    ]);
    let (mode, ctx) = delegate_request(&args, 300).unwrap();
    match mode {
        DelegateMode::AcpTool { command, args } => {
            assert_eq!(command, "opencode");
            assert_eq!(args, vec!["--acp".to_string(), "--stdio".to_string()]);
        },
        _ => panic!("expected an ACP tool"),
    }
    assert_eq!(ctx.workdir, ".");
    assert_eq!(ctx.timeout_secs, 42);
    let (mode, ctx) = delegate_request(&Some(vec![("goal".to_string(), JsonValue::Str("ls".into()))]), 7).unwrap();
    assert!(matches!(mode, DelegateMode::Shell { ref command } if command == "ls"));
    assert_eq!(ctx.timeout_secs, 7);
    assert!(delegate_request(&None, 7).is_err());
}

#[test]
fn compress_estimates_and_blocks() {
    assert_eq!(estimate_tokens(""), 0);
    assert_eq!(estimate_tokens("abc"), 2);
    assert_eq!(estimate_tokens("你好"), 1);
    assert_eq!(estimate_tokens("你好吗"), 2);
    assert_eq!(block_ranges(10, 3), vec![(0, 4), (4, 8), (8, 10)]);
    assert_eq!(block_ranges(2, 5), vec![(0, 1), (1, 2)]);
    assert!(block_ranges(0, 5).is_empty());
}

#[test]
fn attention_windows_and_types() {
    let w = window_segments("abcdefg", 10, 3, 2);
    let expected: Vec<(usize, String)> = vec![
        (10, "abc".into()), (12, "cde".into()), (14, "efg".into()), (16, "g".into()),
    ];
    assert_eq!(w, expected);
    assert!(window_segments("", 0, 3, 2).is_empty());
    assert!(window_segments("abc", 0, 0, 0).is_empty());
    assert_eq!(classify_chat_type(true, true, false), ChatType::FocusDiscussion);
    assert_eq!(classify_chat_type(false, true, true), ChatType::TopicShift);
    assert_eq!(classify_chat_type(true, false, true), ChatType::Scattered);
    assert_eq!(ChatType::TopicShift.as_str(), "topic_shift");
    let e = EmbeddingEngine::new("https://api.example.com/v1//", "k", "m");
    assert_eq!(e.api_base, "https://api.example.com/v1");
}

#[test]
fn emotion_names_and_styles() {
    assert_eq!(Intensity::VeryStrong.as_str(), "极强");
    assert_eq!(Intensity::Faint.as_str(), "微");
    assert_eq!(style_from_emotion("愤怒"), "直接冷硬");
    assert_eq!(style_from_emotion("信任"), "温柔乖巧");
    assert_eq!(style_from_emotion("未知"), "日常语气");
}

#[test]
fn user_traits_and_config() {
    let t = extract_traits("我住在成都。我喜欢猫");
    assert_eq!(t, vec![
        ("喜好".to_string(), "喜欢猫".to_string()),
        ("居住地".to_string(), "住在成都".to_string()),
    ]);
    let t = extract_traits("我不吃辣的东西");
    assert_eq!(t, vec![("饮食禁忌".to_string(), "不吃辣".to_string())]);
    assert!(traits_would_panic("我喜欢a一二三四五六"));
    assert!(!traits_would_panic("我喜欢火锅和宫保鸡丁"));
    let c = UserModuleConfig::default();
    assert!(c.auto_mode && !c.timed_mode);
    assert_eq!(c.message_interval, 5);
}

#[test]
fn session_ring_and_distiller() {
    let mut ring = CrossSessionRing::new();
    ring.push("s".into(), "one".into(), "中性".into());
    ring.push("s".into(), "two".into(), "中性".into());
    let p = ring.peek(5);
    assert_eq!(p.len(), 2);
    assert_eq!(p[0].summary, "two");
    assert_eq!(p[1].summary, "one");
    ring.clear();
    assert_eq!(ring.len(), 0);
    let (s, m) = NoteDistiller::distill("今天好烦啊");
    assert_eq!((s.as_str(), m.as_str()), ("今天好烦啊", "不满"));
    let long = "一".repeat(31);
    let (s, m) = NoteDistiller::distill(&long);
    assert_eq!(s, format!("{}…", "一".repeat(30)));
    assert_eq!(m, "中性");
    assert_eq!(NoteDistiller::distill("真的吗？").1, "疑问");
    assert_eq!(NoteDistiller::distill("太好了!").1, "激动");
    assert_eq!(NoteDistiller::distill("哈哈哈").1, "开心");
}

#[test]
fn small_modules() {
    assert_eq!(dashboard_html("<p>v{{VERSION}} {{VERSION}}</p>", "0.3.0"), "<p>v0.3.0 0.3.0</p>");
    let d = DashboardModule::new();
    assert_eq!(d.provides(), vec!["dashboard.ui".to_string(), "dashboard.status".to_string()]);
    let g = CliGateway::new();
    assert_eq!(g.name(), "cli");
    let dm = DistillerModule::new(|s: &str| -> Result<String, String> { Ok(s.to_string()) });
    assert_eq!((dm.llm())("x"), Ok("x".to_string()));
}

/// Whether any block of a scale scores above `threshold`.
fn scale_active(scores: &[f64], threshold: f64) -> bool {
    scores.iter().any(|s| *s > threshold)
}

#[test]
fn test_chat_type_classify() {
    // No blocks anywhere: scattered.
    let (focus, micro, wide): (Vec<f64>, Vec<f64>, Vec<f64>) = (vec![], vec![], vec![]);
    let wide_first = wide.first().map(|s| *s > 0.3).unwrap_or(false);
    assert_eq!(classify_chat_type(scale_active(&focus, 0.5), scale_active(&micro, 0.5), wide_first), ChatType::Scattered);
    // Only the wide scale: a topic shift.
    let wide = vec![0.5];
    let wide_first = wide.first().map(|s| *s > 0.3).unwrap_or(false);
    assert_eq!(classify_chat_type(scale_active(&focus, 0.5), scale_active(&micro, 0.5), wide_first), ChatType::TopicShift);
    // Focus and micro: a focused discussion.
    let (focus, micro) = (vec![0.6], vec![0.6]);
    assert_eq!(classify_chat_type(scale_active(&focus, 0.5), scale_active(&micro, 0.5), wide_first), ChatType::FocusDiscussion);
}

#[test]
fn compress_effective_threshold() {
    assert_eq!(effective_threshold(5000, Some(128000)), 5000);
    assert_eq!(effective_threshold(0, Some(128000)), 64000);
    assert_eq!(effective_threshold(0, Some(32000)), 16000);
    assert_eq!(effective_threshold(0, None), 64000);
}
