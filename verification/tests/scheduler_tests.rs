use tremolite::json::JsonValue;
use tremolite::llm::{
    LLMProvider, LlmError, LlmResponse, Message, ProviderRegistry, StreamIterator, ToolDefinition,
};
use tremolite::scheduler::{
    command_effect, command_reply, compress_request, help_reply, is_command, models_reply,
    parse_command, peek_reply, pending_id, reply_outbound, sessions_reply, status_reply,
    SessionEffect, SessionFacts, SlashCommand,
};

struct Named(&'static str);

impl LLMProvider for Named {
    fn name(&self) -> &str {
        self.0
    }
    fn chat(&self, _m: &[Message], _t: &[ToolDefinition]) -> Result<LlmResponse, LlmError> {
        Err(LlmError::Api("offline".into()))
    }
    fn chat_stream(&self, _m: &[Message], _t: &[ToolDefinition]) -> Result<Box<dyn StreamIterator>, LlmError> {
        Err(LlmError::Api("offline".into()))
    }
    fn models(&self) -> Vec<String> {
        vec![]
    }
    fn max_context_tokens(&self) -> u32 {
        8000
    }
}

fn facts() -> SessionFacts {
    SessionFacts {
        session_id: "alpha".into(),
        sessions: vec![("alpha".into(), true), ("beta".into(), false)],
        state: Some((true, false)),
        peek_entries: vec!["kamisama: 你好".into(), "葵: 嗨".into()],
    }
}

fn reply(line: &str, reg: &mut ProviderRegistry<dyn LLMProvider>) -> String {
    command_reply(&parse_command(line), &facts(), reg)
}

#[test]
fn commands_are_lines_starting_with_slash() {
    assert!(is_command("/help"));
    assert!(!is_command(" /help"));
    assert!(!is_command("help"));
    assert!(!is_command(""));
}

#[test]
fn parse_splits_word_and_argument() {
    assert!(matches!(parse_command("  /title   我的会话  "), SlashCommand::Title(ref t) if t == "我的会话"));
    assert!(matches!(parse_command("/peek\tbeta"), SlashCommand::Peek(ref t) if t == "beta"));
    assert!(matches!(parse_command("/model"), SlashCommand::Model(ref t) if t.is_empty()));
    assert!(matches!(parse_command("/h"), SlashCommand::Help));
    assert!(matches!(parse_command("/commands extra"), SlashCommand::Help));
    assert!(matches!(parse_command("/reset"), SlashCommand::Reset));
    assert!(matches!(parse_command("/q"), SlashCommand::Quit));
    assert!(matches!(parse_command("/Help"), SlashCommand::Unknown(ref w) if w == "/Help"));
}

#[test]
fn fixed_replies() {
    let mut reg: ProviderRegistry<dyn LLMProvider> = ProviderRegistry::new();
    let help = reply("/help", &mut reg);
    assert!(help.starts_with("可用命令：\n  /help        — 显示此帮助\n"));
    assert!(help.ends_with("  /quit /exit  — 退出"));
    assert_eq!(help, help_reply());
    assert_eq!(reply("/new", &mut reg), "会话已重置。可以重新开始了呢~");
    assert_eq!(reply("/share", &mut reg), "已共享当前会话，别的 session 可以 peek 进来了喔");
    assert_eq!(reply("/unshare", &mut reg), "已取消共享");
    assert_eq!(reply("/cron", &mut reg), "定时任务由调度器管理，当前 session 不能直接查看。\n如需注册，走调度器 API 呢~");
    assert_eq!(reply("/exit", &mut reg), "再见~");
    assert_eq!(reply("/dance now", &mut reg), "不认识「/dance」。试试 /help 呢~");
    assert_eq!(reply("/title", &mut reg), "用法：/title <会话名称>");
    assert_eq!(reply("/title 葵的日记", &mut reg), "会话标题已设为「葵的日记」");
}

#[test]
fn session_effects() {
    assert!(matches!(command_effect(&parse_command("/new")), Some(SessionEffect::Close)));
    assert!(matches!(command_effect(&parse_command("/share")), Some(SessionEffect::Share)));
    assert!(matches!(command_effect(&parse_command("/unshare")), Some(SessionEffect::Unshare)));
    assert!(matches!(
        command_effect(&parse_command("/title 日记")),
        Some(SessionEffect::Remember(ref m)) if m == "[session_title] 日记"
    ));
    assert!(command_effect(&parse_command("/title   ")).is_none());
    assert!(command_effect(&parse_command("/help")).is_none());
}

#[test]
fn listing_replies() {
    let mut reg: ProviderRegistry<dyn LLMProvider> = ProviderRegistry::new();
    assert_eq!(reply("/sessions", &mut reg), "活跃会话（2）：\n  alpha [共享]\n  beta");
    assert_eq!(sessions_reply(&vec![]), "没有活跃会话喔~");
    assert_eq!(reply("/peek alpha", &mut reg), "会话「alpha」最近记录：\n  kamisama: 你好\n  葵: 嗨");
    assert_eq!(reply("/peek", &mut reg), "用法：/peek <session_id>");
    assert_eq!(peek_reply("ghost", &vec![]), "会话「ghost」没有找到记录呢");
}

#[test]
fn provider_replies_and_switching() {
    let mut reg: ProviderRegistry<dyn LLMProvider> = ProviderRegistry::new();
    assert_eq!(reply("/status", &mut reg), "会话：alpha\n共享：是\n已冷却：否");
    assert_eq!(reply("/models", &mut reg), "没有注册任何 provider 呢");
    assert_eq!(reply("/model", &mut reg), "当前没有默认模型呢~");
    reg.register("deepseek", Box::new(Named("deepseek")));
    reg.register("ollama", Box::new(Named("ollama")));
    assert_eq!(reply("/model gpt", &mut reg), "没有叫「gpt」的 provider 呢。看看 /models 有哪些呢~");
    assert!(reg.get_default().is_none());
    assert_eq!(reply("/model ollama", &mut reg), "已切换到「ollama」，重启后会恢复默认喔~");
    assert_eq!(reg.get_default().unwrap().name(), "ollama");
    assert_eq!(reply("/model", &mut reg), "当前模型：ollama");
    assert_eq!(reply("/models", &mut reg), "已注册 provider（2）：\n  deepseek\n  ollama ⬅️ 当前");
    assert_eq!(reply("/status", &mut reg), "会话：alpha\n共享：是\n已冷却：否\n模型：ollama");
    assert_eq!(status_reply("s", None, None), "会话：s");
    assert_eq!(models_reply(&vec!["a".into()], None), "已注册 provider（1）：\n  a");
}

#[test]
fn replies_go_to_waiting_caller_or_channel() {
    assert!(reply_outbound("ok", "http", "pending-1", true).is_none());
    let o = reply_outbound("ok", "qq", "group:1", false).unwrap();
    assert_eq!((o.content.as_str(), o.channel.as_str(), o.target.as_str()), ("ok", "qq", "group:1"));
    assert_eq!(pending_id(1_700_000_000_123_456_789), "pending-1700000000123456789");
}

#[test]
fn compression_request_body() {
    assert!(compress_request(&vec![]).is_none());
    let v = compress_request(&vec!["a".into(), "b".into()]).unwrap();
    match v.get("entries") {
        Some(JsonValue::Array(items)) => {
            assert_eq!(items.len(), 2);
            assert_eq!(items[1].get("content").and_then(|c| c.as_str()), Some("b"));
        }
        other => panic!("{other:?}"),
    }
}
