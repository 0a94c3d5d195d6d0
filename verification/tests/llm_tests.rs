use tremolite::llm::{
    assemble, FeeTracker, LlmError, LlmResponse, Message, PromptBuilder, PromptContext,
    PromptContributor, SingleChunkStream, StreamIterator, Usage,
};
use tremolite::modules::{AttentionContributor, EmotionContributor};

#[test]
fn llm_tool_result_message() {
    let m = Message::tool_result("call-1", "ok");
    assert_eq!(m.role, "tool");
    assert_eq!(m.tool_call_id, Some("call-1".to_string()));
    assert!(m.tool_calls.is_none());
}

#[test]
fn llm_fee_tracker() {
    let mut f = FeeTracker::new();
    f.record_success(&Usage { prompt_tokens: 10, completion_tokens: 5, total_tokens: 15 });
    f.record_failure();
    f.record_success(&Usage { prompt_tokens: 1, completion_tokens: 2, total_tokens: 3 });
    assert_eq!(f.total_calls, 3);
    assert_eq!(f.successful_calls + f.failed_calls, f.total_calls);
    assert_eq!(f.total_prompt_tokens, 11);
    assert_eq!(f.total_completion_tokens, 7);
    f.reset();
    assert_eq!(f.total_calls, 0);
    assert_eq!(f.total_prompt_tokens, 0);
}

#[test]
fn llm_error_messages() {
    assert_eq!(LlmError::Timeout.message(), "Request timeout");
    assert_eq!(LlmError::ProviderNotFound("x".into()).message(), "Provider 'x' not found");
    assert_eq!(
        LlmError::AllRetriesFailed(vec!["a".into(), "b".into()]).message(),
        "All retries failed (2 attempts): a; b"
    );
    assert_eq!(LlmError::Http("500".into()).message(), "HTTP error: 500");
}

#[test]
fn llm_single_chunk_stream() {
    let mut s = SingleChunkStream::new(LlmResponse {
        content: "hi".into(),
        tool_calls: vec![],
        finish_reason: "stop".into(),
        usage: None,
    });
    let c = s.next_chunk().unwrap().unwrap();
    assert_eq!(c.content, "hi");
    assert_eq!(c.finish_reason, Some("stop".to_string()));
    assert!(s.next_chunk().is_none());
}

struct Fixed(u8, &'static str);

impl PromptContributor for Fixed {
    fn id(&self) -> &str {
        self.1
    }
    fn priority(&self) -> u8 {
        self.0
    }
    fn contribute(&self, _ctx: &PromptContext) -> Option<String> {
        if self.1.is_empty() { None } else { Some(self.1.to_string()) }
    }
}

fn ctx() -> PromptContext {
    PromptContext {
        user_input: "q".into(),
        conversation_history: vec![Message::user("earlier"), Message::assistant("reply")],
        available_tools: vec![],
    }
}

#[test]
fn llm_prompt_order_by_priority() {
    let mut b = PromptBuilder::new("base");
    b.register(Box::new(Fixed(10, "low")));
    b.register(Box::new(Fixed(90, "high")));
    b.register(Box::new(Fixed(10, "low2")));
    b.register(Box::new(Fixed(50, "")));
    assert_eq!(b.contribution_order(), vec![1, 3, 0, 2]);
    let m = b.build(&ctx());
    assert_eq!(m.len(), 4);
    assert_eq!(m[0].content, "base\n\nhigh\n\nlow\n\nlow2");
    assert_eq!(m[1].content, "earlier");
    assert_eq!(m[2].role, "assistant");
    assert_eq!(m[3].content, "q");
    b.set_system_prompt("other");
    assert!(b.build(&ctx())[0].content.starts_with("other\n\nhigh"));
}

#[test]
fn llm_assemble_and_contributors() {
    let m = assemble("s", &vec![None, Some("a".into())], &ctx());
    assert_eq!(m[0].content, "s\n\na");
    let mut b: PromptBuilder<dyn PromptContributor> = PromptBuilder::new("base");
    b.register(Box::new(AttentionContributor { attention_data: "焦点".into() }));
    b.register(Box::new(EmotionContributor));
    b.register(Box::new(AttentionContributor { attention_data: String::new() }));
    let m = b.build(&ctx());
    assert_eq!(
        m[0].content,
        "base\n\n[注意力扫描结果]\n以下内容基于当前对话的语义相关性分析：\n焦点\n（注意力引擎：混合语义模型）"
    );
}

#[test]
fn llm_prompt_segment_appended_to_system_prompt() {
    let mut b = PromptBuilder::new("你是葵，一个AI助手");
    b.register(Box::new(Fixed(50, "[test context]")));
    let c = PromptContext { user_input: "你好".into(), conversation_history: vec![], available_tools: vec![] };
    let m = b.build(&c);
    assert_eq!(m.len(), 2);
    assert_eq!((m[0].role.as_str(), m[0].content.as_str()), ("system", "你是葵，一个AI助手\n\n[test context]"));
    assert_eq!((m[1].role.as_str(), m[1].content.as_str()), ("user", "你好"));
}
