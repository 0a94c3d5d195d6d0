use tremolite::llm::{LlmError, RetryStep, RetryTracker, ToolCall, ToolCallFunction, Usage};
use tremolite::providers::{
    classify_sse_line, delta_chunk, done_chunk, http_status_error, sse_parse_error,
    DeepSeekChoice, DeepSeekMessage, DeepSeekProvider, DeepSeekReply, DeltaChoice,
    OllamaProvider, SseLine, SseStep, SseStream,
};

#[test]
fn deepseek_settings() {
    let p = DeepSeekProvider::new("sk-1", "deepseek-chat");
    assert_eq!(p.name(), "deepseek");
    assert_eq!(p.model(), "deepseek-chat");
    assert_eq!(p.models(), vec!["deepseek-chat".to_string()]);
    assert_eq!(p.timeout_secs(), 180);
    assert_eq!(p.authorization(), "Bearer sk-1");
    assert_eq!(DeepSeekProvider::endpoint(), "https://api.deepseek.com/chat/completions");
    let q = p.with_timeout(30);
    assert_eq!(q.timeout_secs(), 30);
    assert_eq!(q.model(), "deepseek-chat");
    assert!(!DeepSeekProvider::stream_falls_back(&[]));
}

#[test]
fn deepseek_reply_conversion() {
    let call = ToolCall {
        id: "c1".into(),
        call_type: "function".into(),
        function: ToolCallFunction { name: "search".into(), arguments: "{}".into() },
    };
    let reply = DeepSeekReply {
        choices: vec![
            DeepSeekChoice {
                message: DeepSeekMessage { content: None, tool_calls: Some(vec![call]) },
                finish_reason: "tool_calls".into(),
            },
            DeepSeekChoice {
                message: DeepSeekMessage { content: Some("ignored".into()), tool_calls: None },
                finish_reason: "stop".into(),
            },
        ],
        usage: Some(Usage { prompt_tokens: 3, completion_tokens: 4, total_tokens: 7 }),
    };
    let r = DeepSeekProvider::response_from(reply).unwrap();
    assert_eq!(r.content, "");
    assert_eq!(r.tool_calls.len(), 1);
    assert_eq!(r.tool_calls[0].function.name, "search");
    assert_eq!(r.finish_reason, "tool_calls");
    assert_eq!(r.usage.unwrap().total_tokens, 7);
    match DeepSeekProvider::response_from(DeepSeekReply { choices: vec![], usage: None }) {
        Err(LlmError::Api(m)) => assert_eq!(m, "No choices returned"),
        other => panic!("{other:?}"),
    }
    match http_status_error("429 Too Many Requests", "slow down") {
        LlmError::Api(m) => assert_eq!(m, "HTTP 429 Too Many Requests: slow down"),
        other => panic!("{other:?}"),
    }
}

#[test]
fn sse_lines() {
    assert!(matches!(classify_sse_line("   \r\n"), SseLine::Skip));
    assert!(matches!(classify_sse_line(": keep-alive"), SseLine::Skip));
    assert!(matches!(classify_sse_line("data: [DONE]\n"), SseLine::Done));
    assert!(matches!(classify_sse_line(" data: {\"a\":1} \n"), SseLine::Data(ref d) if d == "{\"a\":1}"));
    assert!(matches!(classify_sse_line("data:{}"), SseLine::Skip));
    let d = done_chunk();
    assert_eq!((d.content.as_str(), d.finish_reason.as_deref()), ("", Some("stop")));
    let c = delta_chunk(&vec![DeltaChoice { content: Some("噜".into()), finish_reason: None }]);
    assert_eq!(c.content, "噜");
    assert!(c.finish_reason.is_none());
    let e = delta_chunk(&vec![]);
    assert_eq!(e.content, "");
    match sse_parse_error("expected value", "{oops") {
        LlmError::Parse(m) => assert_eq!(m, "SSE parse error: expected value line: {oops"),
        other => panic!("{other:?}"),
    }
}

#[test]
fn sse_stream_reading() {
    let mut s = SseStream::new();
    assert!(matches!(s.on_line(""), SseStep::ReadMore));
    assert!(matches!(s.on_line("data: {\"x\":1}"), SseStep::Parse(ref d) if d == "{\"x\":1}"));
    assert!(!s.done());
    assert!(matches!(s.on_line("data: [DONE]"), SseStep::Finish(_)));
    assert!(s.done());
    assert!(matches!(s.on_line("data: {}"), SseStep::End));
    let mut t = SseStream::new();
    match t.on_read_error("connection reset") {
        LlmError::Http(m) => assert_eq!(m, "connection reset"),
        other => panic!("{other:?}"),
    }
    assert!(t.done());
    let mut u = SseStream::new();
    u.on_end();
    assert!(matches!(u.on_line("data: [DONE]"), SseStep::End));
}

#[test]
fn ollama_settings_and_reply() {
    let p = OllamaProvider::new("http://gpu:11434//", "qwen2.5:7b");
    assert_eq!(p.chat_url(), "http://gpu:11434/api/chat");
    assert_eq!(p.timeout_secs(), 300);
    assert_eq!((p.name(), p.model()), ("ollama", "qwen2.5:7b"));
    let l = OllamaProvider::local("llama3").with_timeout(60);
    assert_eq!(l.chat_url(), "http://localhost:11434/api/chat");
    assert_eq!(l.timeout_secs(), 60);
    assert_eq!(l.models(), vec!["llama3".to_string()]);
    let r = OllamaProvider::response_from("你好".into(), true);
    assert_eq!((r.content.as_str(), r.finish_reason.as_str()), ("你好", "stop"));
    assert!(r.usage.is_none() && r.tool_calls.is_empty());
    assert_eq!(OllamaProvider::response_from(String::new(), false).finish_reason, "unknown");
    match OllamaProvider::stream_unsupported() {
        LlmError::Api(m) => assert_eq!(m, "Streaming not implemented yet"),
        other => panic!("{other:?}"),
    }
}

#[test]
fn retries_then_gives_up() {
    let mut t = RetryTracker::new(2);
    assert!(matches!(t.on_error(&LlmError::Timeout), RetryStep::Retry { attempt: 0 }));
    assert!(matches!(t.on_error(&LlmError::Http("reset".into())), RetryStep::Retry { attempt: 1 }));
    match t.on_error(&LlmError::Api("HTTP 500".into())) {
        RetryStep::GiveUp(LlmError::AllRetriesFailed(v)) => {
            assert_eq!(v, vec!["Request timeout", "HTTP error: reset", "API error: HTTP 500"])
        }
        other => panic!("{other:?}"),
    }
    let mut none = RetryTracker::new(0);
    assert!(matches!(none.on_error(&LlmError::Timeout), RetryStep::GiveUp(_)));
}
