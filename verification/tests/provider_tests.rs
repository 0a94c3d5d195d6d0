use tremolite::config::{Config, ConfigError, CoreConfig, CronConfig, LlmConfig, McpConfig, ProviderConfig};
use tremolite::llm::{
    LLMProvider, LlmError, LlmResponse, LoopStep, Message, ProviderRegistry, StreamIterator,
    ToolCallLoop, ToolDefinition, Usage,
};

/// A provider that answers with its tag.
struct TaggedMockProvider {
    name: String,
    model: String,
    tag: &'static str,
}

impl TaggedMockProvider {
    fn new(name: &str, model: &str, tag: &'static str) -> Self {
        Self { name: name.into(), model: model.into(), tag }
    }
}

impl LLMProvider for TaggedMockProvider {
    fn name(&self) -> &str {
        &self.name
    }
    fn chat(&self, _messages: &[Message], _tools: &[ToolDefinition]) -> Result<LlmResponse, LlmError> {
        Ok(LlmResponse {
            content: format!("[{}] 收到了神大人的消息呢💞", self.tag),
            tool_calls: vec![],
            finish_reason: "stop".into(),
            usage: Some(Usage { prompt_tokens: 10, completion_tokens: 5, total_tokens: 15 }),
        })
    }
    fn chat_stream(&self, _messages: &[Message], _tools: &[ToolDefinition]) -> Result<Box<dyn StreamIterator>, LlmError> {
        Err(LlmError::Api("no stream".into()))
    }
    fn max_context_tokens(&self) -> u32 {
        128000
    }
    fn models(&self) -> Vec<String> {
        vec![self.model.clone()]
    }
}

#[test]
fn test_provider_registry() {
    let reg: ProviderRegistry<dyn LLMProvider> = ProviderRegistry::new();
    assert!(reg.list().is_empty());
}

#[test]
fn test_provider_registry_switch() {
    let mut reg: ProviderRegistry<dyn LLMProvider> = ProviderRegistry::new();

    reg.register("deepseek", Box::new(TaggedMockProvider::new("deepseek", "deepseek-chat", "DeepSeek")));
    reg.register("openai", Box::new(TaggedMockProvider::new("openai", "gpt-4o", "OpenAI")));

    assert!(reg.get_default().is_none());

    reg.set_default("deepseek").unwrap();
    let p1 = reg.get_default().unwrap();
    assert_eq!(p1.name(), "deepseek");
    assert!(p1.models().contains(&"deepseek-chat".into()));

    let resp1 = p1.chat(&[Message::user("你好")], &[]).unwrap();
    assert!(resp1.content.contains("DeepSeek"));

    reg.set_default("openai").unwrap();
    let p2 = reg.get_default().unwrap();
    assert_eq!(p2.name(), "openai");
    assert!(p2.models().contains(&"gpt-4o".into()));

    let resp2 = p2.chat(&[Message::user("你好")], &[]).unwrap();
    assert!(resp2.content.contains("OpenAI"));
    assert!(resp2.content.contains("[DeepSeek]") == false);
}

#[test]
fn test_provider_same_prompt_different_responses() {
    let providers: Vec<Box<dyn LLMProvider>> = vec![
        Box::new(TaggedMockProvider::new("dp", "deepseek-chat", "A")),
        Box::new(TaggedMockProvider::new("oa", "gpt-4o", "B")),
    ];

    let mut reg: ProviderRegistry<dyn LLMProvider> = ProviderRegistry::new();
    for p in providers {
        let name = p.name().to_string();
        reg.register(&name, p);
    }

    reg.set_default("dp").unwrap();
    let r1 = reg.get_default().unwrap().chat(&[Message::user("hello")], &[]).unwrap();
    assert!(r1.content.contains("[A]"));

    reg.set_default("oa").unwrap();
    let r2 = reg.get_default().unwrap().chat(&[Message::user("hello")], &[]).unwrap();
    assert!(r2.content.contains("[B]"));
    assert_ne!(r1.content, r2.content);
}

#[test]
fn test_tool_call_loop_no_tools() {
    struct MockProvider;
    impl LLMProvider for MockProvider {
        fn name(&self) -> &str {
            "mock"
        }
        fn chat(&self, _messages: &[Message], _tools: &[ToolDefinition]) -> Result<LlmResponse, LlmError> {
            Ok(LlmResponse {
                content: "噜噜……神大人好呀~".into(),
                tool_calls: vec![],
                finish_reason: "stop".into(),
                usage: Some(Usage { prompt_tokens: 10, completion_tokens: 5, total_tokens: 15 }),
            })
        }
        fn chat_stream(&self, _messages: &[Message], _tools: &[ToolDefinition]) -> Result<Box<dyn StreamIterator>, LlmError> {
            Err(LlmError::Api("no stream".into()))
        }
        fn max_context_tokens(&self) -> u32 {
            128000
        }
        fn models(&self) -> Vec<String> {
            vec!["mock".into()]
        }
    }

    let loop_ = ToolCallLoop::new();
    let mut state = loop_.start(vec![Message::user("你好")]);
    let response = MockProvider.chat(state.messages(), &[]).unwrap();
    let result = match state.on_response(response) {
        LoopStep::Done(result) => result,
        other => panic!("{other:?}"),
    };
    assert!(result.content.contains("神大人"));
    assert_eq!(result.rounds, 1);
    assert_eq!(result.usage.total_tokens, 15);
    assert_eq!(MockProvider.max_context_tokens(), 128000);
}

fn provider_from(cfg: &ProviderConfig) -> Box<dyn LLMProvider> {
    match cfg {
        ProviderConfig::OpenAI { model, .. } => Box::new(TaggedMockProvider::new("openai", model, "OpenAI")),
        ProviderConfig::DeepSeek { model, .. } => Box::new(TaggedMockProvider::new("deepseek", model, "DeepSeek")),
        ProviderConfig::Ollama { model, .. } => Box::new(TaggedMockProvider::new("ollama", model, "Ollama")),
    }
}

fn config_with(default: Option<&str>, providers: Vec<(String, ProviderConfig)>) -> Config {
    Config {
        core: CoreConfig::default(),
        llm: LlmConfig { default: default.map(|d| d.to_string()), providers },
        embedding: None,
        channels: Default::default(),
        cron: CronConfig::default(),
        mcp: McpConfig::default(),
    }
}

#[test]
fn test_provider_initialization() {
    let config = config_with(
        Some("ollama"),
        vec![(
            "ollama".into(),
            ProviderConfig::Ollama {
                model: "qwen2.5:7b".into(),
                base_url: "http://localhost:11434".into(),
                timeout_secs: 300,
            },
        )],
    );
    let registry = config.initialize_providers(provider_from).unwrap();
    assert!(registry.get_default().is_some());
    assert_eq!(registry.list().len(), 1);
}

#[test]
fn provider_initialization_default_must_exist() {
    let deepseek = ProviderConfig::DeepSeek { api_key: "k".into(), model: "deepseek-chat".into(), timeout_secs: 60 };
    let config = config_with(Some("openai"), vec![("deepseek".into(), deepseek.clone())]);
    match config.initialize_providers(provider_from) {
        Err(ConfigError::Io(m)) => assert_eq!(m, "Default provider 'openai' not found in config"),
        other => panic!("unexpected {:?}", other.err()),
    }
    let no_default = config_with(None, vec![("deepseek".into(), deepseek.clone()), ("ds2".into(), deepseek)]);
    let registry = no_default.initialize_providers(provider_from).unwrap();
    assert!(registry.get_default().is_none());
    assert_eq!(registry.list(), vec!["deepseek".to_string(), "ds2".to_string()]);
    assert_eq!(registry.get("ds2").unwrap().models(), vec!["deepseek-chat".to_string()]);
}
