use tremolite::attention::extract_known_entities;
use tremolite::config::{resolve_env_string, Config};
use tremolite::emotion::EmotionPlugin;
use tremolite::llm::{Message, PromptBuilder, PromptContext, PromptContributor};
use tremolite::session::CrossSessionRing;
use tremolite::user::extract_traits;

#[test]
fn test_entities() {
    let e = extract_known_entities("神大人和葵在讨论透闪石");
    assert!(e.contains(&"神大人".to_string()));
    assert!(e.contains(&"葵".to_string()));
}

#[test]
fn test_default_config() {
    let config = Config::default();
    assert_eq!(config.core.data_dir, "./data/tremolite");
    assert!(config.llm.providers.is_empty());
}

#[test]
fn test_env_var_resolution() {
    let result = resolve_env_string("sk-test-key", &vec![]);
    assert_eq!(result.unwrap(), "sk-test-key");
}

#[test]
fn test_ring_push_peek() {
    let mut ring = CrossSessionRing::new();
    for i in 0..25 {
        ring.push(format!("s{}", i % 3), format!("消息 {}", i), "中性".into());
    }
    assert_eq!(ring.len(), 20);
    let notes = ring.peek(3);
    assert_eq!(notes.len(), 3);
    assert!(notes[0].summary.contains("消息 24"));
}

#[test]
fn test_extract_traits_no_match() {
    let t = extract_traits("你好，今天天气不错");
    assert!(t.is_empty());
}

#[test]
fn test_extract_traits_food() {
    let t = extract_traits("我不吃海鲜，吃了过敏");
    assert!(t.iter().any(|(k, _)| k == "饮食禁忌"));
    assert!(t.iter().any(|(_, v)| v.contains("海鲜")));
}

#[test]
fn test_extract_traits_like() {
    let t = extract_traits("我喜欢火锅和宫保鸡丁");
    assert!(t.iter().any(|(_, v)| v.contains("火锅")));
}

#[test]
fn test_emotion_plugin_provides() {
    let plugin = EmotionPlugin::new();
    let provides = plugin.provides();
    assert!(provides.contains(&"emotion:detect".to_string()));
    assert!(provides.contains(&"emotion:style_inject".to_string()));
}

#[test]
fn lib_test_message_constructors() {
    let sys = Message::system("你是葵");
    assert_eq!(sys.role, "system");
    let user = Message::user("你好");
    assert_eq!(user.role, "user");
    let asst = Message::assistant("噜噜……");
    assert_eq!(asst.role, "assistant");
}

struct TestContributor;

impl PromptContributor for TestContributor {
    fn id(&self) -> &str {
        "test"
    }
    fn priority(&self) -> u8 {
        50
    }
    fn contribute(&self, _ctx: &PromptContext) -> Option<String> {
        Some("[test context]".into())
    }
}

#[test]
fn test_prompt_builder() {
    let mut builder = PromptBuilder::new("你是葵，一个AI助手");
    builder.register(Box::new(TestContributor));
    let ctx = PromptContext {
        user_input: "你好".into(),
        conversation_history: vec![],
        available_tools: vec![],
    };
    let messages = builder.build(&ctx);
    assert_eq!(messages.len(), 2);
    assert!(messages[0].content.contains("test context"));
    assert_eq!(messages[1].content, "你好");
}
