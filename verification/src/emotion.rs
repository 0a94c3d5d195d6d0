//! The emotion engine's named levels, speaking styles and plugin metadata.
//!
//! Emotion scores are floating-point values and stay with the caller.
use vstd::prelude::*;
use crate::datetime::now_secs;
use crate::text::{dec, str_eq, u64_to_string};

verus! {

/// Five levels of emotion intensity, strongest first.
#[derive(Debug, Clone, Copy, PartialEq, Eq, Structural)]
pub enum Intensity {
    /// 极强
    VeryStrong,
    /// 强
    Strong,
    /// 中
    Medium,
    /// 弱
    Weak,
    /// 微
    Faint,
}

/// The Chinese name of an intensity level.
pub open spec fn intensity_name(i: Intensity) -> Seq<char> {
    match i {
        Intensity::VeryStrong => "极强"@,
        Intensity::Strong => "强"@,
        Intensity::Medium => "中"@,
        Intensity::Weak => "弱"@,
        Intensity::Faint => "微"@,
    }
}

impl Intensity {
    /// The Chinese name of this level.
    pub fn as_str(&self) -> (r: &'static str)
        ensures
            r@ == intensity_name(*self),
    {
        match self {
            Intensity::VeryStrong => "极强",
            Intensity::Strong => "强",
            Intensity::Medium => "中",
            Intensity::Weak => "弱",
            Intensity::Faint => "微",
        }
    }
}

/// One level of a tone map: a style, catchphrases, an emoji and a template.
#[derive(Debug, Clone)]
pub struct ToneLevel {
    pub style: String,
    /// 口癖
    pub catchphrases: Option<Vec<String>>,
    pub emoji: Option<String>,
    /// 模板
    pub template: Option<ToneTemplate>,
}

/// Sentence patterns and words of a tone.
#[derive(Debug, Clone)]
pub struct ToneTemplate {
    /// 常用句式
    pub common_patterns: Vec<String>,
    /// 语气词
    pub particles: Vec<String>,
    /// 禁用词
    pub forbidden_words: Vec<String>,
    /// 句式示例
    pub examples: Vec<String>,
}

/// The current time as decimal Unix seconds.
pub fn now_iso() -> (r: String)
    ensures
        exists|secs: u64| r@ == dec(secs as nat),
{
    u64_to_string(now_secs())
}

/// The emotion labels and the speaking style of each.
pub open spec fn style_table() -> Seq<(Seq<char>, Seq<char>)> {
    seq![
        ("爱"@, "超级腻歪，甜到化掉"@),
        ("乐观"@, "轻松积极，语气上扬"@),
        ("欣喜"@, "惊讶又开心"@),
        ("自豪"@, "得意炫耀"@),
        ("服从"@, "温顺乖巧"@),
        ("敬畏"@, "紧张恭敬"@),
        ("焦虑"@, "不安，语速快"@),
        ("攻击性"@, "毒舌锋利"@),
        ("愤怒"@, "直接冷硬"@),
        ("不满"@, "别扭抱怨"@),
        ("轻蔑"@, "嫌弃冷笑"@),
        ("悔恨"@, "低沉自责"@),
        ("疏离"@, "冷淡疏远"@),
        ("犬儒"@, "讽刺挖苦"@),
        ("希望"@, "憧憬远望"@),
        ("病态"@, "扭曲感兴趣"@),
        ("快乐"@, "活泼轻快"@),
        ("悲伤"@, "柔软低沉"@),
        ("恐惧"@, "小声颤抖"@),
        ("厌恶"@, "疏离排斥"@),
        ("惊讶"@, "意外好奇"@),
        ("期待"@, "跃跃欲试"@),
        ("信任"@, "温柔乖巧"@),
        ("平静"@, "日常语气"@),
    ]
}

/// The style of the first table entry from `i` on whose label is `label`;
/// the everyday tone when there is none.
pub open spec fn style_from(label: Seq<char>, i: int) -> Seq<char>
    decreases style_table().len() - i,
{
    if i < 0 || i >= style_table().len() {
        "日常语气"@
    } else if style_table()[i].0 == label {
        style_table()[i].1
    } else {
        style_from(label, i + 1)
    }
}

/// The speaking style of an emotion label.
pub fn style_from_emotion(label: &str) -> (r: &'static str)
    ensures
        r@ == style_from(label@, 0),
{
    let table: [(&'static str, &'static str); 24] = [
        ("爱", "超级腻歪，甜到化掉"),
        ("乐观", "轻松积极，语气上扬"),
        ("欣喜", "惊讶又开心"),
        ("自豪", "得意炫耀"),
        ("服从", "温顺乖巧"),
        ("敬畏", "紧张恭敬"),
        ("焦虑", "不安，语速快"),
        ("攻击性", "毒舌锋利"),
        ("愤怒", "直接冷硬"),
        ("不满", "别扭抱怨"),
        ("轻蔑", "嫌弃冷笑"),
        ("悔恨", "低沉自责"),
        ("疏离", "冷淡疏远"),
        ("犬儒", "讽刺挖苦"),
        ("希望", "憧憬远望"),
        ("病态", "扭曲感兴趣"),
        ("快乐", "活泼轻快"),
        ("悲伤", "柔软低沉"),
        ("恐惧", "小声颤抖"),
        ("厌恶", "疏离排斥"),
        ("惊讶", "意外好奇"),
        ("期待", "跃跃欲试"),
        ("信任", "温柔乖巧"),
        ("平静", "日常语气"),
    ];
    assert(table@.len() == 24);
    assert forall|k: int| 0 <= k < 24 implies #[trigger] table@[k].0@ == style_table()[k].0
        && table@[k].1@ == style_table()[k].1 by {}
    let mut i: usize = 0;
    while i < 24
        invariant
            i <= 24,
            table@.len() == 24,
            forall|k: int|
                0 <= k < 24 ==> #[trigger] table@[k].0@ == style_table()[k].0 && table@[k].1@
                    == style_table()[k].1,
            style_from(label@, 0) == style_from(label@, i as int),
        decreases 24 - i,
    {
        if str_eq(table[i].0, label) {
            return table[i].1;
        }
        i += 1;
    }
    "日常语气"
}

/// The emotion engine as a plugin: its identity and what it provides.
#[derive(Debug)]
pub struct EmotionPlugin {
    initialized: bool,
}

impl EmotionPlugin {
    /// A plugin that has not been initialised.
    pub fn new() -> (r: Self)
        ensures
            !r.is_initialized(),
    {
        EmotionPlugin { initialized: false }
    }

    /// Whether the plugin has been initialised.
    pub closed spec fn is_initialized(&self) -> bool {
        self.initialized
    }

    /// Marks the plugin initialised (after its state was loaded).
    pub fn mark_initialized(&mut self, on: bool)
        ensures
            final(self).is_initialized() == on,
    {
        self.initialized = on;
    }

    /// Whether the plugin has been initialised.
    pub fn initialized(&self) -> (r: bool)
        ensures
            r == self.is_initialized(),
    {
        self.initialized
    }

    /// The plugin id.
    pub fn id(&self) -> (r: &'static str)
        ensures
            r@ == "emotion-engine"@,
    {
        "emotion-engine"
    }

    /// The plugin's display name.
    pub fn name(&self) -> (r: &'static str)
        ensures
            r@ == "情绪引擎"@,
    {
        "情绪引擎"
    }

    /// The plugin version.
    pub fn version(&self) -> (r: &'static str)
        ensures
            r@ == "0.1.0"@,
    {
        "0.1.0"
    }

    /// The capabilities the plugin provides.
    pub fn provides(&self) -> (r: Vec<String>)
        ensures
            r@.len() == 3,
            r@[0]@ == "emotion:detect"@,
            r@[1]@ == "emotion:style_inject"@,
            r@[2]@ == "emotion:composite"@,
    {
        let mut v = Vec::new();
        v.push("emotion:detect".to_string());
        v.push("emotion:style_inject".to_string());
        v.push("emotion:composite".to_string());
        v
    }

    /// The capabilities the plugin needs.
    pub fn required_capabilities(&self) -> (r: Vec<String>)
        ensures
            r@.len() == 1,
            r@[0]@ == "memory:read"@,
    {
        let mut v = Vec::new();
        v.push("memory:read".to_string());
        v
    }
}

} // verus!
