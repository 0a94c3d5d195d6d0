//! Small modules of the engine: the dashboard, the command-line gateway,
//! the skill distiller, the prompt contributors of attention and emotion,
//! and the learning engine's records.
use vstd::prelude::*;
use crate::llm::{PromptContext, PromptContributor};
use crate::text::{append_str, concat3, replace_all, replace_all_spec, to_chars, from_chars};

verus! {

// ─── Dashboard ───────────────────────────────────

/// The module that lets the gateway mount the web dashboard.
#[derive(Debug)]
pub struct DashboardModule {
    enabled: bool,
}

impl DashboardModule {
    /// An enabled dashboard.
    pub fn new() -> (r: Self)
        ensures
            r.is_enabled(),
    {
        DashboardModule { enabled: true }
    }

    /// Whether the dashboard is enabled.
    pub closed spec fn is_enabled(&self) -> bool {
        self.enabled
    }

    /// The module id.
    pub fn id(&self) -> (r: &'static str)
        ensures
            r@ == "dashboard"@,
    {
        "dashboard"
    }

    /// The capabilities the dashboard provides.
    pub fn provides(&self) -> (r: Vec<String>)
        ensures
            r@.len() == 2,
            r@[0]@ == "dashboard.ui"@,
            r@[1]@ == "dashboard.status"@,
    {
        let mut v = Vec::new();
        v.push("dashboard.ui".to_string());
        v.push("dashboard.status".to_string());
        v
    }
}

/// The dashboard page: the template with every `{{VERSION}}` replaced by
/// the version.
pub fn dashboard_html(template: &str, version: &str) -> (r: String)
    ensures
        r@ == replace_all_spec(template@, "{{VERSION}}"@, version@),
{
    proof {
        reveal_strlit("{{VERSION}}");
    }
    let t = to_chars(template);
    let p = to_chars("{{VERSION}}");
    let v = to_chars(version);
    let out = replace_all(t.as_slice(), p.as_slice(), v.as_slice());
    from_chars(out.as_slice())
}

// ─── Command-line gateway ────────────────────────

/// The gateway that talks over standard input and output.
#[derive(Debug)]
pub struct CliGateway {
    name: String,
    running: bool,
}

impl CliGateway {
    /// The `cli` gateway, not yet running.
    pub fn new() -> (r: Self)
        ensures
            r.name_text() == "cli"@,
            !r.is_running(),
    {
        CliGateway { name: "cli".to_string(), running: false }
    }

    /// The gateway's name.
    pub closed spec fn name_text(&self) -> Seq<char> {
        self.name@
    }

    /// Whether the gateway is running.
    pub closed spec fn is_running(&self) -> bool {
        self.running
    }

    /// The gateway's name.
    pub fn name(&self) -> (r: &str)
        ensures
            r@ == self.name_text(),
    {
        self.name.as_str()
    }

    /// Marks the gateway running or stopped.
    pub fn set_running(&mut self, on: bool)
        ensures
            final(self).is_running() == on,
            final(self).name_text() == old(self).name_text(),
    {
        self.running = on;
    }
}

// ─── Skill distiller ─────────────────────────────

/// The module that distills skills through a model call `F`.
pub struct DistillerModule<F> {
    llm: F,
    last_distill_time: u64,
    distill_interval: u64,
}

impl<F> DistillerModule<F> {
    /// A distiller that has never run and runs at most hourly.
    pub fn new(llm: F) -> (r: Self)
        ensures
            r.last_distill() == 0,
            r.interval() == 3600,
    {
        DistillerModule { llm, last_distill_time: 0, distill_interval: 3600 }
    }

    /// When the distiller last ran.
    pub closed spec fn last_distill(&self) -> u64 {
        self.last_distill_time
    }

    /// Seconds between runs.
    pub closed spec fn interval(&self) -> u64 {
        self.distill_interval
    }

    /// The model call the distiller was made with.
    pub closed spec fn model_call(&self) -> F {
        self.llm
    }

    /// The model call.
    pub fn llm(&self) -> (r: &F)
        ensures
            *r == self.model_call(),
    {
        &self.llm
    }
}

// ─── Prompt contributors ─────────────────────────

/// Contributes the latest attention scan to the system prompt.
#[derive(Debug)]
pub struct AttentionContributor {
    pub attention_data: String,
}

/// The segment of an attention scan.
pub open spec fn attention_segment(data: Seq<char>) -> Option<Seq<char>> {
    if data.len() == 0 {
        None
    } else {
        Some(
            "[注意力扫描结果]\n以下内容基于当前对话的语义相关性分析：\n"@ + data
                + "\n（注意力引擎：混合语义模型）"@,
        )
    }
}

impl PromptContributor for AttentionContributor {
    open spec fn priority_spec(&self) -> u8 {
        70
    }

    open spec fn segment_spec(&self, ctx: PromptContext) -> Option<Seq<char>> {
        attention_segment(self.attention_data@)
    }

    fn id(&self) -> &str {
        "attention"
    }

    fn priority(&self) -> (r: u8)
        ensures
            r == 70,
    {
        70
    }

    fn contribute(&self, ctx: &PromptContext) -> (r: Option<String>)
        ensures
            match r {
                Some(s) => attention_segment(self.attention_data@) == Some(s@),
                None => attention_segment(self.attention_data@) is None,
            },
    {
        if self.attention_data.as_str().is_empty() {
            None
        } else {
            let s = concat3(
                "[注意力扫描结果]\n以下内容基于当前对话的语义相关性分析：\n",
                self.attention_data.as_str(),
                "\n（注意力引擎：混合语义模型）",
            );
            Some(s)
        }
    }
}

/// The emotion engine's place among the prompt contributors; it adds no
/// segment of its own.
#[derive(Debug)]
pub struct EmotionContributor;

impl PromptContributor for EmotionContributor {
    open spec fn priority_spec(&self) -> u8 {
        80
    }

    open spec fn segment_spec(&self, ctx: PromptContext) -> Option<Seq<char>> {
        None
    }

    fn id(&self) -> &str {
        "emotion"
    }

    fn priority(&self) -> (r: u8)
        ensures
            r == 80,
    {
        80
    }

    fn contribute(&self, ctx: &PromptContext) -> (r: Option<String>)
        ensures
            r is None,
    {
        None
    }
}

// ─── Learning records ────────────────────────────

/// One practice of a skill.
#[derive(Debug, Clone)]
pub struct PracticeRecord {
    pub skill_id: String,
    pub success: bool,
    pub context: String,
    pub timestamp: u64,
}

/// A skill proposed by distillation.
#[derive(Debug, Clone)]
pub struct DistillProposal {
    pub id: String,
    pub name: String,
    pub category: String,
    pub description: String,
    pub body: String,
}

/// A new skill parsed from a distillation reply.
#[derive(Debug)]
pub struct SkillProposal {
    pub id: String,
    pub name: String,
    pub category: String,
    pub description: String,
    pub body: String,
}

/// What one learning cycle did.
#[derive(Debug, Clone)]
pub struct LearnCycleStats {
    pub new_domains: usize,
    pub new_knowledge: usize,
    pub distilled: usize,
    pub total_skills: usize,
    pub total_domains: usize,
    pub total_knowledge: usize,
}

/// Totals of the learning engine.
#[derive(Debug, Clone)]
pub struct LearnStats {
    pub total_skills: usize,
    pub mastered_skills: usize,
    pub expert_skills: usize,
    pub total_domains: usize,
    pub total_knowledge: usize,
    pub verified_knowledge: usize,
    pub total_practices: usize,
}

} // verus!
