//! Configuration model of the agent and `${VAR}` substitution in its values.
//!
//! Reading files, the process environment and TOML stays with the caller; the
//! caller hands the environment in as a list of `(name, value)` pairs.
use vstd::prelude::*;
use crate::text::{
    find_char, find_chars, from_chars, index_of, lemma_find_from, push_all, push_range, spec_find,
    spec_starts_with, split_on, str_eq, starts_with_chars, to_chars, trim_chars, trim_spec,
};

verus! {

// ─── Errors ──────────────────────────────────────

/// Errors of configuration loading.
#[derive(Debug, Clone, PartialEq, Eq)]
pub enum ConfigError {
    /// The configuration file could not be read.
    Io(String),
    /// The configuration text could not be parsed.
    Parse(String),
    /// A `${VAR}` reference names an environment variable that is not set.
    MissingEnv(String),
}

// ─── Environment lookup ──────────────────────────

/// The abstract view of an environment table.
pub open spec fn env_view(env: Seq<(String, String)>) -> Seq<(Seq<char>, Seq<char>)> {
    env.map_values(|p: (String, String)| (p.0@, p.1@))
}

/// The value of the first entry named `name`.
pub open spec fn env_lookup(env: Seq<(Seq<char>, Seq<char>)>, name: Seq<char>) -> Option<Seq<char>>
    decreases env.len(),
{
    if env.len() == 0 {
        None
    } else if env[0].0 == name {
        Some(env[0].1)
    } else {
        env_lookup(env.skip(1), name)
    }
}

/// Number of occurrences of `c` in `s`.
pub open spec fn count_char(s: Seq<char>, c: char) -> nat
    decreases s.len(),
{
    if s.len() == 0 {
        0
    } else {
        count_char(s.drop_last(), c) + if s.last() == c {
            1nat
        } else {
            0nat
        }
    }
}

/// No value of the table contains `c`.
pub open spec fn values_free_of(env: Seq<(Seq<char>, Seq<char>)>, c: char) -> bool {
    forall|i: int| 0 <= i < env.len() ==> count_char(#[trigger] env[i].1, c) == 0
}

/// Substitution terminates: either no value contains `$` or no value contains `{`.
/// (With both characters available, values such as `X=${X}` make the
/// substitution loop forever.)
pub open spec fn env_ok(env: Seq<(Seq<char>, Seq<char>)>) -> bool {
    values_free_of(env, '$') || values_free_of(env, '{')
}

/// The quantity that each substitution step lowers.
pub open spec fn env_measure(s: Seq<char>, env: Seq<(Seq<char>, Seq<char>)>) -> nat {
    if values_free_of(env, '$') {
        count_char(s, '$')
    } else {
        count_char(s, '{')
    }
}

/// Counting distributes over concatenation.
pub proof fn lemma_count_concat(a: Seq<char>, b: Seq<char>, c: char)
    ensures
        count_char(a + b, c) == count_char(a, c) + count_char(b, c),
    decreases b.len(),
{
    if b.len() > 0 {
        assert((a + b).drop_last() =~= a + b.drop_last());
        lemma_count_concat(a, b.drop_last(), c);
    } else {
        assert(a + b =~= a);
    }
}

pub proof fn lemma_env_lookup_member(env: Seq<(Seq<char>, Seq<char>)>, name: Seq<char>)
    ensures
        env_lookup(env, name) matches Some(v) ==> exists|i: int| 0 <= i < env.len() && #[trigger] env[i].1 == v,
    decreases env.len(),
{
    if env.len() > 0 && env[0].0 != name {
        lemma_env_lookup_member(env.skip(1), name);
        if let Some(v) = env_lookup(env, name) {
            let i = choose|i: int| 0 <= i < env.skip(1).len() && #[trigger] env.skip(1)[i].1 == v;
            assert(env[i + 1].1 == v);
        }
    }
}

/// `${` as a character sequence.
pub open spec fn open_ref() -> Seq<char> {
    seq!['$', '{']
}

/// One substitution step splits `s` at the first `${`: returns
/// `(start, end)` with the reference occupying `s[start..start + end + 1]`.
pub open spec fn first_ref(s: Seq<char>) -> Option<(int, int)> {
    match spec_find(s, open_ref()) {
        None => None,
        Some(start) => match index_of(s.skip(start), '}') {
            None => None,
            Some(end) => Some((start, end)),
        },
    }
}

pub proof fn lemma_first_ref(s: Seq<char>)
    ensures
        first_ref(s) matches Some((start, end)) ==> {
            &&& 0 <= start
            &&& 2 <= end
            &&& start + end < s.len()
            &&& s[start] == '$'
            &&& s[start + 1] == '{'
            &&& s[start + end] == '}'
        },
{
    lemma_find_from(s, open_ref(), 0);
    if let Some(start) = spec_find(s, open_ref()) {
        let t = s.skip(start);
        assert(s.subrange(start, start + 2) == open_ref());
        assert(s.subrange(start, start + 2)[0] == s[start]);
        assert(s.subrange(start, start + 2)[1] == s[start + 1]);
        lemma_find_from(t, seq!['}'], 0);
        if let Some(end) = index_of(t, '}') {
            assert(t.subrange(end, end + 1) == seq!['}']);
            assert(t.subrange(end, end + 1)[0] == t[end]);
            assert(t[0] == '$');
            assert(t[1] == '{');
        }
    }
}

/// Substituting a reference by a value without the measured character lowers the measure.
pub proof fn lemma_step_decreases(s: Seq<char>, env: Seq<(Seq<char>, Seq<char>)>, start: int, end: int, v: Seq<char>)
    requires
        0 <= start,
        2 <= end,
        start + end < s.len(),
        s[start] == '$',
        s[start + 1] == '{',
        exists|i: int| 0 <= i < env.len() && #[trigger] env[i].1 == v,
        env_ok(env),
    ensures
        env_measure(s.take(start) + v + s.skip(start + end + 1), env) < env_measure(s, env),
{
    let pre = s.take(start);
    let mid = s.subrange(start, start + end + 1);
    let post = s.skip(start + end + 1);
    assert(s =~= pre + mid + post);
    let c = if values_free_of(env, '$') {
        '$'
    } else {
        '{'
    };
    let i = choose|i: int| 0 <= i < env.len() && #[trigger] env[i].1 == v;
    assert(count_char(v, c) == 0);
    lemma_count_concat(pre + mid, post, c);
    lemma_count_concat(pre, mid, c);
    lemma_count_concat(pre + v, post, c);
    lemma_count_concat(pre, v, c);
    let rest = mid.skip(1);
    assert(mid =~= seq![mid[0]] + rest);
    lemma_count_concat(seq![mid[0]], rest, c);
    let rest2 = rest.skip(1);
    assert(rest =~= seq![rest[0]] + rest2);
    lemma_count_concat(seq![rest[0]], rest2, c);
    assert(seq![mid[0]].drop_last() =~= Seq::<char>::empty());
    assert(seq![rest[0]].drop_last() =~= Seq::<char>::empty());
}

/// `${VAR}` substitution in at most `n` replacements: repeatedly replaces
/// the first `${NAME}` by the value of `NAME`, until no complete reference
/// is left; a missing variable is an error carrying its name. Nothing when
/// references are still left after `n` replacements.
pub open spec fn resolve_within(s: Seq<char>, env: Seq<(Seq<char>, Seq<char>)>, n: nat) -> Option<
    Result<Seq<char>, Seq<char>>,
>
    decreases n,
{
    match first_ref(s) {
        None => Some(Ok(s)),
        Some((start, end)) => {
            let name = s.subrange(start + 2, start + end);
            match env_lookup(env, name) {
                None => Some(Err(name)),
                Some(v) => if n == 0 {
                    None
                } else {
                    resolve_within(s.take(start) + v + s.skip(start + end + 1), env, (n - 1) as nat)
                },
            }
        },
    }
}

/// Substitution in `s` ends: after some number of replacements no complete
/// reference is left, or a variable is missing.
pub open spec fn resolution_ends(s: Seq<char>, env: Seq<(Seq<char>, Seq<char>)>) -> bool {
    exists|n: nat| #[trigger] resolve_within(s, env, n) is Some
}

/// What substitution in `s` gives, where it ends.
pub open spec fn resolve_env_spec(s: Seq<char>, env: Seq<(Seq<char>, Seq<char>)>) -> Result<Seq<char>, Seq<char>> {
    resolve_within(s, env, choose|n: nat| #[trigger] resolve_within(s, env, n) is Some)->0
}

/// More replacements allowed change nothing once substitution has ended.
pub proof fn lemma_resolve_within_mono(s: Seq<char>, env: Seq<(Seq<char>, Seq<char>)>, n: nat, m: nat)
    requires
        resolve_within(s, env, n) is Some,
        n <= m,
    ensures
        resolve_within(s, env, m) == resolve_within(s, env, n),
    decreases n,
{
    if let Some((start, end)) = first_ref(s) {
        let name = s.subrange(start + 2, start + end);
        if let Some(v) = env_lookup(env, name) {
            lemma_resolve_within_mono(s.take(start) + v + s.skip(start + end + 1), env, (n - 1) as nat, (m - 1) as nat);
        }
    }
}

/// Where substitution ends within `n` replacements, that is its outcome.
pub proof fn lemma_resolve_spec(s: Seq<char>, env: Seq<(Seq<char>, Seq<char>)>, n: nat)
    requires
        resolve_within(s, env, n) is Some,
    ensures
        resolution_ends(s, env),
        resolve_env_spec(s, env) == resolve_within(s, env, n)->0,
{
    let c = choose|k: nat| #[trigger] resolve_within(s, env, k) is Some;
    assert(resolve_within(s, env, c) is Some);
    if c <= n {
        lemma_resolve_within_mono(s, env, c, n);
    } else {
        lemma_resolve_within_mono(s, env, n, c);
    }
}

/// While no value of the table holds `$`, or none holds `{`, substitution
/// in any text ends: each replacement lowers the number of that character.
pub proof fn law_env_ok_ends(s: Seq<char>, env: Seq<(Seq<char>, Seq<char>)>)
    requires
        env_ok(env),
    ensures
        resolve_within(s, env, env_measure(s, env)) is Some,
        resolution_ends(s, env),
    decreases env_measure(s, env),
{
    if let Some((start, end)) = first_ref(s) {
        let name = s.subrange(start + 2, start + end);
        if let Some(v) = env_lookup(env, name) {
            lemma_first_ref(s);
            lemma_env_lookup_member(env, name);
            lemma_step_decreases(s, env, start, end, v);
            let next = s.take(start) + v + s.skip(start + end + 1);
            law_env_ok_ends(next, env);
            lemma_resolve_within_mono(next, env, env_measure(next, env), (env_measure(s, env) - 1) as nat);
        }
    }
    assert(resolve_within(s, env, env_measure(s, env)) is Some);
}

/// A value that holds no `${` comes back from substitution unchanged.
pub proof fn law_plain_value_unchanged(s: Seq<char>, env: Seq<(Seq<char>, Seq<char>)>)
    requires
        spec_find(s, open_ref()) is None,
    ensures
        resolution_ends(s, env),
        resolve_env_spec(s, env) == Ok::<Seq<char>, Seq<char>>(s),
{
    lemma_resolve_spec(s, env, 0);
}

/// Substitution leaves no complete `${NAME}` reference behind: where it
/// ends, the value it gives back has none.
pub proof fn law_resolved_has_no_reference(s: Seq<char>, env: Seq<(Seq<char>, Seq<char>)>)
    requires
        resolution_ends(s, env),
    ensures
        resolve_env_spec(s, env) matches Ok(out) ==> first_ref(out) is None,
{
    let n = choose|n: nat| #[trigger] resolve_within(s, env, n) is Some;
    lemma_resolve_spec(s, env, n);
    lemma_within_no_reference(s, env, n);
}

proof fn lemma_within_no_reference(s: Seq<char>, env: Seq<(Seq<char>, Seq<char>)>, n: nat)
    ensures
        resolve_within(s, env, n) matches Some(Ok(out)) ==> first_ref(out) is None,
    decreases n,
{
    if let Some((start, end)) = first_ref(s) {
        let name = s.subrange(start + 2, start + end);
        if let Some(v) = env_lookup(env, name) {
            if n > 0 {
                lemma_within_no_reference(s.take(start) + v + s.skip(start + end + 1), env, (n - 1) as nat);
            }
        }
    }
}

/// The value of the first entry named `name`.
pub fn lookup_env(env: &Vec<(String, String)>, name: &[char]) -> (r: Option<String>)
    ensures
        opt_view(r) == env_lookup(env_view(env@), name@),
{
    let ghost ev = env_view(env@);
    let n = from_chars(name);
    let mut i: usize = 0;
    assert(ev.skip(0) == ev);
    while i < env.len()
        invariant
            i <= env.len(),
            ev == env_view(env@),
            n@ == name@,
            env_lookup(ev, name@) == env_lookup(ev.skip(i as int), name@),
        decreases env.len() - i,
    {
        assert(ev.skip(i as int)[0] == ev[i as int]);
        assert(ev.skip(i as int).skip(1) == ev.skip(i + 1));
        if str_eq(env[i].0.as_str(), n.as_str()) {
            return Some(env[i].1.clone());
        }
        i += 1;
    }
    None
}

/// The characters of an optional string.
pub open spec fn opt_view(o: Option<String>) -> Option<Seq<char>> {
    match o {
        Some(s) => Some(s@),
        None => None,
    }
}

/// One substitution step.
enum SubstStep {
    /// No complete reference is left.
    Done,
    /// The first reference names a missing variable.
    Missing(Vec<char>),
    /// The text with its first reference replaced.
    Next(Vec<char>),
}

/// Replaces the first `${NAME}` of `cur` by the value of `NAME`.
fn subst_step(cur: &Vec<char>, env: &Vec<(String, String)>) -> (r: SubstStep)
    ensures
        match first_ref(cur@) {
            None => r is Done,
            Some((start, end)) => {
                let name = cur@.subrange(start + 2, start + end);
                match env_lookup(env_view(env@), name) {
                    None => r matches SubstStep::Missing(n) && n@ == name,
                    Some(v) => r matches SubstStep::Next(nx) && nx@ == cur@.take(start) + v + cur@.skip(
                        start + end + 1,
                    ),
                }
            },
        },
{
    let pat: Vec<char> = vec!['$', '{'];
    assert(pat@ == open_ref());
    proof {
        lemma_first_ref(cur@);
        lemma_find_from(cur@, open_ref(), 0);
    }
    let start = match find_chars(cur.as_slice(), pat.as_slice()) {
        None => return SubstStep::Done,
        Some(k) => k,
    };
    let tail = slice_tail(cur, start);
    let end = match find_char(tail.as_slice(), '}') {
        None => return SubstStep::Done,
        Some(e) => e,
    };
    let mut name: Vec<char> = Vec::new();
    push_range(&mut name, cur.as_slice(), start + 2, start + end);
    let value = match lookup_env(env, name.as_slice()) {
        None => return SubstStep::Missing(name),
        Some(v) => v,
    };
    let vchars = to_chars(value.as_str());
    let mut next: Vec<char> = Vec::new();
    push_range(&mut next, cur.as_slice(), 0, start);
    push_all(&mut next, vchars.as_slice());
    push_range(&mut next, cur.as_slice(), start + end + 1, cur.len());
    proof {
        assert(cur@.subrange(0, start as int) == cur@.take(start as int));
        assert(cur@.subrange(start + end + 1, cur@.len() as int) == cur@.skip(start + end + 1));
    }
    SubstStep::Next(next)
}

/// Replaces every `${VAR}` in `s` by the value of `VAR` in `env`; the
/// substitution must end (see [`law_env_ok_ends`] for a table on which it
/// always does).
pub fn resolve_env_string(s: &str, env: &Vec<(String, String)>) -> (r: Result<String, ConfigError>)
    requires
        resolution_ends(s@, env_view(env@)),
    ensures
        match (r, resolve_env_spec(s@, env_view(env@))) {
            (Ok(out), Ok(expected)) => out@ == expected,
            (Err(ConfigError::MissingEnv(name)), Err(missing)) => name@ == missing,
            _ => false,
        },
{
    let ghost ev = env_view(env@);
    let ghost mut fuel: nat = choose|n: nat| #[trigger] resolve_within(s@, ev, n) is Some;
    let mut result = to_chars(s);
    proof {
        lemma_resolve_spec(s@, ev, fuel);
    }
    loop
        invariant
            ev == env_view(env@),
            resolve_within(result@, ev, fuel) is Some,
            resolve_within(result@, ev, fuel)->0 == resolve_env_spec(s@, ev),
        decreases fuel,
    {
        match subst_step(&result, env) {
            SubstStep::Done => {
                return Ok(from_chars(result.as_slice()));
            },
            SubstStep::Missing(name) => {
                return Err(ConfigError::MissingEnv(from_chars(name.as_slice())));
            },
            SubstStep::Next(next) => {
                proof {
                    fuel = (fuel - 1) as nat;
                }
                result = next;
            },
        }
    }
}

/// Substitution in `s` with at most `steps` replacements: nothing when
/// references are still left after that many.
pub fn resolve_env_within(s: &str, env: &Vec<(String, String)>, steps: u64) -> (r: Option<
    Result<String, ConfigError>,
>)
    ensures
        match resolve_within(s@, env_view(env@), steps as nat) {
            None => r is None,
            Some(Ok(expected)) => r matches Some(Ok(out)) && out@ == expected,
            Some(Err(missing)) => r matches Some(Err(ConfigError::MissingEnv(name))) && name@ == missing,
        },
{
    let ghost ev = env_view(env@);
    let mut result = to_chars(s);
    let mut left: u64 = steps;
    loop
        invariant
            ev == env_view(env@),
            resolve_within(result@, ev, left as nat) == resolve_within(s@, ev, steps as nat),
        decreases left,
    {
        match subst_step(&result, env) {
            SubstStep::Done => {
                return Some(Ok(from_chars(result.as_slice())));
            },
            SubstStep::Missing(name) => {
                return Some(Err(ConfigError::MissingEnv(from_chars(name.as_slice()))));
            },
            SubstStep::Next(next) => {
                if left == 0 {
                    return None;
                }
                left = left - 1;
                result = next;
            },
        }
    }
}

/// The suffix of `v` that starts at `k`.
fn slice_tail(v: &Vec<char>, k: usize) -> (r: Vec<char>)
    requires
        k <= v.len(),
    ensures
        r@ == v@.skip(k as int),
{
    let mut out: Vec<char> = Vec::new();
    push_range(&mut out, v.as_slice(), k, v.len());
    assert(v@.subrange(k as int, v@.len() as int) == v@.skip(k as int));
    out
}

// ─── Configuration model ─────────────────────────

/// Full configuration of the agent.
#[derive(Debug, Clone)]
pub struct Config {
    pub core: CoreConfig,
    pub llm: LlmConfig,
    pub embedding: Option<EmbeddingConfig>,
    /// Message channels, by name.
    pub channels: Vec<(String, ChannelConfig)>,
    /// Scheduled jobs.
    pub cron: CronConfig,
    /// MCP servers.
    pub mcp: McpConfig,
}

/// Core settings.
#[derive(Debug, Clone)]
pub struct CoreConfig {
    /// Data directory (memory, skills, plans).
    pub data_dir: String,
    /// Path of the persona file (default `./SOUL.md`).
    pub soul_path: String,
    /// System prompt; when absent the persona file is read.
    pub system_prompt: Option<String>,
}

/// Embedding service settings (OpenAI-compatible API).
#[derive(Debug, Clone)]
pub struct EmbeddingConfig {
    pub api_base: String,
    pub api_key: String,
    pub model: String,
}

/// Scheduled-job settings.
#[derive(Debug, Clone)]
pub struct CronConfig {
    /// Job definitions, by key.
    pub jobs: Vec<(String, CronJobConfig)>,
    /// Whether the scheduler is enabled.
    pub enabled: bool,
}

/// One scheduled job.
#[derive(Debug, Clone)]
pub struct CronJobConfig {
    /// Job name (defaults to the key).
    pub name: Option<String>,
    pub schedule: CronScheduleConfig,
    pub action: CronActionConfig,
    pub enabled: bool,
}

/// When a job runs.
#[derive(Debug, Clone)]
pub enum CronScheduleConfig {
    EverySecs(u64),
    Daily { hour: u8, minute: u8 },
    Once { delay_secs: u64 },
    CronExpr(String),
}

/// What a job does.
#[derive(Debug, Clone)]
pub enum CronActionConfig {
    Shell { command: String },
    LlmPrompt { prompt: String },
}

/// Language-model settings.
#[derive(Debug, Clone)]
pub struct LlmConfig {
    /// Name of the default provider.
    pub default: Option<String>,
    /// Provider settings, by name.
    pub providers: Vec<(String, ProviderConfig)>,
}

/// One language-model provider.
#[derive(Debug, Clone)]
pub enum ProviderConfig {
    /// OpenAI-compatible API.
    OpenAI { api_key: String, model: String, base_url: String, timeout_secs: u64 },
    /// DeepSeek.
    DeepSeek { api_key: String, model: String, timeout_secs: u64 },
    /// Local Ollama model.
    Ollama { model: String, base_url: String, timeout_secs: u64 },
}

/// One message channel.
#[derive(Debug, Clone)]
pub enum ChannelConfig {
    /// HTTP callback receiver.
    Http { listen: String, name: Option<String> },
    /// NapCat WebSocket channel.
    NapCat { ws_url: String, name: Option<String> },
    /// QQ open-platform bot.
    QqBot {
        app_id: String,
        client_secret: String,
        token: Option<String>,
        production: bool,
        name: Option<String>,
    },
}

/// MCP server list.
#[derive(Debug, Clone)]
pub struct McpConfig {
    pub servers: Vec<McpServerConfig>,
}

/// One MCP server.
#[derive(Debug, Clone)]
pub struct McpServerConfig {
    pub name: String,
    pub url: String,
    /// Tool-name prefix.
    pub prefix: String,
    pub timeout_secs: u64,
}

// ─── Defaults ────────────────────────────────────

/// Default data directory.
pub fn default_data_dir() -> (r: String)
    ensures
        r@ == "./data/tremolite"@,
{
    "./data/tremolite".to_string()
}

/// Default persona file path.
pub fn default_soul_path() -> (r: String)
    ensures
        r@ == "./SOUL.md"@,
{
    "./SOUL.md".to_string()
}

/// Default for boolean switches that are on unless configured off.
pub fn default_true() -> (r: bool)
    ensures
        r,
{
    true
}

/// Default request timeout (seconds).
pub fn default_timeout() -> (r: u64)
    ensures
        r == 120,
{
    120
}

/// Default DeepSeek timeout (seconds).
pub fn default_deepseek_timeout() -> (r: u64)
    ensures
        r == 180,
{
    180
}

/// Default Ollama timeout (seconds).
pub fn default_ollama_timeout() -> (r: u64)
    ensures
        r == 300,
{
    300
}

/// Default OpenAI base URL.
pub fn default_openai_url() -> (r: String)
    ensures
        r@ == "https://api.openai.com/v1"@,
{
    "https://api.openai.com/v1".to_string()
}

/// Default DeepSeek model.
pub fn default_deepseek_model() -> (r: String)
    ensures
        r@ == "deepseek-chat"@,
{
    "deepseek-chat".to_string()
}

/// Default Ollama URL.
pub fn default_ollama_url() -> (r: String)
    ensures
        r@ == "http://localhost:11434"@,
{
    "http://localhost:11434".to_string()
}

impl Default for CoreConfig {
    fn default() -> (r: Self)
        ensures
            r.data_dir@ == "./data/tremolite"@,
            r.soul_path@ == "./SOUL.md"@,
            r.system_prompt is None,
    {
        CoreConfig { data_dir: default_data_dir(), soul_path: default_soul_path(), system_prompt: None }
    }
}

impl Default for EmbeddingConfig {
    fn default() -> (r: Self)
        ensures
            r.api_base@ == "https://api.siliconflow.cn/v1"@,
            r.api_key@ == Seq::<char>::empty(),
            r.model@ == "BAAI/bge-m3"@,
    {
        EmbeddingConfig {
            api_base: "https://api.siliconflow.cn/v1".to_string(),
            api_key: String::new(),
            model: "BAAI/bge-m3".to_string(),
        }
    }
}

impl Default for CronConfig {
    fn default() -> (r: Self)
        ensures
            r.jobs@.len() == 0,
            r.enabled,
    {
        CronConfig { jobs: Vec::new(), enabled: true }
    }
}

impl Default for LlmConfig {
    fn default() -> (r: Self)
        ensures
            r.default is None,
            r.providers@.len() == 0,
    {
        LlmConfig { default: None, providers: Vec::new() }
    }
}

impl Default for McpConfig {
    fn default() -> (r: Self)
        ensures
            r.servers@.len() == 0,
    {
        McpConfig { servers: Vec::new() }
    }
}

impl Default for Config {
    fn default() -> (r: Self)
        ensures
            r.core.data_dir@ == "./data/tremolite"@,
            r.core.soul_path@ == "./SOUL.md"@,
            r.core.system_prompt is None,
            r.llm.default is None,
            r.llm.providers@.len() == 0,
            r.embedding is None,
            r.channels@.len() == 0,
            r.cron.jobs@.len() == 0,
            r.cron.enabled,
            r.mcp.servers@.len() == 0,
    {
        Config {
            core: CoreConfig::default(),
            llm: LlmConfig::default(),
            embedding: None,
            channels: Vec::new(),
            cron: CronConfig::default(),
            mcp: McpConfig::default(),
        }
    }
}

impl CoreConfig {
    /// The configured system prompt when it is set and non-empty; otherwise
    /// The persona: the configured system prompt when it is set and
    /// non-empty, else the persona file's text as the caller read it
    /// (`None` when the file is missing or unreadable, giving an empty text).
    pub fn soul(&self, file_text: Option<String>) -> (r: String)
        ensures
            match self.system_prompt {
                Some(p) => p@.len() > 0 ==> r@ == p@,
                None => true,
            },
            (match self.system_prompt {
                Some(p) => p@.len() == 0,
                None => true,
            }) ==> r@ == (match file_text {
                Some(t) => t@,
                None => Seq::empty(),
            }),
    {
        match self.configured_soul() {
            Some(p) => p,
            None => match file_text {
                Some(t) => t,
                None => String::new(),
            },
        }
    }

    /// the persona file (`soul_path`) is to be read.
    pub fn configured_soul(&self) -> (r: Option<String>)
        ensures
            match self.system_prompt {
                Some(p) => if p@.len() > 0 {
                    r is Some && r->0@ == p@
                } else {
                    r is None
                },
                None => r is None,
            },
    {
        match &self.system_prompt {
            Some(p) => if p.as_str().is_empty() {
                None
            } else {
                Some(p.clone())
            },
            None => None,
        }
    }
}

// ─── Resolution of `${VAR}` in a configuration ───

/// The first error among field results, in order.
pub open spec fn first_err(rs: Seq<Result<Seq<char>, Seq<char>>>) -> Option<Seq<char>>
    decreases rs.len(),
{
    if rs.len() == 0 {
        None
    } else {
        match rs[0] {
            Err(n) => Some(n),
            Ok(_) => first_err(rs.skip(1)),
        }
    }
}

/// The resolved text of a field whose resolution succeeds.
pub open spec fn ok_text(r: Result<Seq<char>, Seq<char>>) -> Seq<char> {
    match r {
        Ok(v) => v,
        Err(_) => Seq::empty(),
    }
}

/// `out` is `s` with its references resolved.
pub open spec fn field_resolved(s: String, out: String, ev: Seq<(Seq<char>, Seq<char>)>) -> bool {
    out@ == ok_text(resolve_env_spec(s@, ev))
}

/// Resolution of a field, as a spec value.
pub open spec fn res(s: String, ev: Seq<(Seq<char>, Seq<char>)>) -> Result<Seq<char>, Seq<char>> {
    resolve_env_spec(s@, ev)
}

/// Substitution ends in each field, in order, up to the first field in
/// which a variable is missing.
pub open spec fn fields_end(fields: Seq<Seq<char>>, ev: Seq<(Seq<char>, Seq<char>)>) -> bool
    decreases fields.len(),
{
    fields.len() == 0 || (resolution_ends(fields[0], ev) && (resolve_env_spec(fields[0], ev) is Err
        || fields_end(fields.skip(1), ev)))
}

impl ProviderConfig {
    /// The provider's text fields, in the order they are resolved.
    pub open spec fn field_texts(self) -> Seq<Seq<char>> {
        match self {
            ProviderConfig::OpenAI { api_key, model, base_url, .. } => seq![api_key@, model@, base_url@],
            ProviderConfig::DeepSeek { api_key, model, .. } => seq![api_key@, model@],
            ProviderConfig::Ollama { model, base_url, .. } => seq![model@, base_url@],
        }
    }

    /// Substitution in the provider's fields ends.
    pub open spec fn substitution_ends(self, ev: Seq<(Seq<char>, Seq<char>)>) -> bool {
        fields_end(self.field_texts(), ev)
    }

    /// The first missing variable of this provider's fields.
    pub open spec fn resolve_error(self, ev: Seq<(Seq<char>, Seq<char>)>) -> Option<Seq<char>> {
        match self {
            ProviderConfig::OpenAI { api_key, model, base_url, .. } => first_err(
                seq![res(api_key, ev), res(model, ev), res(base_url, ev)],
            ),
            ProviderConfig::DeepSeek { api_key, model, .. } => first_err(
                seq![res(api_key, ev), res(model, ev)],
            ),
            ProviderConfig::Ollama { model, base_url, .. } => first_err(
                seq![res(model, ev), res(base_url, ev)],
            ),
        }
    }

    /// `out` is this provider with every text field resolved.
    pub open spec fn resolved_as(self, out: ProviderConfig, ev: Seq<(Seq<char>, Seq<char>)>) -> bool {
        match (self, out) {
            (
                ProviderConfig::OpenAI { api_key, model, base_url, timeout_secs },
                ProviderConfig::OpenAI { api_key: k2, model: m2, base_url: b2, timeout_secs: t2 },
            ) => field_resolved(api_key, k2, ev) && field_resolved(model, m2, ev)
                && field_resolved(base_url, b2, ev) && timeout_secs == t2,
            (
                ProviderConfig::DeepSeek { api_key, model, timeout_secs },
                ProviderConfig::DeepSeek { api_key: k2, model: m2, timeout_secs: t2 },
            ) => field_resolved(api_key, k2, ev) && field_resolved(model, m2, ev) && timeout_secs
                == t2,
            (
                ProviderConfig::Ollama { model, base_url, timeout_secs },
                ProviderConfig::Ollama { model: m2, base_url: b2, timeout_secs: t2 },
            ) => field_resolved(model, m2, ev) && field_resolved(base_url, b2, ev) && timeout_secs
                == t2,
            _ => false,
        }
    }

    /// Replaces `${VAR}` in every text field.
    pub fn resolve_env(&self, env: &Vec<(String, String)>) -> (r: Result<ProviderConfig, ConfigError>)
        requires
            self.substitution_ends(env_view(env@)),
        ensures
            match self.resolve_error(env_view(env@)) {
                Some(n) => r matches Err(ConfigError::MissingEnv(e)) && e@ == n,
                None => r matches Ok(o) && self.resolved_as(o, env_view(env@)),
            },
    {
        proof {
            reveal_with_fuel(first_err, 4);
            reveal_with_fuel(fields_end, 4);
            let ev = env_view(env@);
            let f = self.field_texts();
            if f.len() >= 2 {
                assert(f.skip(1)[0] == f[1]);
            }
            if f.len() == 3 {
                assert(f.skip(1).skip(1)[0] == f[2]);
            }
        }
        match self {
            ProviderConfig::OpenAI { api_key, model, base_url, timeout_secs } => {
                let k = resolve_env_string(api_key.as_str(), env)?;
                let m = resolve_env_string(model.as_str(), env)?;
                let b = resolve_env_string(base_url.as_str(), env)?;
                Ok(ProviderConfig::OpenAI { api_key: k, model: m, base_url: b, timeout_secs: *timeout_secs })
            },
            ProviderConfig::DeepSeek { api_key, model, timeout_secs } => {
                let k = resolve_env_string(api_key.as_str(), env)?;
                let m = resolve_env_string(model.as_str(), env)?;
                Ok(ProviderConfig::DeepSeek { api_key: k, model: m, timeout_secs: *timeout_secs })
            },
            ProviderConfig::Ollama { model, base_url, timeout_secs } => {
                let m = resolve_env_string(model.as_str(), env)?;
                let b = resolve_env_string(base_url.as_str(), env)?;
                Ok(ProviderConfig::Ollama { model: m, base_url: b, timeout_secs: *timeout_secs })
            },
        }
    }
}

/// Resolution results of an optional field (none when the field is absent).
pub open spec fn opt_res(o: Option<String>, ev: Seq<(Seq<char>, Seq<char>)>) -> Seq<Result<Seq<char>, Seq<char>>> {
    match o {
        Some(s) => seq![res(s, ev)],
        None => Seq::empty(),
    }
}

/// `out` is `o` with its references resolved.
pub open spec fn opt_resolved(o: Option<String>, out: Option<String>, ev: Seq<(Seq<char>, Seq<char>)>) -> bool {
    match (o, out) {
        (Some(s), Some(t)) => field_resolved(s, t, ev),
        (None, None) => true,
        _ => false,
    }
}

/// The first error of a result list with a single entry followed by `rest`.
pub proof fn lemma_first_err_cons(a: Result<Seq<char>, Seq<char>>, rest: Seq<Result<Seq<char>, Seq<char>>>)
    ensures
        first_err(seq![a] + rest) == (match a {
            Err(n) => Some(n),
            Ok(_) => first_err(rest),
        }),
{
    assert((seq![a] + rest).skip(1) =~= rest);
}

/// The text of an optional field, as a list of none or one.
pub open spec fn opt_text_list(o: Option<String>) -> Seq<Seq<char>> {
    match o {
        Some(t) => seq![t@],
        None => Seq::empty(),
    }
}

impl ChannelConfig {
    /// The channel's resolved text fields, in the order they are resolved.
    pub open spec fn field_texts(self) -> Seq<Seq<char>> {
        match self {
            ChannelConfig::Http { listen, .. } => seq![listen@],
            ChannelConfig::NapCat { ws_url, .. } => seq![ws_url@],
            ChannelConfig::QqBot { app_id, client_secret, token, .. } => seq![app_id@, client_secret@]
                + opt_text_list(token),
        }
    }

    /// Substitution in the channel's fields ends.
    pub open spec fn substitution_ends(self, ev: Seq<(Seq<char>, Seq<char>)>) -> bool {
        fields_end(self.field_texts(), ev)
    }

    /// The first missing variable of this channel's fields.
    pub open spec fn resolve_error(self, ev: Seq<(Seq<char>, Seq<char>)>) -> Option<Seq<char>> {
        match self {
            ChannelConfig::Http { listen, .. } => first_err(seq![res(listen, ev)]),
            ChannelConfig::NapCat { ws_url, .. } => first_err(seq![res(ws_url, ev)]),
            ChannelConfig::QqBot { app_id, client_secret, token, .. } => first_err(
                seq![res(app_id, ev), res(client_secret, ev)] + opt_res(token, ev),
            ),
        }
    }

    /// `out` is this channel with every text field except the name resolved.
    pub open spec fn resolved_as(self, out: ChannelConfig, ev: Seq<(Seq<char>, Seq<char>)>) -> bool {
        match (self, out) {
            (ChannelConfig::Http { listen, name }, ChannelConfig::Http { listen: l2, name: n2 }) =>
                field_resolved(listen, l2, ev) && opt_string_eq(name, n2),
            (ChannelConfig::NapCat { ws_url, name }, ChannelConfig::NapCat { ws_url: w2, name: n2 }) =>
                field_resolved(ws_url, w2, ev) && opt_string_eq(name, n2),
            (
                ChannelConfig::QqBot { app_id, client_secret, token, production, name },
                ChannelConfig::QqBot {
                    app_id: a2,
                    client_secret: c2,
                    token: t2,
                    production: p2,
                    name: n2,
                },
            ) => field_resolved(app_id, a2, ev) && field_resolved(client_secret, c2, ev)
                && opt_resolved(token, t2, ev) && production == p2 && opt_string_eq(name, n2),
            _ => false,
        }
    }

    /// Replaces `${VAR}` in the channel's address and credential fields.
    pub fn resolve_env(&self, env: &Vec<(String, String)>) -> (r: Result<ChannelConfig, ConfigError>)
        requires
            self.substitution_ends(env_view(env@)),
        ensures
            match self.resolve_error(env_view(env@)) {
                Some(n) => r matches Err(ConfigError::MissingEnv(e)) && e@ == n,
                None => r matches Ok(o) && self.resolved_as(o, env_view(env@)),
            },
    {
        proof {
            reveal_with_fuel(first_err, 4);
            reveal_with_fuel(fields_end, 4);
            let f = self.field_texts();
            if f.len() >= 2 {
                assert(f.skip(1)[0] == f[1]);
            }
            if f.len() == 3 {
                assert(f.skip(1).skip(1)[0] == f[2]);
            }
        }
        match self {
            ChannelConfig::Http { listen, name } => {
                let l = resolve_env_string(listen.as_str(), env)?;
                Ok(ChannelConfig::Http { listen: l, name: clone_opt(name) })
            },
            ChannelConfig::NapCat { ws_url, name } => {
                let w = resolve_env_string(ws_url.as_str(), env)?;
                Ok(ChannelConfig::NapCat { ws_url: w, name: clone_opt(name) })
            },
            ChannelConfig::QqBot { app_id, client_secret, token, production, name } => {
                let ghost ev = env_view(env@);
                proof {
                    lemma_first_err_cons(res(*app_id, ev), seq![res(*client_secret, ev)] + opt_res(*token, ev));
                    lemma_first_err_cons(res(*client_secret, ev), opt_res(*token, ev));
                    assert(seq![res(*app_id, ev), res(*client_secret, ev)] + opt_res(*token, ev)
                        =~= seq![res(*app_id, ev)] + (seq![res(*client_secret, ev)] + opt_res(*token, ev)));
                }
                let a = resolve_env_string(app_id.as_str(), env)?;
                let c = resolve_env_string(client_secret.as_str(), env)?;
                let t = match token {
                    Some(tok) => Some(resolve_env_string(tok.as_str(), env)?),
                    None => None,
                };
                Ok(ChannelConfig::QqBot {
                    app_id: a,
                    client_secret: c,
                    token: t,
                    production: *production,
                    name: clone_opt(name),
                })
            },
        }
    }
}

/// Two optional strings hold the same text.
pub open spec fn opt_string_eq(a: Option<String>, b: Option<String>) -> bool {
    opt_view(a) == opt_view(b)
}

/// A copy of an optional string.
pub fn clone_opt(o: &Option<String>) -> (r: Option<String>)
    ensures
        opt_view(r) == opt_view(*o),
{
    match o {
        Some(s) => Some(s.clone()),
        None => None,
    }
}

/// The first missing variable over a provider list, in order.
pub open spec fn providers_error(ps: Seq<(String, ProviderConfig)>, ev: Seq<(Seq<char>, Seq<char>)>) -> Option<Seq<char>>
    decreases ps.len(),
{
    if ps.len() == 0 {
        None
    } else {
        match ps[0].1.resolve_error(ev) {
            Some(n) => Some(n),
            None => providers_error(ps.skip(1), ev),
        }
    }
}

/// Substitution ends in each provider of a list, in order, up to the first
/// with a missing variable.
pub open spec fn providers_end(ps: Seq<(String, ProviderConfig)>, ev: Seq<(Seq<char>, Seq<char>)>) -> bool
    decreases ps.len(),
{
    ps.len() == 0 || (ps[0].1.substitution_ends(ev) && (ps[0].1.resolve_error(ev) is Some
        || providers_end(ps.skip(1), ev)))
}

/// Substitution ends in each channel of a list, in order, up to the first
/// with a missing variable.
pub open spec fn channels_end(cs: Seq<(String, ChannelConfig)>, ev: Seq<(Seq<char>, Seq<char>)>) -> bool
    decreases cs.len(),
{
    cs.len() == 0 || (cs[0].1.substitution_ends(ev) && (cs[0].1.resolve_error(ev) is Some
        || channels_end(cs.skip(1), ev)))
}

/// Substitution ends in the embedding settings' fields.
pub open spec fn embedding_ends(e: Option<EmbeddingConfig>, ev: Seq<(Seq<char>, Seq<char>)>) -> bool {
    match e {
        Some(emb) => fields_end(seq![emb.api_key@, emb.api_base@, emb.model@], ev),
        None => true,
    }
}

/// `outs` is `ps` with every provider resolved, names and order kept.
pub open spec fn providers_resolved(ps: Seq<(String, ProviderConfig)>, outs: Seq<(String, ProviderConfig)>, ev: Seq<(Seq<char>, Seq<char>)>) -> bool {
    &&& ps.len() == outs.len()
    &&& forall|i: int| 0 <= i < ps.len() ==> (#[trigger] outs[i]).0@ == ps[i].0@ && ps[i].1.resolved_as(outs[i].1, ev)
}

/// The first missing variable over a channel list, in order.
pub open spec fn channels_error(cs: Seq<(String, ChannelConfig)>, ev: Seq<(Seq<char>, Seq<char>)>) -> Option<Seq<char>>
    decreases cs.len(),
{
    if cs.len() == 0 {
        None
    } else {
        match cs[0].1.resolve_error(ev) {
            Some(n) => Some(n),
            None => channels_error(cs.skip(1), ev),
        }
    }
}

/// `outs` is `cs` with every channel resolved, names and order kept.
pub open spec fn channels_resolved(cs: Seq<(String, ChannelConfig)>, outs: Seq<(String, ChannelConfig)>, ev: Seq<(Seq<char>, Seq<char>)>) -> bool {
    &&& cs.len() == outs.len()
    &&& forall|i: int| 0 <= i < cs.len() ==> (#[trigger] outs[i]).0@ == cs[i].0@ && cs[i].1.resolved_as(outs[i].1, ev)
}

/// The first missing variable of the embedding settings.
pub open spec fn embedding_error(e: Option<EmbeddingConfig>, ev: Seq<(Seq<char>, Seq<char>)>) -> Option<Seq<char>> {
    match e {
        Some(emb) => first_err(seq![res(emb.api_key, ev), res(emb.api_base, ev), res(emb.model, ev)]),
        None => None,
    }
}

/// `out` is `e` with every field resolved.
pub open spec fn embedding_resolved(e: Option<EmbeddingConfig>, out: Option<EmbeddingConfig>, ev: Seq<(Seq<char>, Seq<char>)>) -> bool {
    match (e, out) {
        (Some(a), Some(b)) => field_resolved(a.api_key, b.api_key, ev) && field_resolved(a.api_base, b.api_base, ev)
            && field_resolved(a.model, b.model, ev),
        (None, None) => true,
        _ => false,
    }
}

/// Resolves every provider of a list, stopping at the first missing variable.
fn resolve_providers(ps: &Vec<(String, ProviderConfig)>, env: &Vec<(String, String)>) -> (r: Result<Vec<(String, ProviderConfig)>, ConfigError>)
    requires
        providers_end(ps@, env_view(env@)),
    ensures
        match providers_error(ps@, env_view(env@)) {
            Some(n) => r matches Err(ConfigError::MissingEnv(e)) && e@ == n,
            None => r matches Ok(o) && providers_resolved(ps@, o@, env_view(env@)),
        },
{
    let ghost ev = env_view(env@);
    let mut out: Vec<(String, ProviderConfig)> = Vec::new();
    let mut i: usize = 0;
    assert(ps@.skip(0) == ps@);
    while i < ps.len()
        invariant
            i <= ps.len(),
            ev == env_view(env@),
            providers_end(ps@.skip(i as int), ev),
            providers_error(ps@, ev) == providers_error(ps@.skip(i as int), ev),
            out@.len() == i,
            forall|k: int| 0 <= k < i ==> (#[trigger] out@[k]).0@ == ps@[k].0@ && ps@[k].1.resolved_as(out@[k].1, ev),
        decreases ps.len() - i,
    {
        assert(ps@.skip(i as int)[0] == ps@[i as int]);
        assert(ps@.skip(i as int).skip(1) == ps@.skip(i + 1));
        let p = ps[i].1.resolve_env(env)?;
        out.push((ps[i].0.clone(), p));
        i += 1;
    }
    Ok(out)
}

/// Resolves every channel of a list, stopping at the first missing variable.
fn resolve_channels(cs: &Vec<(String, ChannelConfig)>, env: &Vec<(String, String)>) -> (r: Result<Vec<(String, ChannelConfig)>, ConfigError>)
    requires
        channels_end(cs@, env_view(env@)),
    ensures
        match channels_error(cs@, env_view(env@)) {
            Some(n) => r matches Err(ConfigError::MissingEnv(e)) && e@ == n,
            None => r matches Ok(o) && channels_resolved(cs@, o@, env_view(env@)),
        },
{
    let ghost ev = env_view(env@);
    let mut out: Vec<(String, ChannelConfig)> = Vec::new();
    let mut i: usize = 0;
    assert(cs@.skip(0) == cs@);
    while i < cs.len()
        invariant
            i <= cs.len(),
            ev == env_view(env@),
            channels_end(cs@.skip(i as int), ev),
            channels_error(cs@, ev) == channels_error(cs@.skip(i as int), ev),
            out@.len() == i,
            forall|k: int| 0 <= k < i ==> (#[trigger] out@[k]).0@ == cs@[k].0@ && cs@[k].1.resolved_as(out@[k].1, ev),
        decreases cs.len() - i,
    {
        assert(cs@.skip(i as int)[0] == cs@[i as int]);
        assert(cs@.skip(i as int).skip(1) == cs@.skip(i + 1));
        let c = cs[i].1.resolve_env(env)?;
        out.push((cs[i].0.clone(), c));
        i += 1;
    }
    Ok(out)
}

impl Config {
    /// The first missing variable of the whole configuration: providers
    /// first, then the embedding settings, then the channels.
    pub open spec fn resolve_error(self, ev: Seq<(Seq<char>, Seq<char>)>) -> Option<Seq<char>> {
        match providers_error(self.llm.providers@, ev) {
            Some(n) => Some(n),
            None => match embedding_error(self.embedding, ev) {
                Some(n) => Some(n),
                None => channels_error(self.channels@, ev),
            },
        }
    }

    /// `out` is this configuration with every reference resolved and nothing else changed.
    pub open spec fn resolved_as(self, out: Config, ev: Seq<(Seq<char>, Seq<char>)>) -> bool {
        &&& providers_resolved(self.llm.providers@, out.llm.providers@, ev)
        &&& embedding_resolved(self.embedding, out.embedding, ev)
        &&& channels_resolved(self.channels@, out.channels@, ev)
        &&& out.core == self.core
        &&& out.llm.default == self.llm.default
        &&& out.cron == self.cron
        &&& out.mcp == self.mcp
    }

    /// Substitution ends in the provider, embedding and channel settings,
    /// in that order, up to the first missing variable.
    pub open spec fn substitution_ends(self, ev: Seq<(Seq<char>, Seq<char>)>) -> bool {
        &&& providers_end(self.llm.providers@, ev)
        &&& providers_error(self.llm.providers@, ev) is None ==> embedding_ends(self.embedding, ev)
        &&& providers_error(self.llm.providers@, ev) is None && embedding_error(self.embedding, ev) is None
            ==> channels_end(self.channels@, ev)
    }

    /// Replaces `${VAR}` in the provider, embedding and channel settings.
    pub fn resolve_env_vars(self, env: &Vec<(String, String)>) -> (r: Result<Config, ConfigError>)
        requires
            self.substitution_ends(env_view(env@)),
        ensures
            match self.resolve_error(env_view(env@)) {
                Some(n) => r matches Err(ConfigError::MissingEnv(e)) && e@ == n,
                None => r matches Ok(o) && self.resolved_as(o, env_view(env@)),
            },
    {
        proof {
            reveal_with_fuel(first_err, 4);
            reveal_with_fuel(fields_end, 4);
            if self.embedding is Some {
                let emb = self.embedding->0;
                let f = seq![emb.api_key@, emb.api_base@, emb.model@];
                assert(f.skip(1)[0] == f[1]);
                assert(f.skip(1).skip(1)[0] == f[2]);
            }
        }
        let providers = resolve_providers(&self.llm.providers, env)?;
        let embedding = match &self.embedding {
            Some(emb) => {
                let api_key = resolve_env_string(emb.api_key.as_str(), env)?;
                let api_base = resolve_env_string(emb.api_base.as_str(), env)?;
                let model = resolve_env_string(emb.model.as_str(), env)?;
                Some(EmbeddingConfig { api_key, api_base, model })
            },
            None => None,
        };
        let channels = resolve_channels(&self.channels, env)?;
        Ok(
            Config {
                core: self.core,
                llm: LlmConfig { default: self.llm.default, providers },
                embedding,
                channels,
                cron: self.cron,
                mcp: self.mcp,
            },
        )
    }
}

// ─── Paths and `.env` files ──────────────────────

/// `s` without its trailing `c` characters (`str::trim_end_matches`).
pub open spec fn trim_end_char(s: Seq<char>, c: char) -> Seq<char>
    decreases s.len(),
{
    if s.len() > 0 && s.last() == c {
        trim_end_char(s.drop_last(), c)
    } else {
        s
    }
}

/// Removes trailing `c` characters.
pub fn trim_end_char_exec(s: &[char], c: char) -> (r: Vec<char>)
    ensures
        r@ == trim_end_char(s@, c),
{
    let mut n = s.len();
    assert(s@.take(n as int) == s@);
    while n > 0 && s[n - 1] == c
        invariant
            n <= s.len(),
            trim_end_char(s@, c) == trim_end_char(s@.take(n as int), c),
        decreases n,
    {
        assert(s@.take(n as int).drop_last() == s@.take(n - 1));
        n -= 1;
    }
    let mut out = Vec::new();
    push_range(&mut out, s, 0, n);
    assert(s@.subrange(0, n as int) == s@.take(n as int));
    out
}

/// `~/rest` expanded against the home directory `home` (when known).
pub open spec fn expand_tilde_spec(s: Seq<char>, home: Option<Seq<char>>) -> Seq<char> {
    if spec_starts_with(s, seq!['~', '/']) && home is Some {
        trim_end_char(home->0, '/') + seq!['/'] + s.skip(2)
    } else {
        s
    }
}

/// Replaces a leading `~/` by the home directory.
pub fn expand_tilde(s: &str, home: Option<&str>) -> (r: String)
    ensures
        r@ == expand_tilde_spec(s@, match home {
            Some(h) => Some(h@),
            None => None,
        }),
{
    let c = to_chars(s);
    let prefix = vec!['~', '/'];
    assert(prefix@ == seq!['~', '/']);
    if starts_with_chars(c.as_slice(), prefix.as_slice()) {
        if let Some(h) = home {
            let hc = to_chars(h);
            let mut out = trim_end_char_exec(hc.as_slice(), '/');
            out.push('/');
            push_range(&mut out, c.as_slice(), 2, c.len());
            assert(c@.subrange(2, c@.len() as int) == c@.skip(2));
            return from_chars(out.as_slice());
        }
    }
    s.to_string()
}

/// Which configuration file to read: the given path, else `./config.toml`
/// when it exists, else `~/.tremolite/config.toml`.
pub fn resolve_config_path(path: Option<&str>, local_exists: bool, home: Option<&str>) -> (r: String)
    ensures
        r@ == (match path {
            Some(p) => p@,
            None => if local_exists {
                "./config.toml"@
            } else {
                expand_tilde_spec("~/.tremolite/config.toml"@, match home {
                    Some(h) => Some(h@),
                    None => None,
                })
            },
        }),
{
    match path {
        Some(p) => p.to_string(),
        None => if local_exists {
            "./config.toml".to_string()
        } else {
            expand_tilde("~/.tremolite/config.toml", home)
        },
    }
}

/// The `KEY=VALUE` entry of one `.env` line: blank lines, `#` comments and
/// lines without `=` give none; key and value are trimmed.
pub open spec fn env_line_entry(line: Seq<char>) -> Option<(Seq<char>, Seq<char>)> {
    let t = trim_spec(line);
    if t.len() == 0 || t[0] == '#' {
        None
    } else {
        match index_of(t, '=') {
            None => None,
            Some(k) => Some((trim_spec(t.take(k)), trim_spec(t.skip(k + 1)))),
        }
    }
}

/// A `.env` line `K=V`, whose key holds no `=` and is not a comment, is
/// the entry of the trimmed key and the whole trimmed value: the line is
/// split at its first `=`, and any `=` in the value stays in it.
pub proof fn law_env_line_splits_at_first_eq(k: Seq<char>, v: Seq<char>)
    requires
        forall|i: int| 0 <= i < k.len() ==> #[trigger] k[i] != '=',
        !(trim_spec(k).len() > 0 && trim_spec(k)[0] == '#'),
    ensures
        env_line_entry(k + seq!['='] + v) == Some((trim_spec(k), trim_spec(v))),
{
    let line = k + seq!['='] + v;
    let n = k.len() as int;
    let (ka, kb) = crate::text::trim_bounds(k);
    let (va, vb) = crate::text::trim_bounds(v);
    assert(!crate::text::is_ws('='));
    assert(line[n] == '=');
    assert forall|i: int| 0 <= i < n implies #[trigger] line[i] == k[i] by {}
    assert forall|i: int| 0 <= i < v.len() implies #[trigger] line[n + 1 + i] == v[i] by {}
    let a = if ka < kb { ka } else { n };
    let b = if va < vb { n + 1 + vb } else { n + 1 };
    assert forall|i: int| 0 <= i < a implies crate::text::is_ws(#[trigger] line[i]) by {
        assert(line[i] == k[i]);
        if ka >= kb && !crate::text::is_ws(k[i]) {
            assert(exists|j: int| 0 <= j < k.len() && !crate::text::is_ws(#[trigger] k[j]));
        }
    }
    assert forall|i: int| b <= i < line.len() implies crate::text::is_ws(#[trigger] line[i]) by {
        assert(line[i] == v[i - n - 1]);
        if va >= vb && !crate::text::is_ws(v[i - n - 1]) {
            assert(exists|j: int| 0 <= j < v.len() && !crate::text::is_ws(#[trigger] v[j]));
        }
    }
    crate::text::lemma_trim_is(line, a, b);
    let t = line.subrange(a, b);
    assert(trim_spec(line) == t);
    assert(t[n - a] == '=');
    assert forall|i: int| 0 <= i < n - a implies #[trigger] t[i] != '=' by {
        assert(t[i] == k[i + a]);
    }
    crate::text::lemma_index_of_at(t, '=', n - a);
    if ka < kb {
        assert(t[0] == k[ka]);
        assert(trim_spec(k)[0] == k[ka]);
        let kk = k.subrange(ka, n);
        crate::text::lemma_trim_is(kk, 0, kb - ka);
        assert(t.take(n - a) =~= kk);
        assert(kk.subrange(0, kb - ka) =~= k.subrange(ka, kb));
    } else {
        assert(t[0] == '=');
        crate::text::lemma_trim_is(Seq::<char>::empty(), 0, 0);
        assert(t.take(n - a) =~= Seq::<char>::empty());
        assert(k.subrange(ka, kb) =~= Seq::<char>::empty());
    }
    if va < vb {
        let vv = v.subrange(0, vb);
        crate::text::lemma_trim_is(vv, va, vb);
        assert(t.skip(n - a + 1) =~= vv);
        assert(vv.subrange(va, vb) =~= v.subrange(va, vb));
    } else {
        crate::text::lemma_trim_is(Seq::<char>::empty(), 0, 0);
        assert(t.skip(n - a + 1) =~= Seq::<char>::empty());
        assert(v.subrange(va, vb) =~= Seq::<char>::empty());
    }
}

/// A blank line, a `#` comment and a line without `=` give no entry.
pub proof fn law_env_line_without_entry(line: Seq<char>)
    ensures
        trim_spec(line).len() == 0 ==> env_line_entry(line) is None,
        trim_spec(line).len() > 0 && trim_spec(line)[0] == '#' ==> env_line_entry(line) is None,
        (forall|i: int| 0 <= i < line.len() ==> #[trigger] line[i] != '=') ==> env_line_entry(line) is None,
{
    let (a, b) = crate::text::trim_bounds(line);
    let t = trim_spec(line);
    lemma_find_from(t, seq!['='], 0);
    if let Some(k) = index_of(t, '=') {
        assert(t.subrange(k, k + 1)[0] == t[k]);
        assert(t[k] == line[a + k]);
    }
}

/// The entries of a list of lines, in order.
pub open spec fn env_entries(lines: Seq<Seq<char>>) -> Seq<(Seq<char>, Seq<char>)>
    decreases lines.len(),
{
    if lines.len() == 0 {
        Seq::empty()
    } else {
        match env_line_entry(lines[0]) {
            Some(e) => seq![e] + env_entries(lines.skip(1)),
            None => env_entries(lines.skip(1)),
        }
    }
}

/// The entry of one `.env` line.
fn parse_env_line(line: &[char]) -> (r: Option<(String, String)>)
    ensures
        match r {
            Some(p) => env_line_entry(line@) == Some((p.0@, p.1@)),
            None => env_line_entry(line@) is None,
        },
{
    let t = trim_chars(line);
    if t.len() == 0 || t[0] == '#' {
        return None;
    }
    match find_char(t.as_slice(), '=') {
        None => None,
        Some(k) => {
            let mut before = Vec::new();
            push_range(&mut before, t.as_slice(), 0, k);
            let mut after = Vec::new();
            push_range(&mut after, t.as_slice(), k + 1, t.len());
            assert(t@.subrange(0, k as int) == t@.take(k as int));
            assert(t@.subrange(k + 1, t@.len() as int) == t@.skip(k + 1));
            let key = trim_chars(before.as_slice());
            let value = trim_chars(after.as_slice());
            Some((from_chars(key.as_slice()), from_chars(value.as_slice())))
        },
    }
}

/// The `KEY=VALUE` entries of a `.env` file's text, in file order.
pub fn parse_env_content(content: &str) -> (r: Vec<(String, String)>)
    ensures
        env_view(r@) == env_entries(split_on(content@, '\n')),
{
    let c = to_chars(content);
    let mut out: Vec<(String, String)> = Vec::new();
    let mut pos: usize = 0;
    assert(c@.skip(0) == c@);
    loop
        invariant
            pos <= c.len(),
            c@ == content@,
            env_view(out@) + env_entries(split_on(c@.skip(pos as int), '\n')) == env_entries(
                split_on(c@, '\n'),
            ),
        decreases c.len() - pos,
    {
        let ghost rest = c@.skip(pos as int);
        let tail = {
            let mut t = Vec::new();
            push_range(&mut t, c.as_slice(), pos, c.len());
            assert(c@.subrange(pos as int, c@.len() as int) == rest);
            t
        };
        match find_char(tail.as_slice(), '\n') {
            None => {
                assert(split_on(rest, '\n') == seq![rest]);
                assert(seq![rest].skip(1) =~= Seq::<Seq<char>>::empty());
                assert(seq![rest][0] == rest);
                assert(env_entries(Seq::<Seq<char>>::empty()) == Seq::<(Seq<char>, Seq<char>)>::empty());
                let e = parse_env_line(tail.as_slice());
                if let Some(p) = e {
                    let ghost before = env_view(out@);
                    out.push(p);
                    assert(env_view(out@) =~= before + seq![(p.0@, p.1@)]);
                    assert(env_entries(seq![rest]) == seq![(p.0@, p.1@)] + Seq::<(Seq<char>, Seq<char>)>::empty());
                } else {
                    assert(env_entries(seq![rest]) == Seq::<(Seq<char>, Seq<char>)>::empty());
                }
                assert(env_view(out@) =~= env_entries(split_on(c@, '\n')));
                return out;
            },
            Some(k) => {
                let mut line = Vec::new();
                push_range(&mut line, tail.as_slice(), 0, k);
                assert(tail@.subrange(0, k as int) == rest.take(k as int));
                assert(rest.skip(k + 1) == c@.skip(pos + k + 1));
                let ghost pieces = split_on(rest, '\n');
                assert(pieces == seq![rest.take(k as int)] + split_on(rest.skip(k + 1), '\n'));
                assert(pieces[0] == rest.take(k as int));
                assert(pieces.skip(1) =~= split_on(rest.skip(k + 1), '\n'));
                let e = parse_env_line(line.as_slice());
                if let Some(p) = e {
                    let ghost before = env_view(out@);
                    out.push(p);
                    assert(env_view(out@) =~= before + seq![(p.0@, p.1@)]);
                }
                pos = pos + k + 1;
            },
        }
    }
}

/// The names of the configured providers.
pub open spec fn provider_names(providers: Seq<(String, ProviderConfig)>) -> Set<Seq<char>> {
    Set::new(|n: Seq<char>| exists|k: int| 0 <= k < providers.len() && #[trigger] providers[k].0@ == n)
}

impl Config {
    /// Registers a provider for each configured one, in order, each made
    /// by `build` from its settings, and makes the configured default the
    /// default. A default that names no configured provider is an error.
    pub fn initialize_providers<P: crate::llm::LLMProvider + ?Sized, F: Fn(&ProviderConfig) -> Box<P>>(
        &self,
        build: F,
    ) -> (r: Result<crate::llm::ProviderRegistry<P>, ConfigError>)
        requires
            forall|c: &ProviderConfig| build.requires((c,)),
        ensures
            match self.llm.default {
                Some(d) if !provider_names(self.llm.providers@).contains(d@) => r matches Err(ConfigError::Io(m))
                    && m@ == "Default provider '"@ + d@ + "' not found in config"@,
                _ => r matches Ok(reg) && reg.names() == provider_names(self.llm.providers@)
                    && reg.default_name() == match self.llm.default {
                    Some(d) => Some(d@),
                    None => None,
                },
            },
    {
        let mut registry = crate::llm::ProviderRegistry::new();
        let mut i: usize = 0;
        while i < self.llm.providers.len()
            invariant
                i <= self.llm.providers@.len(),
                forall|c: &ProviderConfig| build.requires((c,)),
                registry.default_name() is None,
                registry.names() == provider_names(self.llm.providers@.take(i as int)),
            decreases self.llm.providers@.len() - i,
        {
            let boxed = build(&self.llm.providers[i].1);
            registry.register(self.llm.providers[i].0.as_str(), boxed);
            proof {
                let pre = self.llm.providers@.take(i as int);
                let post = self.llm.providers@.take(i + 1);
                assert forall|n: Seq<char>| provider_names(post).contains(n) <==> provider_names(pre).insert(
                    self.llm.providers@[i as int].0@,
                ).contains(n) by {
                    if provider_names(post).contains(n) {
                        let k = choose|k: int| 0 <= k < post.len() && #[trigger] post[k].0@ == n;
                        if k < i {
                            assert(pre[k] == post[k]);
                        }
                    }
                    if provider_names(pre).contains(n) {
                        let k = choose|k: int| 0 <= k < pre.len() && #[trigger] pre[k].0@ == n;
                        assert(pre[k] == post[k]);
                    }
                    if n == self.llm.providers@[i as int].0@ {
                        assert(post[i as int] == self.llm.providers@[i as int]);
                    }
                }
                assert(provider_names(post) =~= provider_names(pre).insert(self.llm.providers@[i as int].0@));
            }
            i += 1;
        }
        assert(self.llm.providers@.take(self.llm.providers@.len() as int) =~= self.llm.providers@);
        match &self.llm.default {
            Some(d) => match registry.set_default(d.as_str()) {
                Ok(()) => Ok(registry),
                Err(_) => {
                    let mut m = crate::text::concat2("Default provider '", d.as_str());
                    crate::text::append_str(&mut m, "' not found in config");
                    Err(ConfigError::Io(m))
                },
            },
            None => Ok(registry),
        }
    }
}

} // verus!
