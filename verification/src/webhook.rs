//! Webhook subscriptions: external events that, when their conditions hold,
//! trigger an action.
//!
//! Receiving HTTP requests and parsing JSON stay with the caller, which hands
//! in the event with its payload both as a [`JsonValue`] and as its compact
//! JSON text.
use vstd::prelude::*;
use crate::datetime::now_secs;
use crate::json::{
    args_view, json_path, parse_string_args, parse_tool_args, parsed_string_args, parsed_tool_args, scalar_text, JsonValue,
};
use crate::module::{failed_with, get_str_member, ok_with, or_text, str_member, ModuleError, ToolArgs};
use crate::text::{
    append_str, concat2, concat3, cut_bytes, cut_bytes_exec, debug_quote, debug_str, from_chars, push_all,
    push_char, push_chars, replace_all, replace_all_spec, spec_contains, spec_starts_with, split_chars,
    split_on, pieces_view, str_contains, str_eq, str_starts_with, to_chars, dec, u64_to_string,
};

verus! {

// ─── Types ───────────────────────────────────────

/// A webhook: one external event source and what it triggers.
#[derive(Debug)]
pub struct WebhookConfig {
    /// Name, also the route path `/webhooks/<name>`.
    pub name: String,
    /// Source tag (`github`, `gitlab`, `custom`, ...).
    pub source: String,
    /// Conditions on the event payload; all must hold.
    pub conditions: Vec<ConditionRule>,
    /// What a matching event triggers.
    pub action: WebhookAction,
    /// When the webhook last triggered, in Unix seconds.
    pub last_triggered: Option<u64>,
    /// How many times it has triggered.
    pub trigger_count: u64,
}

/// A condition on one field of the payload.
#[derive(Debug)]
pub struct ConditionRule {
    /// Dotted path of the field (`action`, `pull_request.state`).
    pub field: String,
    /// Expected value.
    pub value: String,
    /// `eq`, `contains` or `prefix`.
    pub operator: String,
}

/// The operator of a condition that names none.
pub fn default_operator() -> (r: String)
    ensures
        r@ == "eq"@,
{
    "eq".to_string()
}

/// What a webhook does when it triggers.
#[derive(Debug)]
pub enum WebhookAction {
    /// Calls a built-in tool with string arguments.
    Tool { tool: String, args: Vec<(String, String)> },
    /// Hands the payload to the model through a prompt template.
    LlmPrompt { prompt_template: String },
    /// Logs a message.
    Log { message: String },
}

/// An event received for a webhook.
#[derive(Debug)]
pub struct WebhookEvent {
    pub name: String,
    pub source: String,
    pub headers: Vec<(String, String)>,
    pub payload: JsonValue,
    /// The payload as compact JSON text.
    pub payload_text: String,
}

/// The webhook registry and its event log.
#[derive(Debug)]
pub struct WebhookModule {
    hooks: Vec<WebhookConfig>,
    event_log: Vec<(String, u64, bool)>,
}

// ─── Model ───────────────────────────────────────

/// Index of the first webhook at or after `i` named `name`.
pub open spec fn name_index_from(hooks: Seq<WebhookConfig>, name: Seq<char>, i: int) -> Option<int>
    decreases hooks.len() - i,
{
    if i < 0 || i >= hooks.len() {
        None
    } else if hooks[i].name@ == name {
        Some(i)
    } else {
        name_index_from(hooks, name, i + 1)
    }
}

/// Index of the first webhook named `name`.
pub open spec fn name_index(hooks: Seq<WebhookConfig>, name: Seq<char>) -> Option<int> {
    name_index_from(hooks, name, 0)
}

/// Some webhook is named `name`.
pub open spec fn has_name(hooks: Seq<WebhookConfig>, name: Seq<char>) -> bool {
    exists|i: int| 0 <= i < hooks.len() && #[trigger] hooks[i].name@ == name
}

/// No two webhooks share a name.
pub open spec fn names_distinct(hooks: Seq<WebhookConfig>) -> bool {
    forall|i: int, j: int|
        0 <= i < j < hooks.len() ==> #[trigger] hooks[i].name@ != #[trigger] hooks[j].name@
}

/// [`name_index`] finds the first webhook with the name, and only fails
/// where none has it.
pub proof fn lemma_name_index(hooks: Seq<WebhookConfig>, name: Seq<char>)
    ensures
        match name_index(hooks, name) {
            Some(k) => 0 <= k < hooks.len() && hooks[k].name@ == name && forall|j: int|
                0 <= j < k ==> #[trigger] hooks[j].name@ != name,
            None => !has_name(hooks, name),
        },
{
    lemma_name_index_from(hooks, name, 0);
}

proof fn lemma_name_index_from(hooks: Seq<WebhookConfig>, name: Seq<char>, i: int)
    requires
        0 <= i,
    ensures
        match name_index_from(hooks, name, i) {
            Some(k) => i <= k < hooks.len() && hooks[k].name@ == name && forall|j: int|
                i <= j < k ==> #[trigger] hooks[j].name@ != name,
            None => forall|j: int| i <= j < hooks.len() ==> #[trigger] hooks[j].name@ != name,
        },
    decreases hooks.len() - i,
{
    if i < hooks.len() && hooks[i].name@ != name {
        lemma_name_index_from(hooks, name, i + 1);
    }
}

impl WebhookModule {
    /// The registered webhooks, in registration order.
    pub closed spec fn hooks_seq(&self) -> Seq<WebhookConfig> {
        self.hooks@
    }

    /// Every received event as (webhook name, time, whether it triggered).
    pub closed spec fn log_seq(&self) -> Seq<(String, u64, bool)> {
        self.event_log@
    }

    /// The registry's invariant: names are distinct.
    pub open spec fn wf(&self) -> bool {
        names_distinct(self.hooks_seq())
    }
}

/// The last 20 entries of the event log.
pub open spec fn recent_log(log: Seq<(String, u64, bool)>) -> Seq<(String, u64, bool)> {
    if log.len() <= 20 {
        log
    } else {
        log.skip(log.len() - 20)
    }
}

/// The message of a refused registration.
pub open spec fn duplicate_message(name: Seq<char>) -> Seq<char> {
    "webhook '"@ + name + "' already registered"@
}

/// The webhooks with `hooks[i]` removed.
pub open spec fn without(hooks: Seq<WebhookConfig>, i: int) -> Seq<WebhookConfig> {
    hooks.take(i) + hooks.skip(i + 1)
}

// ─── Registry ────────────────────────────────────

impl WebhookModule {
    /// An empty registry.
    pub fn new() -> (r: Self)
        ensures
            r.hooks_seq() == Seq::<WebhookConfig>::empty(),
            r.log_seq() == Seq::<(String, u64, bool)>::empty(),
            r.wf(),
    {
        WebhookModule { hooks: Vec::new(), event_log: Vec::new() }
    }

    fn find(&self, name: &str) -> (r: Option<usize>)
        ensures
            match r {
                Some(k) => name_index(self.hooks@, name@) == Some(k as int),
                None => name_index(self.hooks@, name@) is None,
            },
    {
        let mut i: usize = 0;
        while i < self.hooks.len()
            invariant
                i <= self.hooks.len(),
                name_index(self.hooks@, name@) == name_index_from(self.hooks@, name@, i as int),
            decreases self.hooks.len() - i,
        {
            if str_eq(self.hooks[i].name.as_str(), name) {
                return Some(i);
            }
            i += 1;
        }
        None
    }

    /// Adds a webhook; a name that is already taken is refused.
    pub fn register(&mut self, config: WebhookConfig) -> (r: Result<(), String>)
        ensures
            has_name(old(self).hooks_seq(), config.name@) ==> r is Err && r->Err_0@
                == duplicate_message(config.name@) && final(self).hooks_seq() == old(
                self,
            ).hooks_seq(),
            !has_name(old(self).hooks_seq(), config.name@) ==> r is Ok && final(self).hooks_seq()
                == old(self).hooks_seq().push(config),
            final(self).log_seq() == old(self).log_seq(),
            old(self).wf() ==> final(self).wf(),
    {
        let found = self.find(config.name.as_str());
        proof {
            lemma_name_index(self.hooks@, config.name@);
        }
        if found.is_some() {
            return Err(concat3("webhook '", config.name.as_str(), "' already registered"));
        }
        self.hooks.push(config);
        Ok(())
    }

    /// Removes the webhook named `name`; says whether there was one.
    pub fn unregister(&mut self, name: &str) -> (r: bool)
        requires
            old(self).wf(),
        ensures
            r == has_name(old(self).hooks_seq(), name@),
            match name_index(old(self).hooks_seq(), name@) {
                Some(i) => final(self).hooks_seq() == without(old(self).hooks_seq(), i),
                None => final(self).hooks_seq() == old(self).hooks_seq(),
            },
            final(self).log_seq() == old(self).log_seq(),
            final(self).wf(),
    {
        let found = self.find(name);
        proof {
            lemma_name_index(self.hooks@, name@);
        }
        match found {
            Some(i) => {
                let ghost before = self.hooks@;
                let _removed = self.hooks.remove(i);
                assert(self.hooks@ =~= without(before, i as int));
                assert forall|a: int, b: int| 0 <= a < b < self.hooks@.len() implies #[trigger] self.hooks@[a].name@
                    != #[trigger] self.hooks@[b].name@ by {
                    let a0 = if a < i { a } else { a + 1 };
                    let b0 = if b < i { b } else { b + 1 };
                    assert(self.hooks@[a] == before[a0]);
                    assert(self.hooks@[b] == before[b0]);
                }
                true
            },
            None => false,
        }
    }

    /// All webhooks, in registration order.
    pub fn list(&self) -> (r: &[WebhookConfig])
        ensures
            r@ == self.hooks_seq(),
    {
        self.hooks.as_slice()
    }

    /// The webhook named `name`.
    pub fn get(&self, name: &str) -> (r: Option<&WebhookConfig>)
        ensures
            match r {
                Some(h) => exists|i: int|
                    name_index(self.hooks_seq(), name@) == Some(i) && *h == self.hooks_seq()[i],
                None => name_index(self.hooks_seq(), name@) is None,
            },
    {
        let found = self.find(name);
        proof {
            lemma_name_index(self.hooks@, name@);
        }
        match found {
            Some(i) => Some(&self.hooks[i]),
            None => None,
        }
    }

    /// The most recent 20 entries of the event log, oldest first.
    pub fn event_log(&self) -> (r: &[(String, u64, bool)])
        ensures
            r@ == recent_log(self.log_seq()),
    {
        let len = self.event_log.len();
        if len <= 20 {
            self.event_log.as_slice()
        } else {
            let (_, tail) = self.event_log.as_slice().split_at(len - 20);
            tail
        }
    }
}

/// A webhook that [`WebhookModule::register`] accepted is what a lookup of
/// its name finds afterwards.
pub proof fn law_registered_is_found(hooks: Seq<WebhookConfig>, c: WebhookConfig)
    requires
        !has_name(hooks, c.name@),
    ensures
        name_index(hooks.push(c), c.name@) == Some(hooks.len() as int),
        names_distinct(hooks) ==> names_distinct(hooks.push(c)),
{
    let h2 = hooks.push(c);
    lemma_name_index(h2, c.name@);
    match name_index(h2, c.name@) {
        Some(k) => {
            if k < hooks.len() {
                assert(hooks[k].name@ == c.name@);
            }
        },
        None => {
            assert(h2[hooks.len() as int].name@ == c.name@);
        },
    }
}

/// After [`WebhookModule::unregister`] removed the webhook named `name`, no
/// webhook has that name, and every other name is still there.
pub proof fn law_unregistered_is_gone(hooks: Seq<WebhookConfig>, name: Seq<char>, other: Seq<char>)
    requires
        names_distinct(hooks),
        name_index(hooks, name) is Some,
        other != name,
    ensures
        !has_name(without(hooks, name_index(hooks, name)->0), name),
        has_name(without(hooks, name_index(hooks, name)->0), other) == has_name(hooks, other),
{
    lemma_name_index(hooks, name);
    let i = name_index(hooks, name)->0;
    let w = without(hooks, i);
    assert(w.len() == hooks.len() - 1);
    assert forall|j: int| 0 <= j < w.len() implies #[trigger] w[j] == hooks[if j < i { j } else { j + 1 }] by {}
    if has_name(w, name) {
        let j = choose|j: int| 0 <= j < w.len() && #[trigger] w[j].name@ == name;
        assert(w[j] == hooks[if j < i { j } else { j + 1 }]);
    }
    if has_name(hooks, other) {
        let j = choose|j: int| 0 <= j < hooks.len() && #[trigger] hooks[j].name@ == other;
        assert(j != i);
        let jj = if j < i { j } else { j - 1 };
        assert(w[jj] == hooks[j]);
    }
    if has_name(w, other) {
        let j = choose|j: int| 0 <= j < w.len() && #[trigger] w[j].name@ == other;
        assert(w[j] == hooks[if j < i { j } else { j + 1 }]);
    }
}

// ─── Conditions ──────────────────────────────────

/// The value at a dotted path of nested objects.
pub open spec fn resolve_path(payload: JsonValue, path: Seq<char>) -> Option<JsonValue> {
    json_path(payload, split_on(path, '.'))
}

/// Whether one condition holds of a payload: the field's text (of a string,
/// integer or boolean; empty for other values) compared by the operator.
pub open spec fn rule_holds(rule: ConditionRule, payload: JsonValue) -> bool {
    match resolve_path(payload, rule.field@) {
        Some(v) => {
            let t = scalar_text(v);
            if rule.operator@ == "eq"@ {
                t == rule.value@
            } else if rule.operator@ == "contains"@ {
                spec_contains(t, rule.value@)
            } else if rule.operator@ == "prefix"@ {
                spec_starts_with(t, rule.value@)
            } else {
                false
            }
        },
        None => false,
    }
}

/// Whether every condition holds (so an empty list always holds).
pub open spec fn conditions_hold(rules: Seq<ConditionRule>, payload: JsonValue) -> bool {
    forall|i: int| 0 <= i < rules.len() ==> #[trigger] rule_holds(rules[i], payload)
}

/// A condition compares the text at its field: `eq` holds when that text
/// is the value, `prefix` when the text begins with the value, `contains`
/// when the value occurs in it; a missing field or another operator never
/// holds.
pub proof fn law_rule_operators(rule: ConditionRule, payload: JsonValue)
    ensures
        resolve_path(payload, rule.field@) is None ==> !rule_holds(rule, payload),
        resolve_path(payload, rule.field@) matches Some(v) ==> {
            let t = scalar_text(v);
            &&& rule.operator@ == "eq"@ ==> (rule_holds(rule, payload) <==> t == rule.value@)
            &&& rule.operator@ == "prefix"@ ==> (rule_holds(rule, payload) <==> rule.value@.len() <= t.len()
                && t.take(rule.value@.len() as int) == rule.value@)
            &&& rule.operator@ == "contains"@ ==> (rule_holds(rule, payload) <==> exists|i: int|
                0 <= i && i + rule.value@.len() <= t.len() && #[trigger] t.subrange(i, i + rule.value@.len())
                    == rule.value@)
            &&& rule.operator@ != "eq"@ && rule.operator@ != "prefix"@ && rule.operator@ != "contains"@
                ==> !rule_holds(rule, payload)
        },
{
    reveal_strlit("eq");
    reveal_strlit("prefix");
    reveal_strlit("contains");
    assert("eq"@ != "contains"@ && "eq"@ != "prefix"@ && "contains"@ != "prefix"@) by {
        assert("eq"@.len() != "contains"@.len());
        assert("eq"@.len() != "prefix"@.len());
        assert("contains"@.len() != "prefix"@.len());
    }
    if let Some(v) = resolve_path(payload, rule.field@) {
        let t = scalar_text(v);
        let p = rule.value@;
        crate::text::lemma_find_from(t, p, 0);
        if exists|i: int| 0 <= i && i + p.len() <= t.len() && #[trigger] t.subrange(i, i + p.len()) == p {
            let i = choose|i: int| 0 <= i && i + p.len() <= t.len() && #[trigger] t.subrange(i, i + p.len()) == p;
            assert(crate::text::matches_at(t, p, i));
        }
    }
}

/// A single failing condition, at any position of the list, fails the
/// whole list.
pub proof fn law_failing_rule_fails_all(rules: Seq<ConditionRule>, payload: JsonValue, i: int)
    requires
        0 <= i < rules.len(),
        !rule_holds(rules[i], payload),
    ensures
        !conditions_hold(rules, payload),
{
}

/// A list of conditions holds exactly when each of its two parts holds,
/// an empty list always holds, and a list of one rule holds exactly when
/// that rule does.
pub proof fn law_conditions_compose(r1: Seq<ConditionRule>, r2: Seq<ConditionRule>, payload: JsonValue, one: ConditionRule)
    ensures
        conditions_hold(r1 + r2, payload) == (conditions_hold(r1, payload) && conditions_hold(r2, payload)),
        conditions_hold(Seq::empty(), payload),
        conditions_hold(seq![one], payload) == rule_holds(one, payload),
{
    if conditions_hold(r1, payload) && conditions_hold(r2, payload) {
        assert forall|i: int| 0 <= i < (r1 + r2).len() implies #[trigger] rule_holds((r1 + r2)[i], payload) by {
            if i < r1.len() {
                assert((r1 + r2)[i] == r1[i]);
            } else {
                assert((r1 + r2)[i] == r2[i - r1.len()]);
            }
        }
    }
    if conditions_hold(r1 + r2, payload) {
        assert forall|i: int| 0 <= i < r1.len() implies #[trigger] rule_holds(r1[i], payload) by {
            assert((r1 + r2)[i] == r1[i]);
        }
        assert forall|i: int| 0 <= i < r2.len() implies #[trigger] rule_holds(r2[i], payload) by {
            assert((r1 + r2)[i + r1.len()] == r2[i]);
        }
    }
    if rule_holds(one, payload) {
        assert forall|i: int| 0 <= i < seq![one].len() implies #[trigger] rule_holds(seq![one][i], payload) by {
            assert(seq![one][i] == one);
        }
    } else {
        assert(seq![one][0] == one);
    }
}

/// The value at a dotted path of the payload.
pub fn resolve_json_path<'a>(value: &'a JsonValue, path: &str) -> (r: Option<&'a JsonValue>)
    ensures
        match r {
            Some(v) => resolve_path(*value, path@) == Some(*v),
            None => resolve_path(*value, path@) is None,
        },
{
    let pc = to_chars(path);
    let parts = split_chars(pc.as_slice(), '.');
    let ghost ps = pieces_view(parts@);
    let mut current = value;
    let mut k: usize = 0;
    assert(ps.skip(0) == ps);
    while k < parts.len()
        invariant
            k <= parts.len(),
            ps == pieces_view(parts@),
            ps == split_on(path@, '.'),
            json_path(*value, ps) == json_path(*current, ps.skip(k as int)),
        decreases parts.len() - k,
    {
        let key = from_chars(parts[k].as_slice());
        assert(ps.skip(k as int)[0] == parts@[k as int]@);
        assert(ps.skip(k as int).skip(1) == ps.skip(k + 1));
        match current.get(key.as_str()) {
            Some(c) => {
                current = c;
            },
            None => {
                return None;
            },
        }
        k += 1;
    }
    assert(ps.skip(k as int) =~= Seq::<Seq<char>>::empty());
    Some(current)
}

fn rule_check(rule: &ConditionRule, payload: &JsonValue) -> (r: bool)
    ensures
        r == rule_holds(*rule, *payload),
{
    match resolve_json_path(payload, rule.field.as_str()) {
        Some(v) => {
            let t = v.scalar_string();
            let op = rule.operator.as_str();
            if str_eq(op, "eq") {
                str_eq(t.as_str(), rule.value.as_str())
            } else if str_eq(op, "contains") {
                str_contains(t.as_str(), rule.value.as_str())
            } else if str_eq(op, "prefix") {
                str_starts_with(t.as_str(), rule.value.as_str())
            } else {
                false
            }
        },
        None => false,
    }
}

/// Whether the payload meets all the conditions.
pub fn check_conditions(conditions: &[ConditionRule], payload: &JsonValue) -> (r: bool)
    ensures
        r == conditions_hold(conditions@, *payload),
{
    let mut i: usize = 0;
    while i < conditions.len()
        invariant
            i <= conditions.len(),
            forall|j: int| 0 <= j < i ==> #[trigger] rule_holds(conditions@[j], *payload),
        decreases conditions.len() - i,
    {
        if !rule_check(&conditions[i], payload) {
            return false;
        }
        i += 1;
    }
    true
}

// ─── Actions ─────────────────────────────────────

/// `"key": "value"` as `{:?}` renders a map entry of strings.
pub open spec fn debug_entry(p: (String, String)) -> Seq<char> {
    debug_str(p.0@) + ": "@ + debug_str(p.1@)
}

/// The entries of a string map as `{:?}` renders them, comma-separated.
pub open spec fn debug_entries(args: Seq<(String, String)>) -> Seq<char>
    decreases args.len(),
{
    if args.len() == 0 {
        Seq::empty()
    } else if args.len() == 1 {
        debug_entry(args[0])
    } else {
        debug_entries(args.drop_last()) + ", "@ + debug_entry(args.last())
    }
}

/// A string map as `{:?}` renders it.
pub open spec fn debug_map(args: Seq<(String, String)>) -> Seq<char> {
    "{"@ + debug_entries(args) + "}"@
}

/// Renders tool arguments as `{:?}` renders a map.
pub fn debug_map_string(args: &[(String, String)]) -> (r: String)
    ensures
        r@ == debug_map(args@),
{
    let mut out = String::new();
    append_str(&mut out, "{");
    let mut i: usize = 0;
    while i < args.len()
        invariant
            i <= args.len(),
            out@ == "{"@ + debug_entries(args@.take(i as int)),
        decreases args.len() - i,
    {
        let ghost before = out@;
        if i > 0 {
            append_str(&mut out, ", ");
        }
        let k = debug_quote(args[i].0.as_str());
        append_str(&mut out, k.as_str());
        append_str(&mut out, ": ");
        let v = debug_quote(args[i].1.as_str());
        append_str(&mut out, v.as_str());
        assert(args@.take(i + 1).drop_last() == args@.take(i as int));
        assert(args@.take(i + 1).last() == args@[i as int]);
        if i == 0 {
            assert(args@.take(0) =~= Seq::<(String, String)>::empty());
            assert(out@ =~= "{"@ + debug_entries(args@.take(i + 1)));
        } else {
            assert(out@ =~= "{"@ + debug_entries(args@.take(i + 1)));
        }
        i += 1;
    }
    assert(args@.take(args.len() as int) == args@);
    append_str(&mut out, "}");
    out
}

/// The prompt template with `{{event}}` replaced by the payload text, then
/// `{{source}}` by the event's source.
pub open spec fn filled_prompt(template: Seq<char>, event: WebhookEvent) -> Seq<char> {
    replace_all_spec(
        replace_all_spec(template, "{{event}}"@, event.payload_text@),
        "{{source}}"@,
        event.source@,
    )
}

/// The report of a triggered action, or `None` where the prompt's first 100
/// bytes end inside a character (slicing there panics).
pub open spec fn action_text(action: WebhookAction, event: WebhookEvent) -> Option<Seq<char>> {
    match action {
        WebhookAction::Log { message } => Some("[logged] "@ + message@),
        WebhookAction::Tool { tool, args } => Some(
            "[triggered] tool '"@ + tool@ + "' with "@ + debug_map(args@),
        ),
        WebhookAction::LlmPrompt { prompt_template } => match cut_bytes(
            filled_prompt(prompt_template@, event),
            100,
        ) {
            Some(c) => Some("[scheduled] prompt: "@ + c),
            None => None,
        },
    }
}

fn action_report(action: &WebhookAction, event: &WebhookEvent) -> (r: Option<String>)
    ensures
        match r {
            Some(s) => action_text(*action, *event) == Some(s@),
            None => action_text(*action, *event) is None,
        },
{
    match action {
        WebhookAction::Log { message } => Some(concat2("[logged] ", message.as_str())),
        WebhookAction::Tool { tool, args } => {
            let mut out = concat3("[triggered] tool '", tool.as_str(), "' with ");
            let m = debug_map_string(args.as_slice());
            append_str(&mut out, m.as_str());
            Some(out)
        },
        WebhookAction::LlmPrompt { prompt_template } => {
            proof {
                reveal_strlit("{{event}}");
                reveal_strlit("{{source}}");
            }
            let t = to_chars(prompt_template.as_str());
            let p1 = to_chars("{{event}}");
            let v1 = to_chars(event.payload_text.as_str());
            let step = replace_all(t.as_slice(), p1.as_slice(), v1.as_slice());
            let p2 = to_chars("{{source}}");
            let v2 = to_chars(event.source.as_str());
            let filled = replace_all(step.as_slice(), p2.as_slice(), v2.as_slice());
            match cut_bytes_exec(filled.as_slice(), 100) {
                Some(c) => {
                    let mut out = String::new();
                    append_str(&mut out, "[scheduled] prompt: ");
                    push_chars(&mut out, c.as_slice());
                    Some(out)
                },
                None => None,
            }
        },
    }
}

// ─── Receiving events ────────────────────────────

/// The error for an event of an unknown webhook.
pub open spec fn not_found_message(name: Seq<char>) -> Seq<char> {
    "webhook '"@ + name + "' not found"@
}

/// The error for an event from another source than the webhook's.
pub open spec fn mismatch_message(expected: Seq<char>, got: Seq<char>) -> Seq<char> {
    "source mismatch: expected '"@ + expected + "', got '"@ + got + "'"@
}

/// The webhook after it triggers at `now`.
pub open spec fn fired(h: WebhookConfig, now: u64) -> WebhookConfig {
    WebhookConfig { last_triggered: Some(now), trigger_count: (h.trigger_count + 1) as u64, ..h }
}

/// Whether receiving `event` panics: its webhook triggers but the trigger
/// count cannot grow, or the prompt cannot be cut at 100 bytes.
pub open spec fn receive_panics(hooks: Seq<WebhookConfig>, event: WebhookEvent) -> bool {
    match name_index(hooks, event.name@) {
        Some(i) => hooks[i].source@ == event.source@ && conditions_hold(
            hooks[i].conditions@,
            event.payload,
        ) && (hooks[i].trigger_count == u64::MAX || action_text(hooks[i].action, event) is None),
        None => false,
    }
}

/// What receiving `event` at `now` makes of the webhooks and the log, and
/// what it answers.
pub open spec fn receive_outcome(
    hooks: Seq<WebhookConfig>,
    log: Seq<(String, u64, bool)>,
    event: WebhookEvent,
    now: u64,
) -> (Seq<WebhookConfig>, Seq<(String, u64, bool)>, Result<Seq<char>, Seq<char>>) {
    match name_index(hooks, event.name@) {
        None => (hooks, log, Err(not_found_message(event.name@))),
        Some(i) => if hooks[i].source@ != event.source@ {
            (hooks, log, Err(mismatch_message(hooks[i].source@, event.source@)))
        } else if !conditions_hold(hooks[i].conditions@, event.payload) {
            (hooks, log.push((event.name, now, false)), Ok("conditions not met, skipped"@))
        } else {
            (
                hooks.update(i, fired(hooks[i], now)),
                log.push((event.name, now, true)),
                Ok(
                    match action_text(hooks[i].action, event) {
                        Some(t) => t,
                        None => Seq::empty(),
                    },
                ),
            )
        },
    }
}

/// An event whose webhook has a failing condition, at any position of its
/// list, is skipped: the webhooks are unchanged, the event is logged as not
/// run, and the answer says the conditions were not met.
pub proof fn law_failing_condition_skips(
    hooks: Seq<WebhookConfig>,
    log: Seq<(String, u64, bool)>,
    event: WebhookEvent,
    now: u64,
    i: int,
    j: int,
)
    requires
        name_index(hooks, event.name@) == Some(i),
        hooks[i].source@ == event.source@,
        0 <= j < hooks[i].conditions@.len(),
        !rule_holds(hooks[i].conditions@[j], event.payload),
    ensures
        receive_outcome(hooks, log, event, now).0 == hooks,
        receive_outcome(hooks, log, event, now).1 == log.push((event.name, now, false)),
        receive_outcome(hooks, log, event, now).2 == Ok::<Seq<char>, Seq<char>>("conditions not met, skipped"@),
{
    law_failing_rule_fails_all(hooks[i].conditions@, event.payload, j);
}

/// The text view of a `Result<String, String>`.
pub open spec fn text_result(r: Result<String, String>) -> Result<Seq<char>, Seq<char>> {
    match r {
        Ok(s) => Ok(s@),
        Err(e) => Err(e@),
    }
}

impl WebhookModule {
    /// Handles an event received at `now`: finds its webhook, checks the
    /// source and the conditions, logs the event and, when it triggers,
    /// updates the webhook and reports its action.
    pub fn receive_at(&mut self, event: WebhookEvent, now: u64) -> (r: Result<String, String>)
        requires
            !receive_panics(old(self).hooks_seq(), event),
        ensures
            (final(self).hooks_seq(), final(self).log_seq(), text_result(r)) == receive_outcome(
                old(self).hooks_seq(),
                old(self).log_seq(),
                event,
                now,
            ),
            old(self).wf() ==> final(self).wf(),
    {
        let found = self.find(event.name.as_str());
        proof {
            lemma_name_index(self.hooks@, event.name@);
        }
        let idx = match found {
            Some(i) => i,
            None => {
                return Err(concat3("webhook '", event.name.as_str(), "' not found"));
            },
        };
        if !str_eq(self.hooks[idx].source.as_str(), event.source.as_str()) {
            let mut m = concat3(
                "source mismatch: expected '",
                self.hooks[idx].source.as_str(),
                "', got '",
            );
            append_str(&mut m, event.source.as_str());
            append_str(&mut m, "'");
            return Err(m);
        }
        if !check_conditions(self.hooks[idx].conditions.as_slice(), &event.payload) {
            self.event_log.push((event.name, now, false));
            return Ok("conditions not met, skipped".to_string());
        }
        let report = action_report(&self.hooks[idx].action, &event);
        let text = match report {
            Some(t) => t,
            None => String::new(),
        };
        let ghost before = self.hooks@;
        let count = self.hooks[idx].trigger_count + 1;
        self.hooks[idx].last_triggered = Some(now);
        self.hooks[idx].trigger_count = count;
        assert(self.hooks@ =~= before.update(idx as int, fired(before[idx as int], now)));
        proof {
            if names_distinct(before) {
                assert forall|a: int, b: int| 0 <= a < b < self.hooks@.len() implies #[trigger] self.hooks@[a].name@
                    != #[trigger] self.hooks@[b].name@ by {
                    assert(self.hooks@[a].name == before[a].name);
                    assert(self.hooks@[b].name == before[b].name);
                    assert(before[a].name@ != before[b].name@);
                }
            }
        }
        self.event_log.push((event.name, now, true));
        Ok(text)
    }

    /// Handles an event at the current time (see [`WebhookModule::receive_at`]).
    pub fn receive(&mut self, event: WebhookEvent) -> (r: Result<String, String>)
        requires
            !receive_panics(old(self).hooks_seq(), event),
        ensures
            exists|now: u64|
                (final(self).hooks_seq(), final(self).log_seq(), text_result(r)) == receive_outcome(
                    old(self).hooks_seq(),
                    old(self).log_seq(),
                    event,
                    now,
                ),
            old(self).wf() ==> final(self).wf(),
    {
        let now = now_secs();
        self.receive_at(event, now)
    }

    /// Whether receiving `event` now would panic (see [`receive_panics`]).
    pub fn receive_would_panic(&self, event: &WebhookEvent) -> (r: bool)
        ensures
            r == receive_panics(self.hooks_seq(), *event),
    {
        let found = self.find(event.name.as_str());
        proof {
            lemma_name_index(self.hooks@, event.name@);
        }
        match found {
            None => false,
            Some(i) => {
                let h = &self.hooks[i];
                if !str_eq(h.source.as_str(), event.source.as_str()) {
                    return false;
                }
                if !check_conditions(h.conditions.as_slice(), &event.payload) {
                    return false;
                }
                if h.trigger_count == u64::MAX {
                    return true;
                }
                action_report(&h.action, event).is_none()
            },
        }
    }
}

// ─── Tool commands ───────────────────────────────

/// A short description of an action, as the webhook list shows it.
pub open spec fn action_summary_text(action: WebhookAction) -> Seq<char> {
    match action {
        WebhookAction::Log { .. } => "记录日志"@,
        WebhookAction::Tool { tool, .. } => "调用工具 '"@ + tool@ + "'"@,
        WebhookAction::LlmPrompt { .. } => "LLM 处理"@,
    }
}

/// A short description of an action.
pub fn action_summary(action: &WebhookAction) -> (r: String)
    ensures
        r@ == action_summary_text(*action),
{
    match action {
        WebhookAction::Log { .. } => "记录日志".to_string(),
        WebhookAction::Tool { tool, .. } => concat3("调用工具 '", tool.as_str(), "'"),
        WebhookAction::LlmPrompt { .. } => "LLM 处理".to_string(),
    }
}

/// When a webhook last triggered, as the list shows it.
pub open spec fn last_text(t: Option<u64>) -> Seq<char> {
    match t {
        Some(t) => "上次触发: "@ + dec(t as nat),
        None => "从未触发"@,
    }
}

/// One line of the webhook list.
pub open spec fn list_line(h: WebhookConfig) -> Seq<char> {
    "  ["@ + h.source@ + "] "@ + h.name@ + " — "@ + action_summary_text(h.action) + " ("@ + dec(
        h.trigger_count as nat,
    ) + " 次, "@ + last_text(h.last_triggered) + ")"@
}

/// The list lines joined by newlines.
pub open spec fn list_lines(hooks: Seq<WebhookConfig>) -> Seq<char>
    decreases hooks.len(),
{
    if hooks.len() == 0 {
        Seq::empty()
    } else if hooks.len() == 1 {
        list_line(hooks[0])
    } else {
        list_lines(hooks.drop_last()) + "\n"@ + list_line(hooks.last())
    }
}

/// The answer of `list_webhooks`.
pub open spec fn list_text(hooks: Seq<WebhookConfig>) -> Seq<char> {
    if hooks.len() == 0 {
        "还没有注册任何 webhook 呢~"@
    } else {
        "已注册的 webhook ("@ + dec(hooks.len()) + "):\n"@ + list_lines(hooks)
    }
}

fn list_line_string(h: &WebhookConfig) -> (r: String)
    ensures
        r@ == list_line(*h),
{
    let mut out = concat3("  [", h.source.as_str(), "] ");
    append_str(&mut out, h.name.as_str());
    append_str(&mut out, " — ");
    let summary = action_summary(&h.action);
    append_str(&mut out, summary.as_str());
    append_str(&mut out, " (");
    let count = u64_to_string(h.trigger_count);
    append_str(&mut out, count.as_str());
    append_str(&mut out, " 次, ");
    match h.last_triggered {
        Some(t) => {
            append_str(&mut out, "上次触发: ");
            let ts = u64_to_string(t);
            append_str(&mut out, ts.as_str());
        },
        None => {
            append_str(&mut out, "从未触发");
        },
    }
    append_str(&mut out, ")");
    assert(out@ =~= list_line(*h));
    out
}

/// Parameters of `register_webhook` that a request reads.
pub open spec fn request_name(m: Seq<(String, JsonValue)>) -> Seq<char> {
    or_text(str_member(m, "name"@), Seq::empty())
}

/// Whether `c` is the webhook that a `register_webhook` request with
/// arguments `m` describes.
pub open spec fn config_from_request(c: WebhookConfig, m: Seq<(String, JsonValue)>) -> bool {
    let name = request_name(m);
    let action_type = or_text(str_member(m, "action_type"@), "log"@);
    &&& c.name@ == name
    &&& c.source@ == or_text(str_member(m, "source"@), "custom"@)
    &&& c.last_triggered is None
    &&& c.trigger_count == 0
    &&& if action_type == "tool"@ {
        c.action matches WebhookAction::Tool { tool, args } && tool@ == or_text(
            str_member(m, "tool_name"@),
            Seq::empty(),
        ) && args@.len() == 0
    } else if action_type == "llm_prompt"@ {
        c.action matches WebhookAction::LlmPrompt { prompt_template } && prompt_template@ == or_text(
            str_member(m, "prompt_template"@),
            "收到 {{source}} 事件"@,
        )
    } else {
        c.action matches WebhookAction::Log { message } && message@ == "webhook '"@ + name
            + "' triggered"@
    }
    &&& match (str_member(m, "condition_field"@), str_member(m, "condition_value"@)) {
        (Some(f), Some(v)) => c.conditions@.len() == 1 && c.conditions@[0].field@ == f
            && c.conditions@[0].value@ == v && c.conditions@[0].operator@ == "eq"@,
        _ => c.conditions@.len() == 0,
    }
}

fn or_str<'a>(o: Option<&'a str>, d: &'a str) -> (r: &'a str)
    ensures
        r@ == or_text(
            match o {
                Some(t) => Some(t@),
                None => None,
            },
            d@,
        ),
{
    match o {
        Some(t) => t,
        None => d,
    }
}

impl WebhookModule {
    /// Runs one of the module's tools, `register_webhook`, `list_webhooks`
    /// or `delete_webhook`, on its arguments' JSON text: `delete_webhook`
    /// reads an object of strings, `register_webhook` an object of any
    /// values.
    pub fn execute_tool(&mut self, name: &str, args: &str) -> (r: Result<String, ModuleError>)
        requires
            old(self).wf(),
        ensures
            final(self).wf(),
            name@ == "register_webhook"@ ==> register_command_outcome(
                *old(self),
                *final(self),
                parsed_tool_args(args@),
                r,
            ),
            name@ == "list_webhooks"@ ==> ok_with(r, list_text(old(self).hooks_seq())) && *final(self)
                == *old(self),
            name@ == "delete_webhook"@ ==> delete_command_outcome(
                *old(self),
                *final(self),
                parsed_string_args(args@),
                r,
            ),
            name@ != "register_webhook"@ && name@ != "list_webhooks"@ && name@ != "delete_webhook"@
                ==> (r matches Err(ModuleError::ToolNotFound(n)) && n@ == name@) && *final(self)
                == *old(self),
    {
        proof {
            reveal_strlit("delete_webhook");
            reveal_strlit("register_webhook");
            reveal_strlit("list_webhooks");
            assert("delete_webhook"@.len() != "register_webhook"@.len());
            assert("delete_webhook"@.len() != "list_webhooks"@.len());
        }
        if str_eq(name, "delete_webhook") {
            let parsed = parse_string_args(args);
            self.tool_call(name, &parsed)
        } else {
            let parsed = parse_tool_args(args);
            self.tool_call(name, &parsed)
        }
    }

    /// Runs one of the module's tools on arguments already parsed.
    pub fn tool_call(&mut self, name: &str, args: &ToolArgs) -> (r: Result<String, ModuleError>)
        requires
            old(self).wf(),
        ensures
            final(self).wf(),
            name@ == "register_webhook"@ ==> register_command_outcome(*old(self), *final(self), args_view(*args), r),
            name@ == "list_webhooks"@ ==> ok_with(r, list_text(old(self).hooks_seq())) && *final(self)
                == *old(self),
            name@ == "delete_webhook"@ ==> delete_command_outcome(*old(self), *final(self), args_view(*args), r),
            name@ != "register_webhook"@ && name@ != "list_webhooks"@ && name@ != "delete_webhook"@
                ==> (r matches Err(ModuleError::ToolNotFound(n)) && n@ == name@) && *final(self)
                == *old(self),
    {
        proof {
            reveal_strlit("register_webhook");
            reveal_strlit("list_webhooks");
            reveal_strlit("delete_webhook");
            assert("list_webhooks"@.len() != "register_webhook"@.len());
            assert("delete_webhook"@.len() != "register_webhook"@.len());
            assert("delete_webhook"@.len() != "list_webhooks"@.len());
        }
        if str_eq(name, "register_webhook") {
            self.cmd_register(args)
        } else if str_eq(name, "list_webhooks") {
            self.cmd_list()
        } else if str_eq(name, "delete_webhook") {
            self.cmd_delete(args)
        } else {
            Err(ModuleError::ToolNotFound(name.to_string()))
        }
    }

    fn cmd_register(&mut self, args: &ToolArgs) -> (r: Result<String, ModuleError>)
        requires
            old(self).wf(),
        ensures
            final(self).wf(),
            register_command_outcome(*old(self), *final(self), args_view(*args), r),
    {
        let m = match args {
            Err(e) => {
                return Err(ModuleError::ToolExecutionFailed(concat2("参数解析: ", e.as_str())));
            },
            Ok(m) => m,
        };
        proof {
            reveal_strlit("");
            assert(""@ =~= Seq::<char>::empty());
        }
        let name = or_str(get_str_member(m, "name"), "");
        let source = or_str(get_str_member(m, "source"), "custom");
        if name.is_empty() {
            return Err(ModuleError::ToolExecutionFailed("name 不能为空".to_string()));
        }
        let action_type = or_str(get_str_member(m, "action_type"), "log");
        let action = if str_eq(action_type, "tool") {
            let tool = or_str(get_str_member(m, "tool_name"), "");
            assert(""@ =~= Seq::<char>::empty());
            WebhookAction::Tool { tool: tool.to_string(), args: Vec::new() }
        } else if str_eq(action_type, "llm_prompt") {
            let t = or_str(get_str_member(m, "prompt_template"), "收到 {{source}} 事件");
            WebhookAction::LlmPrompt { prompt_template: t.to_string() }
        } else {
            WebhookAction::Log { message: concat3("webhook '", name, "' triggered") }
        };
        let mut conditions: Vec<ConditionRule> = Vec::new();
        match (get_str_member(m, "condition_field"), get_str_member(m, "condition_value")) {
            (Some(field), Some(value)) => {
                conditions.push(
                    ConditionRule {
                        field: field.to_string(),
                        value: value.to_string(),
                        operator: "eq".to_string(),
                    },
                );
            },
            _ => {},
        }
        let config = WebhookConfig {
            name: name.to_string(),
            source: source.to_string(),
            conditions,
            action,
            last_triggered: None,
            trigger_count: 0,
        };
        proof {
            reveal_strlit("tool");
            reveal_strlit("llm_prompt");
            let c = config;
            assert(c.name@ == request_name(m@));
            assert(c.source@ == or_text(str_member(m@, "source"@), "custom"@));
            assert(c.conditions@.len() <= 1);
        }
        assert(config_from_request(config, m@));
        let ghost c = config;
        let ghost before = self.hooks@;
        match self.register(config) {
            Err(e) => Err(ModuleError::ToolExecutionFailed(e)),
            Ok(()) => {
                assert(self.hooks@.drop_last() =~= before);
                assert(self.hooks@.last() == c);
                let mut out = concat3("webhook '", name, "' 已注册，POST /webhooks/");
                append_str(&mut out, name);
                append_str(&mut out, " 来触发它呢~");
                Ok(out)
            },
        }
    }

    fn cmd_list(&self) -> (r: Result<String, ModuleError>)
        ensures
            ok_with(r, list_text(self.hooks_seq())),
    {
        if self.hooks.len() == 0 {
            return Ok("还没有注册任何 webhook 呢~".to_string());
        }
        let mut lines = String::new();
        let mut i: usize = 0;
        while i < self.hooks.len()
            invariant
                i <= self.hooks.len(),
                lines@ == list_lines(self.hooks@.take(i as int)),
            decreases self.hooks.len() - i,
        {
            if i > 0 {
                append_str(&mut lines, "\n");
            }
            let line = list_line_string(&self.hooks[i]);
            append_str(&mut lines, line.as_str());
            assert(self.hooks@.take(i + 1).drop_last() == self.hooks@.take(i as int));
            assert(self.hooks@.take(i + 1).last() == self.hooks@[i as int]);
            if i == 0 {
                assert(self.hooks@.take(0) =~= Seq::<WebhookConfig>::empty());
            }
            assert(lines@ =~= list_lines(self.hooks@.take(i + 1)));
            i += 1;
        }
        assert(self.hooks@.take(self.hooks.len() as int) == self.hooks@);
        let mut out = String::new();
        append_str(&mut out, "已注册的 webhook (");
        let n = u64_to_string(self.hooks.len() as u64);
        append_str(&mut out, n.as_str());
        append_str(&mut out, "):\n");
        append_str(&mut out, lines.as_str());
        Ok(out)
    }

    fn cmd_delete(&mut self, args: &ToolArgs) -> (r: Result<String, ModuleError>)
        requires
            old(self).wf(),
        ensures
            final(self).wf(),
            delete_command_outcome(*old(self), *final(self), args_view(*args), r),
    {
        let m = match args {
            Err(e) => {
                return Err(ModuleError::ToolExecutionFailed(concat2("参数解析: ", e.as_str())));
            },
            Ok(m) => m,
        };
        proof {
            reveal_strlit("");
            assert(""@ =~= Seq::<char>::empty());
        }
        let name = or_str(get_str_member(m, "name"), "");
        proof {
            lemma_name_index(self.hooks@, name@);
        }
        if self.unregister(name) {
            Ok(concat3("webhook '", name, "' 已删除"))
        } else {
            Err(ModuleError::ToolExecutionFailed(concat3("webhook '", name, "' 未找到")))
        }
    }
}

/// What `register_webhook` does: a parse error or an empty name is refused;
/// otherwise the described webhook is registered as
/// [`WebhookModule::register`] does.
pub open spec fn register_command_outcome(
    before: WebhookModule,
    after: WebhookModule,
    args: Result<Seq<(String, JsonValue)>, Seq<char>>,
    r: Result<String, ModuleError>,
) -> bool {
    match args {
        Err(e) => failed_with(r, "参数解析: "@ + e) && after == before,
        Ok(m) => {
            let name = request_name(m);
            if name.len() == 0 {
                failed_with(r, "name 不能为空"@) && after == before
            } else if has_name(before.hooks_seq(), name) {
                failed_with(r, duplicate_message(name)) && after.hooks_seq() == before.hooks_seq()
                    && after.log_seq() == before.log_seq()
            } else {
                ok_with(r, "webhook '"@ + name + "' 已注册，POST /webhooks/"@ + name + " 来触发它呢~"@)
                    && after.log_seq() == before.log_seq() && after.hooks_seq().len()
                    == before.hooks_seq().len() + 1 && after.hooks_seq().drop_last()
                    == before.hooks_seq() && config_from_request(after.hooks_seq().last(), m)
            }
        },
    }
}

/// What `delete_webhook` does: a parse error is refused; otherwise the named
/// webhook is removed as [`WebhookModule::unregister`] does, and a missing
/// one is reported.
pub open spec fn delete_command_outcome(
    before: WebhookModule,
    after: WebhookModule,
    args: Result<Seq<(String, JsonValue)>, Seq<char>>,
    r: Result<String, ModuleError>,
) -> bool {
    match args {
        Err(e) => failed_with(r, "参数解析: "@ + e) && after == before,
        Ok(m) => {
            let name = or_text(str_member(m, "name"@), Seq::empty());
            after.log_seq() == before.log_seq() && match name_index(before.hooks_seq(), name) {
                Some(i) => ok_with(r, "webhook '"@ + name + "' 已删除"@) && after.hooks_seq()
                    == without(before.hooks_seq(), i),
                None => failed_with(r, "webhook '"@ + name + "' 未找到"@) && after.hooks_seq()
                    == before.hooks_seq(),
            }
        },
    }
}

// ─── Tool schemas ────────────────────────────────

/// The parameters of `register_webhook`.
pub open spec fn register_params() -> Seq<crate::schema::ParamSpec> {
    seq![
        crate::schema::plain_param("name"@, "string"@, "webhook 名称（唯一）"@),
        crate::schema::plain_param("source"@, "string"@, "来源（如 github、custom）"@),
        crate::schema::ParamSpec {
            name: "action_type"@,
            ty: "string"@,
            desc: "触发动作类型"@,
            choices: seq!["log"@, "tool"@, "llm_prompt"@],
        },
        crate::schema::plain_param("tool_name"@, "string"@, "action_type=tool 时，要调用的工具名"@),
        crate::schema::plain_param(
            "prompt_template"@,
            "string"@,
            "action_type=llm_prompt 时，提示模板（支持 {{event}} {{source}}）"@,
        ),
        crate::schema::plain_param("condition_field"@, "string"@, "条件字段路径，如 action"@),
        crate::schema::plain_param("condition_value"@, "string"@, "条件字段预期值"@),
    ]
}

fn register_webhook_tool() -> (r: crate::llm::ToolDefinition)
    ensures
        crate::schema::tool_of(
            r,
            "register_webhook"@,
            "注册一条 webhook——外部事件源触发时自动执行动作"@,
            register_params(),
            Some(seq!["name"@, "source"@, "action_type"@]),
        ),
{
    let mut choices: Vec<String> = Vec::new();
    choices.push("log".to_string());
    choices.push("tool".to_string());
    choices.push("llm_prompt".to_string());
    assert(crate::schema::texts(choices@) =~= seq!["log"@, "tool"@, "llm_prompt"@]);
    let mut props: Vec<(String, JsonValue)> = Vec::new();
    props.push(("name".to_string(), crate::schema::param("string", "webhook 名称（唯一）")));
    props.push(("source".to_string(), crate::schema::param("string", "来源（如 github、custom）")));
    props.push(("action_type".to_string(), crate::schema::choice_param("string", choices, "触发动作类型")));
    props.push(("tool_name".to_string(), crate::schema::param("string", "action_type=tool 时，要调用的工具名")));
    props.push((
        "prompt_template".to_string(),
        crate::schema::param("string", "action_type=llm_prompt 时，提示模板（支持 {{event}} {{source}}）"),
    ));
    props.push(("condition_field".to_string(), crate::schema::param("string", "条件字段路径，如 action")));
    props.push(("condition_value".to_string(), crate::schema::param("string", "条件字段预期值")));
    let ghost ps = props@;
    let mut req: Vec<String> = Vec::new();
    req.push("name".to_string());
    req.push("source".to_string());
    req.push("action_type".to_string());
    assert(crate::schema::texts(req@) =~= seq!["name"@, "source"@, "action_type"@]);
    let schema = crate::schema::object_schema(props, Some(req));
    assert forall|i: int| 0 <= i < register_params().len() implies #[trigger] ps[i].0@
        == register_params()[i].name && crate::schema::param_schema(
        ps[i].1,
        register_params()[i].ty,
        register_params()[i].desc,
        register_params()[i].choices,
    ) by {}
    crate::schema::function_tool("register_webhook", "注册一条 webhook——外部事件源触发时自动执行动作", schema)
}

impl WebhookModule {
    /// The module's tools: `register_webhook`, `list_webhooks` and
    /// `delete_webhook`.
    pub fn tool_definitions(&self) -> (r: Vec<crate::llm::ToolDefinition>)
        ensures
            r@.len() == 3,
            crate::schema::tool_of(
                r@[0],
                "register_webhook"@,
                "注册一条 webhook——外部事件源触发时自动执行动作"@,
                register_params(),
                Some(seq!["name"@, "source"@, "action_type"@]),
            ),
            crate::schema::tool_of(r@[1], "list_webhooks"@, "列出所有注册的 webhook"@, Seq::empty(), Some(Seq::empty())),
            crate::schema::tool_of(
                r@[2],
                "delete_webhook"@,
                "删除一条 webhook"@,
                seq![crate::schema::plain_param("name"@, "string"@, "要删除的 webhook 名称"@)],
                Some(seq!["name"@]),
            ),
    {
        let list = crate::schema::object_schema(Vec::new(), Some(Vec::new()));
        assert(crate::schema::texts(Seq::<String>::empty()) =~= Seq::<Seq<char>>::empty());
        let mut del_props: Vec<(String, JsonValue)> = Vec::new();
        del_props.push(("name".to_string(), crate::schema::param("string", "要删除的 webhook 名称")));
        let ghost dps = del_props@;
        let mut del_req: Vec<String> = Vec::new();
        del_req.push("name".to_string());
        assert(crate::schema::texts(del_req@) =~= seq!["name"@]);
        let del = crate::schema::object_schema(del_props, Some(del_req));
        assert(dps[0].0@ == "name"@);
        let mut v: Vec<crate::llm::ToolDefinition> = Vec::new();
        v.push(register_webhook_tool());
        v.push(crate::schema::function_tool("list_webhooks", "列出所有注册的 webhook", list));
        v.push(crate::schema::function_tool("delete_webhook", "删除一条 webhook", del));
        v
    }
}

} // verus!
