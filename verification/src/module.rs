//! Shared types of the module system: errors, capabilities, model routing and
//! the capability index that decides which modules may register.
use vstd::prelude::*;
use crate::text::{concat2, str_eq};

verus! {

/// A capability identifier such as `emotion.detect`.
pub type Capability = String;

/// Errors of module operations.
#[derive(Debug)]
pub enum ModuleError {
    InitFailed(String),
    EventFailed(String),
    ToolNotFound(String),
    ToolExecutionFailed(String),
    ShutdownFailed(String),
}

/// The display text of a module error.
pub open spec fn module_error_text(e: ModuleError) -> Seq<char> {
    match e {
        ModuleError::InitFailed(m) => "init failed: "@ + m@,
        ModuleError::EventFailed(m) => "event failed: "@ + m@,
        ModuleError::ToolNotFound(m) => "tool not found: "@ + m@,
        ModuleError::ToolExecutionFailed(m) => "tool execution failed: "@ + m@,
        ModuleError::ShutdownFailed(m) => "shutdown failed: "@ + m@,
    }
}

impl ModuleError {
    /// The display text of this error.
    pub fn message(&self) -> (r: String)
        ensures
            r@ == module_error_text(*self),
    {
        match self {
            ModuleError::InitFailed(m) => concat2("init failed: ", m.as_str()),
            ModuleError::EventFailed(m) => concat2("event failed: ", m.as_str()),
            ModuleError::ToolNotFound(m) => concat2("tool not found: ", m.as_str()),
            ModuleError::ToolExecutionFailed(m) => concat2("tool execution failed: ", m.as_str()),
            ModuleError::ShutdownFailed(m) => concat2("shutdown failed: ", m.as_str()),
        }
    }
}

/// A prompt segment contributed by a process module.
#[derive(Debug, Clone)]
pub struct PromptContribution {
    pub content: String,
}

/// The result of a tool call, as a process module reports it.
#[derive(Debug, Clone)]
pub struct ToolResultMessage {
    pub msg_type: String,
    pub output: Option<String>,
    pub error: Option<String>,
}

// ─── Model routing ───────────────────────────────

/// Routes task types to provider names.
#[derive(Debug, Clone)]
pub struct ModelRouter {
    routes: Vec<(String, String)>,
}

/// The route table as a map from task type to provider name.
pub open spec fn routes_map(routes: Seq<(String, String)>) -> Map<Seq<char>, Seq<char>>
    decreases routes.len(),
{
    if routes.len() == 0 {
        Map::empty()
    } else {
        routes_map(routes.drop_last()).insert(routes.last().0@, routes.last().1@)
    }
}

impl View for ModelRouter {
    type V = Map<Seq<char>, Seq<char>>;

    closed spec fn view(&self) -> Map<Seq<char>, Seq<char>> {
        routes_map(self.routes@)
    }
}

impl ModelRouter {
    /// An empty route table.
    pub fn new() -> (r: Self)
        ensures
            r@ == Map::<Seq<char>, Seq<char>>::empty(),
    {
        ModelRouter { routes: Vec::new() }
    }

    /// Routes `task` to `provider`, replacing an earlier route of `task`.
    pub fn register(&mut self, task: &str, provider: &str)
        ensures
            final(self)@ == old(self)@.insert(task@, provider@),
    {
        self.routes.push((task.to_string(), provider.to_string()));
        assert(self.routes@.drop_last() == old(self).routes@);
    }

    /// The provider that `task` is routed to.
    pub fn provider_name(&self, task: &str) -> (r: Option<&str>)
        ensures
            match r {
                Some(p) => self@.contains_key(task@) && self@[task@] == p@,
                None => !self@.contains_key(task@),
            },
    {
        let mut i = self.routes.len();
        assert(self.routes@.take(i as int) == self.routes@);
        while i > 0
            invariant
                i <= self.routes@.len(),
                forall|k: int| i <= k < self.routes@.len() ==> self.routes@[k].0@ != task@,
                routes_map(self.routes@).contains_key(task@) == routes_map(
                    self.routes@.take(i as int),
                ).contains_key(task@),
                routes_map(self.routes@).contains_key(task@) ==> routes_map(self.routes@)[task@]
                    == routes_map(self.routes@.take(i as int))[task@],
            decreases i,
        {
            assert(self.routes@.take(i as int).drop_last() == self.routes@.take(i - 1));
            assert(self.routes@.take(i as int).last() == self.routes@[i - 1]);
            if str_eq(self.routes[i - 1].0.as_str(), task) {
                return Some(self.routes[i - 1].1.as_str());
            }
            i -= 1;
        }
        assert(self.routes@.take(0) =~= Seq::<(String, String)>::empty());
        None
    }
}

/// `r` failed with `ToolExecutionFailed(msg)`.
pub open spec fn failed_with(r: Result<String, ModuleError>, msg: Seq<char>) -> bool {
    r matches Err(ModuleError::ToolExecutionFailed(m)) && m@ == msg
}

/// `r` succeeded with `msg`.
pub open spec fn ok_with(r: Result<String, ModuleError>, msg: Seq<char>) -> bool {
    r matches Ok(s) && s@ == msg
}

/// The arguments of a tool call as the caller parsed them: the members of
/// the JSON object, or the parser's message.
pub type ToolArgs = Result<Vec<(String, crate::json::JsonValue)>, String>;

/// The string member `key` of parsed tool arguments.
pub open spec fn str_member(m: Seq<(String, crate::json::JsonValue)>, key: Seq<char>) -> Option<
    Seq<char>,
> {
    match crate::json::obj_get(m, key) {
        Some(crate::json::JsonValue::Str(s)) => Some(s@),
        _ => None,
    }
}

/// `o`'s value, or `d` when there is none.
pub open spec fn or_text(o: Option<Seq<char>>, d: Seq<char>) -> Seq<char> {
    match o {
        Some(t) => t,
        None => d,
    }
}

/// The string member `key` of parsed tool arguments.
pub fn get_str_member<'a>(m: &'a Vec<(String, crate::json::JsonValue)>, key: &str) -> (r: Option<&'a str>)
    ensures
        match r {
            Some(t) => str_member(m@, key@) == Some(t@),
            None => str_member(m@, key@) is None,
        },
{
    match crate::json::object_get(m, key) {
        Some(v) => v.as_str(),
        None => None,
    }
}

// ─── Module admission ────────────────────────────

/// What a module declares of itself when it is registered.
#[derive(Debug)]
pub struct ModuleInfo {
    pub id: String,
    pub name: String,
    pub version: String,
    pub provides: Vec<Capability>,
    pub requires: Vec<Capability>,
    pub tools: Vec<crate::llm::ToolDefinition>,
}

/// How a module answered an event.
#[derive(Debug)]
pub enum EventResponse {
    /// Handled; nothing to report.
    Pass,
    /// Skip the rest of this turn.
    Skip,
    /// The module changed shared data, given as named JSON values.
    Modified { data: Vec<(String, crate::json::JsonValue)> },
}

/// The registry's index of modules: which module provides each capability,
/// and the modules in registration order. The modules themselves are kept by
/// the caller.
#[derive(Debug)]
pub struct ModuleIndex {
    capability_index: Vec<(String, String)>,
    order: Vec<String>,
}

/// The capabilities mapped to module `id`, one after another.
pub open spec fn provide_caps(
    caps: Map<Seq<char>, Seq<char>>,
    provides: Seq<String>,
    id: Seq<char>,
) -> Map<Seq<char>, Seq<char>>
    decreases provides.len(),
{
    if provides.len() == 0 {
        caps
    } else {
        provide_caps(caps, provides.drop_last(), id).insert(provides.last()@, id)
    }
}

/// The first required capability that no module provides.
pub open spec fn first_missing_cap(caps: Map<Seq<char>, Seq<char>>, reqs: Seq<String>) -> Option<Seq<char>>
    decreases reqs.len(),
{
    if reqs.len() == 0 {
        None
    } else if !caps.contains_key(reqs[0]@) {
        Some(reqs[0]@)
    } else {
        first_missing_cap(caps, reqs.skip(1))
    }
}

/// The first required module that is not registered.
pub open spec fn first_missing_module(order: Seq<Seq<char>>, deps: Seq<String>) -> Option<Seq<char>>
    decreases deps.len(),
{
    if deps.len() == 0 {
        None
    } else if !order.contains(deps[0]@) {
        Some(deps[0]@)
    } else {
        first_missing_module(order, deps.skip(1))
    }
}

/// The refusal of a module whose capability need is unmet.
pub open spec fn missing_cap_message(id: Seq<char>, cap: Seq<char>) -> Seq<char> {
    "module '"@ + id + "' requires capability '"@ + cap
        + "' which is not provided by any registered module"@
}

/// The refusal of a module whose module need is unmet.
pub open spec fn missing_module_text(id: Seq<char>, dep: Seq<char>) -> Seq<char> {
    "module '"@ + id + "' requires module '"@ + dep
        + "' which is not registered. Please add the '"@ + dep + "' module to your module list."@
}

impl ModuleIndex {
    /// Each capability's module.
    pub closed spec fn caps(&self) -> Map<Seq<char>, Seq<char>> {
        crate::kv::kv_map(self.capability_index@).map_values(|v: String| v@)
    }

    /// The registered module ids, in registration order.
    pub closed spec fn registered(&self) -> Seq<Seq<char>> {
        self.order@.map_values(|v: String| v@)
    }

    /// The index's invariant: each capability is listed once.
    pub closed spec fn wf(&self) -> bool {
        crate::kv::keys_distinct(self.capability_index@)
    }

    /// An empty index.
    pub fn new() -> (r: Self)
        ensures
            r.wf(),
            r.caps() == Map::<Seq<char>, Seq<char>>::empty(),
            r.registered() == Seq::<Seq<char>>::empty(),
    {
        let r = ModuleIndex { capability_index: Vec::new(), order: Vec::new() };
        assert(r.caps() =~= Map::<Seq<char>, Seq<char>>::empty());
        assert(r.registered() =~= Seq::<Seq<char>>::empty());
        r
    }

    /// The registered module ids, in registration order.
    pub fn ids(&self) -> (r: Vec<String>)
        ensures
            r@.map_values(|v: String| v@) == self.registered(),
    {
        let r = self.order.clone();
        assert(r@.map_values(|v: String| v@) =~= self.registered());
        r
    }

    /// Whether some registered module provides `cap`.
    pub fn has_capability(&self, cap: &str) -> (r: bool)
        requires
            self.wf(),
        ensures
            r == self.caps().contains_key(cap@),
    {
        proof {
            crate::kv::lemma_kv_map(self.capability_index@);
        }
        crate::kv::kv_find(&self.capability_index, cap).is_some()
    }

    fn has_module(&self, id: &str) -> (r: bool)
        ensures
            r == self.registered().contains(id@),
    {
        let mut i: usize = 0;
        while i < self.order.len()
            invariant
                i <= self.order@.len(),
                forall|k: int| 0 <= k < i ==> #[trigger] self.order@[k]@ != id@,
            decreases self.order@.len() - i,
        {
            if crate::text::str_eq(self.order[i].as_str(), id) {
                assert(self.registered()[i as int] == id@);
                return true;
            }
            i += 1;
        }
        proof {
            if self.registered().contains(id@) {
                let k = choose|k: int| 0 <= k < self.registered().len() && self.registered()[k] == id@;
                assert(self.order@[k]@ == id@);
            }
        }
        false
    }

    /// Registers module `id`: refused while a capability it requires has no
    /// provider or a module it requires is not registered (the first such
    /// need is reported); otherwise its capabilities now map to it and it is
    /// registered last.
    pub fn accept(
        &mut self,
        id: &str,
        provides: &Vec<String>,
        needed_caps: &Vec<String>,
        needed_modules: &Vec<String>,
    ) -> (r: Result<(), ModuleError>)
        requires
            old(self).wf(),
        ensures
            final(self).wf(),
            first_missing_cap(old(self).caps(), needed_caps@) is Some ==> (r matches Err(
                ModuleError::InitFailed(m),
            ) && m@ == missing_cap_message(id@, first_missing_cap(old(self).caps(), needed_caps@)->0))
                && final(self).caps() == old(self).caps() && final(self).registered() == old(
                self,
            ).registered(),
            (first_missing_cap(old(self).caps(), needed_caps@) is None && first_missing_module(
                old(self).registered(),
                needed_modules@,
            ) is Some) ==> (r matches Err(ModuleError::InitFailed(m)) && m@ == missing_module_text(
                id@,
                first_missing_module(old(self).registered(), needed_modules@)->0,
            )) && final(self).caps() == old(self).caps() && final(self).registered() == old(
                self,
            ).registered(),
            first_missing_cap(old(self).caps(), needed_caps@) is None && first_missing_module(
                old(self).registered(),
                needed_modules@,
            ) is None ==> r is Ok && final(self).caps() == provide_caps(
                old(self).caps(),
                provides@,
                id@,
            ) && final(self).registered() == old(self).registered().push(id@),
    {
        let ghost caps0 = self.caps();
        proof {
            crate::kv::lemma_kv_map(self.capability_index@);
        }
        let mut i: usize = 0;
        assert(needed_caps@.skip(0) == needed_caps@);
        while i < needed_caps.len()
            invariant
                i <= needed_caps@.len(),
                caps0 == self.caps(),
                caps0 == old(self).caps(),
                self.capability_index@ == old(self).capability_index@,
                self.order@ == old(self).order@,
                crate::kv::keys_distinct(self.capability_index@),
                first_missing_cap(caps0, needed_caps@) == first_missing_cap(caps0, needed_caps@.skip(i as int)),
                forall|k: Seq<char>| #[trigger] crate::kv::kv_map(self.capability_index@).contains_key(k)
                    <==> exists|j: int| 0 <= j < self.capability_index@.len() && self.capability_index@[j].0@ == k,
            decreases needed_caps@.len() - i,
        {
            assert(needed_caps@.skip(i as int)[0] == needed_caps@[i as int]);
            assert(needed_caps@.skip(i as int).skip(1) == needed_caps@.skip(i + 1));
            if crate::kv::kv_find(&self.capability_index, needed_caps[i].as_str()).is_none() {
                assert(!caps0.contains_key(needed_caps@[i as int]@));
                let mut m = crate::text::concat3("module '", id, "' requires capability '");
                crate::text::append_str(&mut m, needed_caps[i].as_str());
                crate::text::append_str(&mut m, "' which is not provided by any registered module");
                return Err(ModuleError::InitFailed(m));
            }
            i += 1;
        }
        assert(needed_caps@.skip(i as int) =~= Seq::<String>::empty());
        let mut j: usize = 0;
        assert(needed_modules@.skip(0) == needed_modules@);
        while j < needed_modules.len()
            invariant
                j <= needed_modules@.len(),
                self.capability_index@ == old(self).capability_index@,
                self.order@ == old(self).order@,
                caps0 == old(self).caps(),
                first_missing_cap(caps0, needed_caps@) is None,
                crate::kv::keys_distinct(self.capability_index@),
                first_missing_module(self.registered(), needed_modules@) == first_missing_module(
                    self.registered(),
                    needed_modules@.skip(j as int),
                ),
            decreases needed_modules@.len() - j,
        {
            assert(needed_modules@.skip(j as int)[0] == needed_modules@[j as int]);
            assert(needed_modules@.skip(j as int).skip(1) == needed_modules@.skip(j + 1));
            if !self.has_module(needed_modules[j].as_str()) {
                let dep = needed_modules[j].as_str();
                let mut m = crate::text::concat3("module '", id, "' requires module '");
                crate::text::append_str(&mut m, dep);
                crate::text::append_str(&mut m, "' which is not registered. Please add the '");
                crate::text::append_str(&mut m, dep);
                crate::text::append_str(&mut m, "' module to your module list.");
                return Err(ModuleError::InitFailed(m));
            }
            j += 1;
        }
        let mut k: usize = 0;
        while k < provides.len()
            invariant
                k <= provides@.len(),
                crate::kv::keys_distinct(self.capability_index@),
                self.caps() == provide_caps(caps0, provides@.take(k as int), id@),
                self.order@ == old(self).order@,
            decreases provides@.len() - k,
        {
            assert(provides@.take(k + 1).drop_last() == provides@.take(k as int));
            assert(provides@.take(k + 1).last() == provides@[k as int]);
            let ghost before = self.capability_index@;
            proof {
                crate::kv::lemma_kv_map(before);
            }
            let idv = id.to_string();
            let ghost vid = idv;
            match crate::kv::kv_find(&self.capability_index, provides[k].as_str()) {
                Some(p) => {
                    self.capability_index[p].1 = idv;
                    proof {
                        assert(self.capability_index@ =~= before.update(p as int, (before[p as int].0, vid)));
                        crate::kv::lemma_kv_update(before, p as int, vid);
                    }
                },
                None => {
                    let key = provides[k].clone();
                    let ghost kk = key;
                    self.capability_index.push((key, idv));
                    proof {
                        crate::kv::lemma_kv_push(before, kk, vid);
                    }
                },
            }
            assert(self.caps() =~= crate::kv::kv_map(before).map_values(|v: String| v@).insert(
                provides@[k as int]@,
                id@,
            ));
            k += 1;
        }
        assert(provides@.take(provides@.len() as int) == provides@);
        let ghost o0 = self.registered();
        self.order.push(id.to_string());
        assert(self.registered() =~= o0.push(id@));
        Ok(())
    }
}

/// After a module is registered, each capability it provides maps to it, and
/// other capabilities keep their modules.
pub proof fn law_registered_capabilities(
    caps: Map<Seq<char>, Seq<char>>,
    provides: Seq<String>,
    id: Seq<char>,
    other: Seq<char>,
)
    requires
        forall|k: int| 0 <= k < provides.len() ==> #[trigger] provides[k]@ != other,
    ensures
        forall|k: int|
            0 <= k < provides.len() ==> provide_caps(caps, provides, id).contains_key(
                #[trigger] provides[k]@,
            ) && provide_caps(caps, provides, id)[provides[k]@] == id,
        provide_caps(caps, provides, id).contains_key(other) == caps.contains_key(other),
        caps.contains_key(other) ==> provide_caps(caps, provides, id)[other] == caps[other],
    decreases provides.len(),
{
    if provides.len() > 0 {
        law_registered_capabilities(caps, provides.drop_last(), id, other);
        assert forall|k: int| 0 <= k < provides.len() implies provide_caps(caps, provides, id).contains_key(
            #[trigger] provides[k]@,
        ) && provide_caps(caps, provides, id)[provides[k]@] == id by {
            if k < provides.len() - 1 {
                assert(provides.drop_last()[k] == provides[k]);
            }
        }
    }
}

} // verus!
