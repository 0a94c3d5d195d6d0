//! The module registry: the engine's modules, kept in registration order,
//! with their capability index.
//!
//! Events reach the modules in the order they were registered, shutdown
//! runs in the reverse order, and prompt segments and tools are collected
//! in registration order.
use vstd::prelude::*;
use crate::kv::{keys_distinct, kv_find, kv_map, lemma_kv_map, lemma_kv_push, lemma_kv_update};
use crate::llm::ToolDefinition;
use crate::module::{
    first_missing_cap, first_missing_module, missing_cap_message, missing_module_text, provide_caps, Capability,
    EventResponse, ModelRouter, ModuleError, ModuleIndex, ModuleInfo,
};
use crate::protocol::{ModuleHealth, ModuleStatus};
use crate::text::concat3;

verus! {

/// A lifecycle event broadcast to every module.
#[derive(Debug)]
pub enum Event {
    /// The engine started.
    Startup,
    /// The engine is shutting down.
    Shutdown,
    /// A user's message arrived, before the model is called.
    OnMessage { input: String, channel: String },
    /// The system prompt is being built.
    BuildPrompt,
    /// A tool was called.
    OnToolCall { name: String, args: String, success: bool },
    /// The model replied.
    OnResponse { response: String },
    /// A module finished registering.
    ModuleRegistered { info: ModuleInfo },
    /// Memory should be cleaned.
    Decontaminate,
}

/// What a module is told along with an event: the session it concerns,
/// empty for the default session.
#[derive(Debug, Clone)]
pub struct EventContext {
    pub session_id: String,
}

impl EventContext {
    /// A context for the default session.
    pub fn new() -> (r: Self)
        ensures
            r.session_id@.len() == 0,
    {
        EventContext { session_id: String::new() }
    }

    /// A context for the session `session_id`.
    pub fn with_session(session_id: String) -> (r: Self)
        ensures
            r.session_id == session_id,
    {
        EventContext { session_id }
    }
}

/// A module of the engine: emotion, memory, attention, channels, plugins.
///
/// Each method's answer is named by a spec function, which an
/// implementation states for itself; the spec functions' default bodies
/// describe a module that offers and does nothing, and stand only for an
/// implementation that Verus does not read. A module with nothing to do
/// answers `init`, `shutdown` and `on_event` with success, and has no
/// prompt segment, status or tools.
pub trait Module {
    /// The id that `id` returns.
    open spec fn id_spec(&self) -> Seq<char> {
        Seq::empty()
    }

    /// The name that `name` returns.
    open spec fn name_spec(&self) -> Seq<char> {
        Seq::empty()
    }

    /// The version that `version` returns.
    open spec fn version_spec(&self) -> Seq<char> {
        Seq::empty()
    }

    /// The capabilities that `provides` returns.
    open spec fn provides_spec(&self) -> Seq<Capability> {
        Seq::empty()
    }

    /// The capabilities that `required_capabilities` returns.
    open spec fn needs_spec(&self) -> Seq<Capability> {
        Seq::empty()
    }

    /// The modules that `required_modules` returns.
    open spec fn modules_spec(&self) -> Seq<String> {
        Seq::empty()
    }

    /// What `init` answers in this state.
    open spec fn init_spec(&self, ctx: EventContext) -> Result<(), ModuleError> {
        Ok(())
    }

    /// What `shutdown` answers in this state.
    open spec fn shutdown_spec(&self) -> Result<(), ModuleError> {
        Ok(())
    }

    /// The segment that `prompt_segment` returns.
    open spec fn segment_spec(&self) -> Option<Seq<char>> {
        None
    }

    /// The status that `display_status` returns.
    open spec fn status_spec(&self) -> Option<Seq<char>> {
        None
    }

    /// The tools that `tool_definitions` returns.
    open spec fn tools_spec(&self) -> Seq<ToolDefinition> {
        Seq::empty()
    }

    /// What `execute_tool` answers in this state for tool `name` with
    /// arguments `args`.
    open spec fn tool_spec(&self, name: Seq<char>, args: Seq<char>) -> Result<String, ModuleError> {
        vstd::pervasive::arbitrary()
    }

    /// What `on_event` answers in this state.
    open spec fn event_spec(&self, event: Event, ctx: EventContext) -> Result<EventResponse, ModuleError> {
        Ok(EventResponse::Pass)
    }

    /// What holds of the module once it has handled `event`.
    open spec fn handled(&self, event: Event, ctx: EventContext) -> bool {
        true
    }

    /// The module's unique id, such as `emotion`.
    fn id(&self) -> (r: &str)
        ensures
            r@ == self.id_spec(),
    ;

    /// A readable name.
    fn name(&self) -> (r: &str)
        ensures
            r@ == self.name_spec(),
    ;

    /// A semantic version.
    fn version(&self) -> (r: &str)
        ensures
            r@ == self.version_spec(),
    ;

    /// The capabilities the module provides.
    fn provides(&self) -> (r: Vec<Capability>)
        ensures
            r@ == self.provides_spec(),
    ;

    /// The capabilities the module needs from modules registered before it.
    fn required_capabilities(&self) -> (r: Vec<Capability>)
        ensures
            r@ == self.needs_spec(),
    ;

    /// The modules that must be registered before this one; a module that
    /// needs none returns an empty list.
    fn required_modules(&self) -> (r: Vec<String>)
        ensures
            r@ == self.modules_spec(),
    ;

    /// Prepares the module; a module with nothing to prepare answers `Ok`.
    fn init(&mut self, ctx: &EventContext) -> (r: Result<(), ModuleError>)
        ensures
            r == old(self).init_spec(*ctx),
    ;

    /// Releases the module; a module with nothing to release answers `Ok`.
    fn shutdown(&mut self) -> (r: Result<(), ModuleError>)
        ensures
            r == old(self).shutdown_spec(),
    ;

    /// Text to add to the system prompt, if any.
    fn prompt_segment(&self) -> (r: Option<String>)
        ensures
            crate::llm::opt_text(r) == self.segment_spec(),
    ;

    /// A short text for the status bar, if any.
    fn display_status(&self) -> (r: Option<String>)
        ensures
            crate::llm::opt_text(r) == self.status_spec(),
    ;

    /// The tools the module offers, if any.
    fn tool_definitions(&self) -> (r: Vec<ToolDefinition>)
        ensures
            r@ == self.tools_spec(),
    ;

    /// Runs one of the module's tools; a module without tools answers
    /// `ToolNotFound`.
    fn execute_tool(&mut self, name: &str, args: &str) -> (r: Result<String, ModuleError>)
        ensures
            r == old(self).tool_spec(name@, args@),
    ;

    /// Takes an engine event; a module with nothing to do answers `Pass`.
    fn on_event(&mut self, event: &Event, ctx: &EventContext) -> (r: Result<EventResponse, ModuleError>)
        ensures
            r == old(self).event_spec(*event, *ctx),
            final(self).handled(*event, *ctx),
    ;

    /// The module's health: running, with its capabilities as services and
    /// its needs as dependencies.
    fn health(&self) -> (r: ModuleHealth)
        default_ensures
            r.id@ == self.id_spec() && r.name@ == self.name_spec() && r.version@ == self.version_spec(),
            r.status == ModuleStatus::Running,
            r.message_count == 0 && r.error_count == 0 && r.uptime_secs == 0,
            r.services@ == self.provides_spec() && r.dependencies@ == self.needs_spec(),
            r.last_error is None,
            r.details@.len() == 0,
    {
        ModuleHealth {
            id: self.id().to_string(),
            name: self.name().to_string(),
            version: self.version().to_string(),
            status: ModuleStatus::Running,
            message_count: 0,
            error_count: 0,
            uptime_secs: 0,
            services: self.provides(),
            dependencies: self.required_capabilities(),
            last_error: None,
            details: Vec::new(),
        }
    }
}

/// One call of a module: `before` holds a module under `id`, `a` is what
/// `answer` names for it, and `after` differs from `before` only in that
/// module, which then satisfies `post`.
pub open spec fn one_call<M: ?Sized, R>(
    before: Map<Seq<char>, Box<M>>,
    after: Map<Seq<char>, Box<M>>,
    id: Seq<char>,
    a: R,
    answer: spec_fn(Box<M>) -> R,
    post: spec_fn(Box<M>) -> bool,
) -> bool {
    &&& before.contains_key(id)
    &&& a == answer(before[id])
    &&& after.contains_key(id)
    &&& post(after[id])
    &&& after == before.insert(id, after[id])
}

/// One call of each module under `ids`, in order: call `k` goes from
/// `states[k]` to `states[k + 1]` and is answered `answers[k]`.
pub open spec fn calls_in_order<M: ?Sized, R>(
    ids: Seq<Seq<char>>,
    states: Seq<Map<Seq<char>, Box<M>>>,
    answers: Seq<R>,
    answer: spec_fn(Box<M>) -> R,
    post: spec_fn(Box<M>) -> bool,
) -> bool {
    &&& states.len() == ids.len() + 1
    &&& answers.len() == ids.len()
    &&& forall|k: int| 0 <= k < ids.len() ==> one_call(states[k], states[k + 1], ids[k], #[trigger] answers[k], answer, post)
}

/// After calls of each module under `ids` in order, every one of them
/// satisfies `post`, and the modules under other ids are unchanged.
pub proof fn lemma_calls_post<M: ?Sized, R>(
    ids: Seq<Seq<char>>,
    states: Seq<Map<Seq<char>, Box<M>>>,
    answers: Seq<R>,
    answer: spec_fn(Box<M>) -> R,
    post: spec_fn(Box<M>) -> bool,
)
    requires
        calls_in_order(ids, states, answers, answer, post),
    ensures
        states.last().dom() == states[0].dom(),
        forall|k: int| 0 <= k < ids.len() ==> post(states.last()[#[trigger] ids[k]]),
        forall|id: Seq<char>| #[trigger] states[0].contains_key(id) && !ids.contains(id) ==> states.last()[id]
            == states[0][id],
    decreases ids.len(),
{
    if ids.len() > 0 {
        let n = ids.len() - 1;
        let a2 = answers.drop_last();
        assert forall|k: int| 0 <= k < ids.drop_last().len() implies one_call(
            states.drop_last()[k],
            states.drop_last()[k + 1],
            ids.drop_last()[k],
            #[trigger] a2[k],
            answer,
            post,
        ) by {
            assert(answers[k] == a2[k]);
        }
        lemma_calls_post(ids.drop_last(), states.drop_last(), a2, answer, post);
        assert(one_call(states[n], states[n + 1], ids[n], answers[n], answer, post));
        assert(states.drop_last().last() == states[n]);
        assert forall|k: int| 0 <= k < ids.len() implies post(states.last()[#[trigger] ids[k]]) by {
            if k < n && ids[k] != ids[n] {
                assert(ids.drop_last()[k] == ids[k]);
            }
        }
        assert forall|id: Seq<char>| #[trigger] states[0].contains_key(id) && !ids.contains(id) implies states.last()[id]
            == states[0][id] by {
            if !ids.drop_last().contains(id) {
                assert(id != ids[n]);
            } else {
                let k = choose|k: int| 0 <= k < ids.drop_last().len() && ids.drop_last()[k] == id;
                assert(ids[k] == id);
            }
        }
    }
}

/// The texts of a list of string pairs.
pub open spec fn pair_texts(v: Seq<(String, String)>) -> Seq<(Seq<char>, Seq<char>)> {
    v.map_values(|p: (String, String)| (p.0@, p.1@))
}

/// A list of id and tool pairs, with each id as text.
pub open spec fn pair_ids(v: Seq<(String, ToolDefinition)>) -> Seq<(Seq<char>, ToolDefinition)> {
    v.map_values(|p: (String, ToolDefinition)| (p.0@, p.1))
}

/// Each of `tools` paired with `id`.
pub open spec fn with_id(id: Seq<char>, tools: Seq<ToolDefinition>) -> Seq<(Seq<char>, ToolDefinition)> {
    tools.map_values(|t: ToolDefinition| (id, t))
}

/// The prompt segments of the modules under `ids`, in order, each with
/// its id; modules without one are left out.
pub open spec fn segments_in<M: Module + ?Sized>(mods: Map<Seq<char>, Box<M>>, ids: Seq<Seq<char>>) -> Seq<
    (Seq<char>, Seq<char>),
>
    decreases ids.len(),
{
    if ids.len() == 0 {
        Seq::empty()
    } else {
        let prev = segments_in(mods, ids.drop_last());
        match mods[ids.last()].segment_spec() {
            Some(t) => prev.push((ids.last(), t)),
            None => prev,
        }
    }
}

/// The tools of the modules under `ids`, in order, each with its
/// module's id.
pub open spec fn tools_in<M: Module + ?Sized>(mods: Map<Seq<char>, Box<M>>, ids: Seq<Seq<char>>) -> Seq<
    (Seq<char>, ToolDefinition),
>
    decreases ids.len(),
{
    if ids.len() == 0 {
        Seq::empty()
    } else {
        tools_in(mods, ids.drop_last()) + with_id(ids.last(), mods[ids.last()].tools_spec())
    }
}

/// Every module under `ids` has handled `event`.
pub open spec fn handled_by_all<M: Module + ?Sized>(
    mods: Map<Seq<char>, Box<M>>,
    ids: Seq<Seq<char>>,
    event: Event,
    ctx: EventContext,
) -> bool {
    forall|k: int| 0 <= k < ids.len() ==> mods[#[trigger] ids[k]].handled(event, ctx)
}

/// The event that announces a registration.
pub open spec fn registered_event(info: ModuleInfo) -> Event {
    Event::ModuleRegistered { info }
}

/// `info` describes module `m`: its id, name, version, capabilities,
/// needs and tools.
pub open spec fn info_of<M: Module + ?Sized>(info: ModuleInfo, m: Box<M>) -> bool {
    &&& info.id@ == m.id_spec()
    &&& info.name@ == m.name_spec()
    &&& info.version@ == m.version_spec()
    &&& info.provides@ == m.provides_spec()
    &&& info.requires@ == m.needs_spec()
    &&& info.tools@ == m.tools_spec()
}

/// `s` in reverse order.
pub open spec fn reversed<A>(s: Seq<A>) -> Seq<A> {
    Seq::new(s.len(), |i: int| s[s.len() - 1 - i])
}

/// The answers of a list of `(id, answer)` pairs.
pub open spec fn answers_of<R>(v: Seq<(String, R)>) -> Seq<R> {
    v.map_values(|p: (String, R)| p.1)
}

/// A module's answer to `event`.
pub open spec fn event_answer<M: Module + ?Sized>(event: Event, ctx: EventContext) -> spec_fn(Box<M>) -> Result<
    EventResponse,
    ModuleError,
> {
    |m: Box<M>| m.event_spec(event, ctx)
}

/// A module has handled `event`.
pub open spec fn event_post<M: Module + ?Sized>(event: Event, ctx: EventContext) -> spec_fn(Box<M>) -> bool {
    |m: Box<M>| m.handled(event, ctx)
}

/// Calls of the modules under the first `answers.len()` ids, in order.
pub open spec fn calls_prefix<M: ?Sized, R>(
    ids: Seq<Seq<char>>,
    states: Seq<Map<Seq<char>, Box<M>>>,
    answers: Seq<R>,
    answer: spec_fn(Box<M>) -> R,
    post: spec_fn(Box<M>) -> bool,
) -> bool {
    answers.len() <= ids.len() && calls_in_order(ids.take(answers.len() as int), states, answers, answer, post)
}

/// A module's answer to `init`.
pub open spec fn init_answer<M: Module + ?Sized>(ctx: EventContext) -> spec_fn(Box<M>) -> Result<(), ModuleError> {
    |m: Box<M>| m.init_spec(ctx)
}

/// A module's answer to `shutdown`.
pub open spec fn shutdown_answer<M: Module + ?Sized>() -> spec_fn(Box<M>) -> Result<(), ModuleError> {
    |m: Box<M>| m.shutdown_spec()
}

/// Nothing is claimed of a module after the call.
pub open spec fn no_post<M: ?Sized>() -> spec_fn(Box<M>) -> bool {
    |m: Box<M>| true
}

/// Initialisation stopped at the first failure: every answer but the last
/// is `Ok`, and the answers stop early only at a failure.
pub open spec fn stops_at_failure(answers: Seq<Result<(), ModuleError>>, n: nat) -> bool {
    &&& forall|k: int| 0 <= k < answers.len() - 1 ==> #[trigger] answers[k] is Ok
    &&& answers.len() == n || (answers.len() > 0 && answers.last() is Err)
}

/// The outcome of initialisation: the failing answer, if any.
pub open spec fn first_failure(answers: Seq<Result<(), ModuleError>>) -> Result<(), ModuleError> {
    if answers.len() > 0 && answers.last() is Err {
        answers.last()
    } else {
        Ok(())
    }
}

/// One more call extends a run of calls.
pub proof fn lemma_extend_calls<M: ?Sized, R>(
    ids: Seq<Seq<char>>,
    states: Seq<Map<Seq<char>, Box<M>>>,
    answers: Seq<R>,
    answer: spec_fn(Box<M>) -> R,
    post: spec_fn(Box<M>) -> bool,
    id: Seq<char>,
    a: R,
    next: Map<Seq<char>, Box<M>>,
)
    requires
        calls_in_order(ids, states, answers, answer, post),
        one_call(states.last(), next, id, a, answer, post),
    ensures
        calls_in_order(ids.push(id), states.push(next), answers.push(a), answer, post),
{
    let s2 = states.push(next);
    let a2 = answers.push(a);
    assert forall|k: int| 0 <= k < ids.push(id).len() implies one_call(
        s2[k],
        s2[k + 1],
        ids.push(id)[k],
        #[trigger] a2[k],
        answer,
        post,
    ) by {
        if k < ids.len() {
            assert(a2[k] == answers[k]);
            assert(one_call(states[k], states[k + 1], ids[k], answers[k], answer, post));
        }
    }
}

/// Calling the module at position `p` of a list with distinct ids changes
/// the map only under that module's id.
proof fn lemma_module_step<M: ?Sized>(mods0: Seq<(String, Box<M>)>, mods1: Seq<(String, Box<M>)>, p: int)
    requires
        keys_distinct(mods0),
        0 <= p < mods0.len(),
        mods1.len() == mods0.len(),
        forall|k: int| 0 <= k < mods0.len() && k != p ==> #[trigger] mods1[k] == mods0[k],
        mods1[p].0 == mods0[p].0,
    ensures
        kv_map(mods0).contains_key(mods0[p].0@),
        kv_map(mods0)[mods0[p].0@] == mods0[p].1,
        kv_map(mods1) == kv_map(mods0).insert(mods0[p].0@, mods1[p].1),
        keys_distinct(mods1),
{
    lemma_kv_map(mods0);
    assert(mods1 =~= mods0.update(p, (mods0[p].0, mods1[p].1)));
    lemma_kv_update(mods0, p, mods1[p].1);
}

/// The engine's modules in registration order, with the capability index
/// and the task-to-provider routes.
pub struct ModuleRegistry<M: Module + ?Sized> {
    index: ModuleIndex,
    modules: Vec<(String, Box<M>)>,
    router: ModelRouter,
}

impl<M: Module + ?Sized> ModuleRegistry<M> {
    /// The registered module ids, in registration order.
    pub closed spec fn registered(&self) -> Seq<Seq<char>> {
        self.index.registered()
    }

    /// Each capability's module.
    pub closed spec fn caps(&self) -> Map<Seq<char>, Seq<char>> {
        self.index.caps()
    }

    /// The ids that have a module.
    pub closed spec fn module_ids(&self) -> Set<Seq<char>> {
        kv_map(self.modules@).dom()
    }

    /// The modules by id.
    pub closed spec fn module_map(&self) -> Map<Seq<char>, Box<M>> {
        kv_map(self.modules@)
    }

    /// The registry's invariant: each id has one module, and the registered
    /// ids are exactly those with a module.
    #[verifier::type_invariant]
    spec fn inv(&self) -> bool {
        parts_ok(self.index, self.modules@)
    }

    /// Takes the registry's parts, leaving an empty registry.
    fn take_parts(&mut self) -> (r: (ModuleIndex, Vec<(String, Box<M>)>, ModelRouter))
        ensures
            parts_ok(r.0, r.1@),
            r.0 == old(self).index,
            r.1@ == old(self).modules@,
            r.2 == old(self).router,
    {
        proof {
            use_type_invariant(&*self);
        }
        let mut tmp = ModuleRegistry::new();
        std::mem::swap(&mut tmp, self);
        proof {
            use_type_invariant(&tmp);
        }
        let ModuleRegistry { index, modules, router } = tmp;
        (index, modules, router)
    }

    /// An empty registry.
    pub fn new() -> (r: Self)
        ensures
            r.registered() == Seq::<Seq<char>>::empty(),
            r.caps() == Map::<Seq<char>, Seq<char>>::empty(),
    {
        let r = ModuleRegistry { index: ModuleIndex::new(), modules: Vec::new(), router: ModelRouter::new() };
        proof {
            lemma_kv_map(r.modules@);
        }
        r
    }

    fn find(&self, id: &str) -> (r: Option<usize>)
        ensures
            match r {
                Some(p) => p < self.modules@.len() && self.modules@[p as int].0@ == id@
                    && self.registered().contains(id@),
                None => !self.registered().contains(id@),
            },
    {
        proof {
            use_type_invariant(&*self);
        }
        find_in(&self.index, &self.modules, id)
    }

    /// Registers a module: refused, with nothing changed, while a capability
    /// or module it needs is missing (see [`ModuleIndex::accept`]);
    /// otherwise it is registered last, its capabilities map to it, and
    /// every module, itself included, is told that it registered.
    pub fn register(&mut self, module: Box<M>) -> (r: Result<(), ModuleError>)
        ensures
            first_missing_cap(old(self).caps(), module.needs_spec()) is Some ==> (r matches Err(
                ModuleError::InitFailed(m),
            ) && m@ == missing_cap_message(
                module.id_spec(),
                first_missing_cap(old(self).caps(), module.needs_spec())->0,
            )),
            first_missing_cap(old(self).caps(), module.needs_spec()) is None && first_missing_module(
                old(self).registered(),
                module.modules_spec(),
            ) is Some ==> (r matches Err(ModuleError::InitFailed(m)) && m@ == missing_module_text(
                module.id_spec(),
                first_missing_module(old(self).registered(), module.modules_spec())->0,
            )),
            r is Err ==> final(self).registered() == old(self).registered() && final(self).caps()
                == old(self).caps() && final(self).module_map() == old(self).module_map(),
            first_missing_cap(old(self).caps(), module.needs_spec()) is None && first_missing_module(
                old(self).registered(),
                module.modules_spec(),
            ) is None ==> r is Ok && final(self).caps() == provide_caps(
                old(self).caps(),
                module.provides_spec(),
                module.id_spec(),
            ) && final(self).registered() == old(self).registered().push(module.id_spec())
                && final(self).module_ids() == old(self).module_ids().insert(module.id_spec()),
            r is Ok ==> exists|
                info: ModuleInfo,
                ctx: EventContext,
                states: Seq<Map<Seq<char>, Box<M>>>,
                answers: Seq<Result<EventResponse, ModuleError>>,
            |
                #[trigger] calls_in_order(
                    final(self).registered(),
                    states,
                    answers,
                    event_answer::<M>(registered_event(info), ctx),
                    event_post::<M>(registered_event(info), ctx),
                ) && info_of(info, module) && ctx.session_id@.len() == 0 && states[0] == old(
                    self,
                ).module_map().insert(module.id_spec(), module) && states.last() == final(self).module_map()
                    && handled_by_all(final(self).module_map(), final(self).registered(), registered_event(info), ctx),
    {
        let ghost module_view = module;
        let id = module.id().to_string();
        let name = module.name().to_string();
        let version = module.version().to_string();
        let provides = module.provides();
        let needs = module.required_capabilities();
        let tools = module.tool_definitions();
        let required = module.required_modules();
        let (mut index, mut modules, router) = self.take_parts();
        let ghost before = index.registered();
        match index.accept(id.as_str(), &provides, &needs, &required) {
            Err(e) => {
                *self = ModuleRegistry { index, modules, router };
                assert(self.registered() == old(self).registered());
                assert(self.module_ids() == old(self).module_ids());
                return Err(e);
            },
            Ok(()) => {},
        }
        let ghost mods0 = modules@;
        proof {
            lemma_kv_map(mods0);
        }
        match kv_find(&modules, id.as_str()) {
            Some(p) => {
                let key = modules[p].0.clone();
                modules.set(p, (key, module));
                proof {
                    let v = modules@[p as int].1;
                    assert(modules@ =~= mods0.update(p as int, (mods0[p as int].0, v)));
                    lemma_kv_update(mods0, p as int, v);
                }
            },
            None => {
                let key = id.clone();
                let ghost k = key;
                modules.push((key, module));
                proof {
                    let v = modules@.last().1;
                    assert(modules@ == mods0.push((k, v)));
                    lemma_kv_push(mods0, k, v);
                }
            },
        }
        assert(kv_map(modules@).dom() =~= kv_map(mods0).dom().insert(id@));
        assert(index.registered() == before.push(id@));
        assert forall|k: Seq<char>| #[trigger] kv_map(modules@).dom().contains(k) <==> index.registered().contains(k) by {
            lemma_push_contains(before, id@, k);
            assert(old(self).module_ids() == kv_map(mods0).dom());
            assert(old(self).registered() == before);
            assert(old(self).module_ids().contains(k) <==> old(self).registered().contains(k));
        }
        *self = ModuleRegistry { index, modules, router };
        assert(self.module_ids().contains(id@));
        assert(self.module_map() == old(self).module_map().insert(id@, module_view));
        let info = ModuleInfo { id: id.clone(), name, version, provides, requires: needs, tools };
        let ghost ginfo = info;
        assert(info_of(ginfo, module_view));
        let ctx = EventContext::new();
        let event = Event::ModuleRegistered { info };
        assert(event == registered_event(ginfo));
        let ghost before_map = self.module_map();
        let ghost regs = self.registered();
        let answers = self.broadcast(&event, &ctx);
        proof {
            let states = choose|states: Seq<Map<Seq<char>, Box<M>>>|
                #[trigger] calls_in_order(
                    regs,
                    states,
                    answers_of(answers@),
                    event_answer::<M>(event, ctx),
                    event_post::<M>(event, ctx),
                ) && states[0] == before_map && states.last() == self.module_map();
            lemma_calls_post(regs, states, answers_of(answers@), event_answer::<M>(event, ctx), event_post::<M>(event, ctx));
            assert forall|k: int| 0 <= k < regs.len() implies self.module_map()[#[trigger] regs[k]].handled(
                registered_event(ginfo),
                ctx,
            ) by {
                assert(event_post::<M>(event, ctx)(states.last()[regs[k]]));
            }
            assert(handled_by_all(self.module_map(), self.registered(), registered_event(ginfo), ctx));
            assert(calls_in_order(
                self.registered(),
                states,
                answers_of(answers@),
                event_answer::<M>(registered_event(ginfo), ctx),
                event_post::<M>(registered_event(ginfo), ctx),
            ));
        }
        Ok(())
    }

    /// Tells every module of `event`, in registration order, and collects
    /// their answers by id: each is the module's own answer in the state
    /// the earlier calls left it in.
    pub fn broadcast(&mut self, event: &Event, ctx: &EventContext) -> (r: Vec<
        (String, Result<EventResponse, ModuleError>),
    >)
        ensures
            final(self).registered() == old(self).registered(),
            final(self).caps() == old(self).caps(),
            final(self).module_ids() == old(self).module_ids(),
            r@.len() == old(self).registered().len(),
            forall|i: int| 0 <= i < r@.len() ==> #[trigger] r@[i].0@ == old(self).registered()[i],
            exists|states: Seq<Map<Seq<char>, Box<M>>>|
                #[trigger] calls_in_order(
                    old(self).registered(),
                    states,
                    answers_of(r@),
                    event_answer::<M>(*event, *ctx),
                    event_post::<M>(*event, *ctx),
                ) && states[0] == old(self).module_map() && states.last() == final(self).module_map(),
    {
        let (index, mut modules, router) = self.take_parts();
        let ghost dom0 = kv_map(modules@).dom();
        let ghost answer = event_answer::<M>(*event, *ctx);
        let ghost post = event_post::<M>(*event, *ctx);
        let ghost mut states: Seq<Map<Seq<char>, Box<M>>> = seq![kv_map(modules@)];
        let ids = index.ids();
        let mut out: Vec<(String, Result<EventResponse, ModuleError>)> = Vec::new();
        let mut i: usize = 0;
        while i < ids.len()
            invariant
                parts_ok(index, modules@),
                index == old(self).index,
                ids@.map_values(|v: String| v@) == index.registered(),
                kv_map(modules@).dom() == dom0,
                dom0 == kv_map(old(self).modules@).dom(),
                i <= ids@.len(),
                out@.len() == i,
                forall|k: int| 0 <= k < i ==> #[trigger] out@[k].0@ == ids@[k]@,
                states[0] == kv_map(old(self).modules@),
                states.last() == kv_map(modules@),
                answer == event_answer::<M>(*event, *ctx),
                post == event_post::<M>(*event, *ctx),
                calls_in_order(
                    index.registered().take(i as int),
                    states,
                    answers_of(out@),
                    answer,
                    post,
                ),
            decreases ids@.len() - i,
        {
            let ghost ids_v = index.registered();
            assert(ids_v[i as int] == ids@[i as int]@);
            let p = match find_in(&index, &modules, ids[i].as_str()) {
                Some(p) => p,
                None => {
                    proof {
                        assert(ids_v.contains(ids@[i as int]@));
                    }
                    return out;
                },
            };
            let ghost mods0 = modules@;
            proof {
                lemma_kv_map(mods0);
            }
            let result = modules[p].1.on_event(event, ctx);
            proof {
                assert forall|k: int| 0 <= k < modules@.len() implies #[trigger] modules@[k].0
                    == mods0[k].0 by {}
                lemma_keys_same(mods0, modules@);
                assert(modules@ =~= mods0.update(p as int, (mods0[p as int].0, modules@[p as int].1)));
                lemma_kv_update(mods0, p as int, modules@[p as int].1);
                let before = kv_map(mods0);
                let after = kv_map(modules@);
                assert(after == before.insert(ids_v[i as int], modules@[p as int].1));
                assert(before[ids_v[i as int]] == mods0[p as int].1);
                assert(before.contains_key(ids_v[i as int]));
                assert(result == mods0[p as int].1.event_spec(*event, *ctx));
                assert(result == answer(before[ids_v[i as int]]));
                assert(modules@[p as int].1.handled(*event, *ctx));
                assert(post(after[ids_v[i as int]]));
                assert(one_call(before, after, ids_v[i as int], result, answer, post));
            }
            let ghost old_out = out@;
            out.push((ids[i].clone(), result));
            proof {
                let ans = answers_of(out@);
                let ans0 = answers_of(old_out);
                let states0 = states;
                states = states.push(kv_map(modules@));
                assert(ans =~= ans0.push(result));
                assert(ids_v.take(i + 1) =~= ids_v.take(i as int).push(ids_v[i as int]));
                assert forall|k: int| 0 <= k < i + 1 implies one_call(
                    states[k],
                    states[k + 1],
                    ids_v.take(i + 1)[k],
                    #[trigger] ans[k],
                    answer,
                    post,
                ) by {
                    if k < i {
                        assert(ans0[k] == ans[k]);
                        assert(one_call(states0[k], states0[k + 1], ids_v.take(i as int)[k], ans0[k], answer, post));
                    }
                }
            }
            i += 1;
        }
        proof {
            assert(index.registered().take(i as int) =~= index.registered());
        }
        *self = ModuleRegistry { index, modules, router };
        out
    }

    /// Initialises every module in registration order, stopping at the
    /// first failure, whose error it answers.
    pub fn init_all(&mut self, ctx: &EventContext) -> (r: Result<(), ModuleError>)
        ensures
            final(self).registered() == old(self).registered(),
            final(self).caps() == old(self).caps(),
            final(self).module_ids() == old(self).module_ids(),
            exists|states: Seq<Map<Seq<char>, Box<M>>>, answers: Seq<Result<(), ModuleError>>|
                #[trigger] calls_prefix(old(self).registered(), states, answers, init_answer::<M>(*ctx), no_post::<M>())
                    && states[0] == old(self).module_map() && states.last() == final(self).module_map()
                    && stops_at_failure(answers, old(self).registered().len()) && r == first_failure(answers),
    {
        let (index, mut modules, router) = self.take_parts();
        let ghost dom0 = kv_map(modules@).dom();
        let ghost answer = init_answer::<M>(*ctx);
        let ghost post = no_post::<M>();
        let ghost mut states: Seq<Map<Seq<char>, Box<M>>> = seq![kv_map(modules@)];
        let ghost mut answers: Seq<Result<(), ModuleError>> = Seq::empty();
        let ids = index.ids();
        let mut i: usize = 0;
        while i < ids.len()
            invariant
                parts_ok(index, modules@),
                index == old(self).index,
                ids@.map_values(|v: String| v@) == index.registered(),
                kv_map(modules@).dom() == dom0,
                dom0 == kv_map(old(self).modules@).dom(),
                old(self).router == router,
                i <= ids@.len(),
                answer == init_answer::<M>(*ctx),
                post == no_post::<M>(),
                states[0] == kv_map(old(self).modules@),
                states.last() == kv_map(modules@),
                answers.len() == i,
                forall|k: int| 0 <= k < i ==> #[trigger] answers[k] is Ok,
                calls_in_order(index.registered().take(i as int), states, answers, answer, post),
            decreases ids@.len() - i,
        {
            let ghost ids_v = index.registered();
            assert(ids_v[i as int] == ids@[i as int]@);
            let p = match find_in(&index, &modules, ids[i].as_str()) {
                Some(p) => p,
                None => {
                    proof {
                        assert(ids_v.contains(ids@[i as int]@));
                    }
                    return Ok(());
                },
            };
            let ghost mods0 = modules@;
            let r = modules[p].1.init(ctx);
            proof {
                lemma_module_step(mods0, modules@, p as int);
                let next = kv_map(modules@);
                assert(one_call(states.last(), next, ids_v[i as int], r, answer, post));
                lemma_extend_calls(ids_v.take(i as int), states, answers, answer, post, ids_v[i as int], r, next);
                assert(ids_v.take(i + 1) =~= ids_v.take(i as int).push(ids_v[i as int]));
                states = states.push(next);
                answers = answers.push(r);
                assert(answers.take(answers.len() as int) =~= answers);
                assert(ids_v.take(answers.len() as int) == ids_v.take(i + 1));
            }
            if let Err(e) = r {
                *self = ModuleRegistry { index, modules, router };
                proof {
                    assert(calls_prefix(ids_v, states, answers, answer, post));
                    assert(stops_at_failure(answers, ids_v.len()));
                    assert(answers.last() == r);
                    assert(first_failure(answers) == r);
                    assert(self.module_map() == states.last());
                    assert(calls_prefix(old(self).registered(), states, answers, init_answer::<M>(*ctx), no_post::<M>()));
                }
                return Err(e);
            }
            i += 1;
        }
        *self = ModuleRegistry { index, modules, router };
        proof {
            assert(index.registered().take(i as int) =~= index.registered());
            assert(calls_prefix(old(self).registered(), states, answers, init_answer::<M>(*ctx), no_post::<M>()));
        }
        Ok(())
    }

    /// Shuts every module down in the reverse of registration order and
    /// collects the outcomes by id: each is the module's own answer.
    pub fn shutdown_all(&mut self) -> (r: Vec<(String, Result<(), ModuleError>)>)
        ensures
            final(self).registered() == old(self).registered(),
            final(self).caps() == old(self).caps(),
            final(self).module_ids() == old(self).module_ids(),
            r@.len() == old(self).registered().len(),
            forall|i: int|
                0 <= i < r@.len() ==> #[trigger] r@[i].0@ == old(self).registered()[r@.len() - 1 - i],
            exists|states: Seq<Map<Seq<char>, Box<M>>>|
                #[trigger] calls_in_order(
                    reversed(old(self).registered()),
                    states,
                    answers_of(r@),
                    shutdown_answer::<M>(),
                    no_post::<M>(),
                ) && states[0] == old(self).module_map() && states.last() == final(self).module_map(),
    {
        let (index, mut modules, router) = self.take_parts();
        let ghost dom0 = kv_map(modules@).dom();
        let ghost answer = shutdown_answer::<M>();
        let ghost post = no_post::<M>();
        let ghost rev = reversed(index.registered());
        let ghost mut states: Seq<Map<Seq<char>, Box<M>>> = seq![kv_map(modules@)];
        let ids = index.ids();
        let mut out: Vec<(String, Result<(), ModuleError>)> = Vec::new();
        let mut i: usize = ids.len();
        while i > 0
            invariant
                parts_ok(index, modules@),
                index == old(self).index,
                ids@.map_values(|v: String| v@) == index.registered(),
                rev == reversed(index.registered()),
                kv_map(modules@).dom() == dom0,
                dom0 == kv_map(old(self).modules@).dom(),
                i <= ids@.len(),
                out@.len() == ids@.len() - i,
                forall|k: int| 0 <= k < out@.len() ==> #[trigger] out@[k].0@ == ids@[ids@.len() - 1 - k]@,
                answer == shutdown_answer::<M>(),
                post == no_post::<M>(),
                states[0] == kv_map(old(self).modules@),
                states.last() == kv_map(modules@),
                calls_in_order(rev.take(out@.len() as int), states, answers_of(out@), answer, post),
            decreases i,
        {
            i -= 1;
            let ghost ids_v = index.registered();
            let ghost k = out@.len() as int;
            assert(rev[k] == ids_v[i as int]);
            assert(ids_v[i as int] == ids@[i as int]@);
            let p = match find_in(&index, &modules, ids[i].as_str()) {
                Some(p) => p,
                None => {
                    proof {
                        assert(ids_v.contains(ids@[i as int]@));
                    }
                    return out;
                },
            };
            let ghost mods0 = modules@;
            let result = modules[p].1.shutdown();
            let ghost old_out = out@;
            proof {
                lemma_module_step(mods0, modules@, p as int);
                let next = kv_map(modules@);
                assert(one_call(states.last(), next, rev[k], result, answer, post));
                lemma_extend_calls(rev.take(k), states, answers_of(old_out), answer, post, rev[k], result, next);
                assert(rev.take(k + 1) =~= rev.take(k).push(rev[k]));
                states = states.push(next);
            }
            out.push((ids[i].clone(), result));
            proof {
                assert(answers_of(out@) =~= answers_of(old_out).push(result));
            }
        }
        *self = ModuleRegistry { index, modules, router };
        proof {
            assert(rev.take(out@.len() as int) =~= rev);
            assert(calls_in_order(reversed(old(self).registered()), states, answers_of(out@), shutdown_answer::<M>(), no_post::<M>()));
        }
        out
    }

    /// Each module's prompt segment, in registration order, skipping modules
    /// without one.
    pub fn collect_prompt_segments(&self) -> (r: Vec<(String, String)>)
        ensures
            pair_texts(r@) == segments_in(self.module_map(), self.registered()),
    {
        proof {
            use_type_invariant(&*self);
        }
        let ids = self.index.ids();
        let mut out: Vec<(String, String)> = Vec::new();
        let mut i: usize = 0;
        while i < ids.len()
            invariant
                parts_ok(self.index, self.modules@),
                ids@.map_values(|v: String| v@) == self.registered(),
                i <= ids@.len(),
                pair_texts(out@) == segments_in(self.module_map(), self.registered().take(i as int)),
            decreases ids@.len() - i,
        {
            let ghost ids_v = self.registered();
            assert(ids_v[i as int] == ids@[i as int]@);
            assert(ids_v.take(i + 1).drop_last() =~= ids_v.take(i as int));
            assert(ids_v.take(i + 1).last() == ids_v[i as int]);
            let p = match find_in(&self.index, &self.modules, ids[i].as_str()) {
                Some(p) => p,
                None => {
                    proof {
                        assert(ids_v.contains(ids@[i as int]@));
                    }
                    return out;
                },
            };
            proof {
                lemma_kv_map(self.modules@);
                assert(self.module_map()[ids_v[i as int]] == self.modules@[p as int].1);
            }
            let ghost old_out = out@;
            if let Some(segment) = self.modules[p].1.prompt_segment() {
                out.push((ids[i].clone(), segment));
                proof {
                    assert(pair_texts(out@) =~= pair_texts(old_out).push((ids_v[i as int], segment@)));
                }
            }
            i += 1;
        }
        proof {
            assert(self.registered().take(i as int) =~= self.registered());
        }
        out
    }

    /// Every module's tools, in registration order, each with its module's
    /// id.
    pub fn collect_tools(&self) -> (r: Vec<(String, ToolDefinition)>)
        ensures
            pair_ids(r@) == tools_in(self.module_map(), self.registered()),
    {
        proof {
            use_type_invariant(&*self);
        }
        let ids = self.index.ids();
        let mut out: Vec<(String, ToolDefinition)> = Vec::new();
        let mut i: usize = 0;
        while i < ids.len()
            invariant
                parts_ok(self.index, self.modules@),
                ids@.map_values(|v: String| v@) == self.registered(),
                i <= ids@.len(),
                pair_ids(out@) == tools_in(self.module_map(), self.registered().take(i as int)),
            decreases ids@.len() - i,
        {
            let ghost ids_v = self.registered();
            assert(ids_v[i as int] == ids@[i as int]@);
            assert(ids_v.take(i + 1).drop_last() =~= ids_v.take(i as int));
            assert(ids_v.take(i + 1).last() == ids_v[i as int]);
            let p = match find_in(&self.index, &self.modules, ids[i].as_str()) {
                Some(p) => p,
                None => {
                    proof {
                        assert(ids_v.contains(ids@[i as int]@));
                    }
                    return out;
                },
            };
            proof {
                lemma_kv_map(self.modules@);
                assert(self.module_map()[ids_v[i as int]] == self.modules@[p as int].1);
            }
            let mut tools = self.modules[p].1.tool_definitions();
            let ghost all = tools@;
            let ghost base = pair_ids(out@);
            while tools.len() > 0
                invariant
                    parts_ok(self.index, self.modules@),
                    ids@.map_values(|v: String| v@) == self.registered(),
                    i < ids@.len(),
                    ids_v == self.registered(),
                    all.len() >= tools@.len(),
                    tools@ == all.skip(all.len() - tools@.len()),
                    pair_ids(out@) == base + with_id(ids_v[i as int], all.take(all.len() - tools@.len())),
                decreases tools.len(),
            {
                let ghost n0 = all.len() - tools@.len();
                let ghost old_out = out@;
                let t = tools.remove(0);
                assert(t == all[n0]);
                out.push((ids[i].clone(), t));
                proof {
                    assert(all.take(n0 + 1) =~= all.take(n0).push(all[n0]));
                    assert(with_id(ids_v[i as int], all.take(n0 + 1)) =~= with_id(ids_v[i as int], all.take(n0)).push(
                        (ids_v[i as int], all[n0]),
                    ));
                    assert(pair_ids(out@) =~= pair_ids(old_out).push((ids_v[i as int], t)));
                    assert(tools@ =~= all.skip(all.len() - tools@.len()));
                }
            }
            proof {
                assert(all.take(all.len() as int) =~= all);
            }
            i += 1;
        }
        proof {
            assert(self.registered().take(i as int) =~= self.registered());
        }
        out
    }

    /// The status-bar text of module `id`: the module's own, and none when
    /// it is not registered.
    pub fn get_display_status(&self, id: &str) -> (r: Option<String>)
        ensures
            self.registered().contains(id@) ==> crate::llm::opt_text(r) == self.module_map()[id@].status_spec(),
            !self.registered().contains(id@) ==> r is None,
    {
        proof {
            use_type_invariant(&*self);
            lemma_kv_map(self.modules@);
        }
        match self.find(id) {
            Some(p) => self.modules[p].1.display_status(),
            None => None,
        }
    }

    /// Runs tool `name` of module `module_id`, answering as that module
    /// does; an unknown module is refused.
    pub fn execute_tool_on(&mut self, module_id: &str, name: &str, args: &str) -> (r: Result<String, ModuleError>)
        ensures
            final(self).registered() == old(self).registered(),
            final(self).caps() == old(self).caps(),
            final(self).module_ids() == old(self).module_ids(),
            old(self).registered().contains(module_id@) ==> r == old(self).module_map()[module_id@].tool_spec(
                name@,
                args@,
            ) && final(self).module_map() == old(self).module_map().insert(
                module_id@,
                final(self).module_map()[module_id@],
            ),
            !old(self).registered().contains(module_id@) ==> (r matches Err(ModuleError::ToolNotFound(m))
                && m@ == "module '"@ + module_id@ + "' not found"@) && final(self).module_map() == old(
                self,
            ).module_map(),
    {
        let (index, mut modules, router) = self.take_parts();
        let r = match find_in(&index, &modules, module_id) {
            Some(p) => {
                let ghost mods0 = modules@;
                let r = modules[p].1.execute_tool(name, args);
                proof {
                    lemma_module_step(mods0, modules@, p as int);
                    lemma_keys_same(mods0, modules@);
                }
                r
            },
            None => Err(ModuleError::ToolNotFound(concat3("module '", module_id, "' not found"))),
        };
        *self = ModuleRegistry { index, modules, router };
        r
    }

    /// Whether a registered module provides `capability`.
    pub fn has_capability(&self, capability: &str) -> (r: bool)
        ensures
            r == self.caps().contains_key(capability@),
    {
        proof {
            use_type_invariant(&*self);
        }
        self.index.has_capability(capability)
    }

    /// The module registered as `id`.
    pub fn get(&self, id: &str) -> (r: Option<&M>)
        ensures
            r is Some <==> self.registered().contains(id@),
            r matches Some(m) ==> m == &*self.module_map()[id@],
    {
        proof {
            use_type_invariant(&*self);
            lemma_kv_map(self.modules@);
        }
        match self.find(id) {
            Some(p) => Some(&*self.modules[p].1),
            None => None,
        }
    }

    /// Routes model calls for `task` to the provider named `provider`.
    pub fn register_model_route(&mut self, task: &str, provider: &str)
        ensures
            final(self).registered() == old(self).registered(),
            final(self).caps() == old(self).caps(),
            final(self).module_ids() == old(self).module_ids(),
            final(self).routes() == old(self).routes().insert(task@, provider@),
    {
        proof {
            use_type_invariant(&*self);
        }
        let mut router = ModelRouter::new();
        std::mem::swap(&mut router, &mut self.router);
        router.register(task, provider);
        self.router = router;
    }

    /// The task-to-provider routes.
    pub closed spec fn routes(&self) -> Map<Seq<char>, Seq<char>> {
        self.router@
    }

    /// The provider routed for `task`; none sends the call to the default.
    pub fn provider_for(&self, task: &str) -> (r: Option<&str>)
        ensures
            match r {
                Some(p) => self.routes().contains_key(task@) && self.routes()[task@] == p@,
                None => !self.routes().contains_key(task@),
            },
    {
        self.router.provider_name(task)
    }
}

/// A registry's invariant over its parts: each id has one module, and the
/// registered ids are exactly those with a module.
spec fn parts_ok<M: ?Sized>(index: ModuleIndex, modules: Seq<(String, Box<M>)>) -> bool {
    &&& index.wf()
    &&& keys_distinct(modules)
    &&& forall|k: Seq<char>| #[trigger] kv_map(modules).dom().contains(k) <==> index.registered().contains(k)
}

/// The position of module `id` in the module list.
fn find_in<M: ?Sized>(index: &ModuleIndex, modules: &Vec<(String, Box<M>)>, id: &str) -> (r: Option<usize>)
    requires
        parts_ok(*index, modules@),
    ensures
        match r {
            Some(p) => p < modules@.len() && modules@[p as int].0@ == id@ && index.registered().contains(id@),
            None => !index.registered().contains(id@),
        },
{
    proof {
        lemma_kv_map(modules@);
    }
    let r = kv_find(modules, id);
    proof {
        assert(kv_map(modules@).dom().contains(id@) == index.registered().contains(id@));
    }
    r
}

/// Pushing `x` adds exactly `x` to what a sequence contains.
proof fn lemma_push_contains(s: Seq<Seq<char>>, x: Seq<char>, k: Seq<char>)
    ensures
        s.push(x).contains(k) <==> s.contains(k) || k == x,
{
    if s.contains(k) {
        let i = choose|i: int| 0 <= i < s.len() && s[i] == k;
        assert(s.push(x)[i] == k);
    }
    if k == x {
        assert(s.push(x)[s.len() as int] == x);
    }
    if s.push(x).contains(k) {
        let i = choose|i: int| 0 <= i < s.push(x).len() && s.push(x)[i] == k;
        if i < s.len() {
            assert(s[i] == k);
        }
    }
}

/// Changing only the modules, not their ids, keeps the ids.
proof fn lemma_keys_same<M: ?Sized>(a: Seq<(String, Box<M>)>, b: Seq<(String, Box<M>)>)
    requires
        a.len() == b.len(),
        forall|k: int| 0 <= k < a.len() ==> #[trigger] a[k].0 == b[k].0,
    ensures
        kv_map(a).dom() == kv_map(b).dom(),
        keys_distinct(a) ==> keys_distinct(b),
    decreases a.len(),
{
    if a.len() > 0 {
        lemma_keys_same(a.drop_last(), b.drop_last());
        assert(kv_map(a).dom() =~= kv_map(b).dom());
    }
    if keys_distinct(a) {
        assert forall|i: int, j: int| 0 <= i < j < b.len() implies #[trigger] b[i].0@ != #[trigger] b[j].0@ by {
            assert(a[i].0 == b[i].0);
            assert(a[j].0 == b[j].0);
        }
    }
}

} // verus!
