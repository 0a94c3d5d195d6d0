//! The module protocol: declarations, health reports, message kinds, and the
//! service registry that knows which module provides which service.
use vstd::prelude::*;
use crate::kv::{keys_distinct, kv_find, kv_map, lemma_kv_map, lemma_kv_push, lemma_kv_update};
use crate::text::{append_str, concat3};

verus! {

// ─── Declarations ────────────────────────────────

/// A service of the engine, such as `emotion.detect`.
#[derive(Debug, Clone)]
pub struct ServiceDefinition {
    pub name: String,
    pub description: String,
}

/// What a module declares of itself when it starts.
#[derive(Debug)]
pub struct ModuleDeclaration {
    /// Unique module id.
    pub module_id: String,
    pub name: String,
    /// Semantic version.
    pub version: String,
    pub author: ModuleAuthor,
    /// Services this module provides.
    pub provides: Vec<ServiceDefinition>,
    /// Services this module needs.
    pub requires: Vec<ServiceDefinition>,
    /// Modules this module needs, by id.
    pub required_modules: Vec<String>,
    /// Event types this module handles.
    pub handlers: Vec<String>,
}

/// The author of a module.
#[derive(Debug, Clone)]
pub struct ModuleAuthor {
    pub name: String,
    /// Contact (GitHub link, e-mail, ...).
    pub contact: String,
    /// What the module is for.
    pub description: String,
    pub license: Option<String>,
    pub signature: Option<String>,
}

/// The kind of a module message.
#[derive(Debug, Clone, Copy, PartialEq, Eq, Hash, Structural)]
pub enum MessageKind {
    /// The sender expects a reply.
    Request,
    /// A reply to a request.
    Response,
    Broadcast,
    /// A lifecycle event sent by the engine.
    Event,
    /// A module announcing itself.
    Declaration,
    Error,
}

// ─── Health ──────────────────────────────────────

/// The state of a module.
#[derive(Debug, Clone, Copy, PartialEq, Eq, Hash, Structural)]
pub enum ModuleStatus {
    Running,
    Degraded,
    Error,
    Stopped,
}

impl Default for ModuleStatus {
    fn default() -> (r: Self)
        ensures
            r == ModuleStatus::Running,
    {
        ModuleStatus::Running
    }
}

/// The display name of a module status.
pub open spec fn status_text(s: ModuleStatus) -> Seq<char> {
    match s {
        ModuleStatus::Running => "running"@,
        ModuleStatus::Degraded => "degraded"@,
        ModuleStatus::Error => "error"@,
        ModuleStatus::Stopped => "stopped"@,
    }
}

impl ModuleStatus {
    /// The display name of this status.
    pub fn as_str(&self) -> (r: &'static str)
        ensures
            r@ == status_text(*self),
    {
        match self {
            ModuleStatus::Running => "running",
            ModuleStatus::Degraded => "degraded",
            ModuleStatus::Error => "error",
            ModuleStatus::Stopped => "stopped",
        }
    }
}

/// A health report of one module.
#[derive(Debug, Clone)]
pub struct ModuleHealth {
    pub id: String,
    pub name: String,
    pub version: String,
    pub status: ModuleStatus,
    pub message_count: u64,
    pub error_count: u64,
    pub uptime_secs: u64,
    pub services: Vec<String>,
    pub dependencies: Vec<String>,
    pub last_error: Option<String>,
    pub details: Vec<(String, String)>,
}

// ─── Coupling errors ─────────────────────────────

/// Errors of calls through a module's coupling to the engine.
#[derive(Debug, Clone)]
pub enum CouplingError {
    /// No reply within the given number of seconds.
    Timeout(u64),
    ServiceError(String),
    /// The engine is shutting down.
    Disconnected,
    Protocol(String),
}

/// The display text of a coupling error.
pub open spec fn coupling_error_text(e: CouplingError) -> Seq<char> {
    match e {
        CouplingError::Timeout(s) => "service call timed out after "@ + crate::text::dec(s as nat)
            + "s"@,
        CouplingError::ServiceError(m) => "service returned error: "@ + m@,
        CouplingError::Disconnected => "coupling disconnected (engine shutting down)"@,
        CouplingError::Protocol(m) => "protocol error: "@ + m@,
    }
}

impl CouplingError {
    /// The display text of this error.
    pub fn message(&self) -> (r: String)
        ensures
            r@ == coupling_error_text(*self),
    {
        match self {
            CouplingError::Timeout(s) => {
                let n = crate::text::u64_to_string(*s);
                concat3("service call timed out after ", n.as_str(), "s")
            },
            CouplingError::ServiceError(m) => crate::text::concat2(
                "service returned error: ",
                m.as_str(),
            ),
            CouplingError::Disconnected => "coupling disconnected (engine shutting down)".to_string(),
            CouplingError::Protocol(m) => crate::text::concat2("protocol error: ", m.as_str()),
        }
    }
}

// ─── Service registry ────────────────────────────

/// Which module provides which service, and what each module declared.
#[derive(Debug)]
pub struct ServiceRegistry {
    /// Service name, and the ids of the modules that provide it in
    /// registration order.
    service_map: Vec<(String, Vec<String>)>,
    /// Module id, and its declaration.
    declarations: Vec<(String, ModuleDeclaration)>,
}

/// Each service's providers, from the service list.
pub open spec fn services_of(m: Seq<(String, Vec<String>)>) -> Map<Seq<char>, Seq<Seq<char>>> {
    kv_map(m).map_values(|v: Vec<String>| texts(v@))
}

/// The texts of a list of strings.
pub open spec fn texts(v: Seq<String>) -> Seq<Seq<char>> {
    v.map_values(|s: String| s@)
}

/// The names of a list of services.
pub open spec fn service_names(v: Seq<ServiceDefinition>) -> Seq<Seq<char>> {
    v.map_values(|s: ServiceDefinition| s.name@)
}

impl ServiceRegistry {
    /// Each service's providers, in registration order.
    pub closed spec fn services(&self) -> Map<Seq<char>, Seq<Seq<char>>> {
        services_of(self.service_map@)
    }

    /// Each registered module's declaration.
    pub closed spec fn declarations(&self) -> Map<Seq<char>, ModuleDeclaration> {
        kv_map(self.declarations@)
    }

    /// The registry's invariant: each service and each module is listed
    /// once, and each listed service has a provider.
    #[verifier::type_invariant]
    spec fn inv(&self) -> bool {
        keys_distinct(self.service_map@) && keys_distinct(self.declarations@) && providers_nonempty(
            self.services(),
        )
    }
}

/// Error for a required service that no module provides.
pub open spec fn missing_service_message(id: Seq<char>, s: ServiceDefinition) -> Seq<char> {
    "module '"@ + id + "' requires service '"@ + s.name@ + "' ("@ + s.description@
        + ") which is not provided by any module"@
}

/// Error for a required module that is not registered.
pub open spec fn missing_module_message(id: Seq<char>, dep: Seq<char>) -> Seq<char> {
    "module '"@ + id + "' requires module '"@ + dep + "' which is not registered"@
}

/// The errors for the required services that no module provides, in order.
pub open spec fn missing_services(
    services: Map<Seq<char>, Seq<Seq<char>>>,
    id: Seq<char>,
    reqs: Seq<ServiceDefinition>,
) -> Seq<Seq<char>>
    decreases reqs.len(),
{
    if reqs.len() == 0 {
        Seq::empty()
    } else {
        let prev = missing_services(services, id, reqs.drop_last());
        if services.contains_key(reqs.last().name@) {
            prev
        } else {
            prev.push(missing_service_message(id, reqs.last()))
        }
    }
}

/// The errors for the required modules that are not registered, in order.
pub open spec fn missing_modules(
    decls: Map<Seq<char>, ModuleDeclaration>,
    id: Seq<char>,
    deps: Seq<String>,
) -> Seq<Seq<char>>
    decreases deps.len(),
{
    if deps.len() == 0 {
        Seq::empty()
    } else {
        let prev = missing_modules(decls, id, deps.drop_last());
        if decls.contains_key(deps.last()@) {
            prev
        } else {
            prev.push(missing_module_message(id, deps.last()@))
        }
    }
}

/// Why a declaration cannot be registered: its unmet service needs, then its
/// unmet module needs.
pub open spec fn register_errors(
    services: Map<Seq<char>, Seq<Seq<char>>>,
    decls: Map<Seq<char>, ModuleDeclaration>,
    d: ModuleDeclaration,
) -> Seq<Seq<char>> {
    missing_services(services, d.module_id@, d.requires@) + missing_modules(
        decls,
        d.module_id@,
        d.required_modules@,
    )
}

/// `id` added as the last provider of `name`.
pub open spec fn provide_one(
    services: Map<Seq<char>, Seq<Seq<char>>>,
    name: Seq<char>,
    id: Seq<char>,
) -> Map<Seq<char>, Seq<Seq<char>>> {
    if services.contains_key(name) {
        services.insert(name, services[name].push(id))
    } else {
        services.insert(name, seq![id])
    }
}

/// `id` added as a provider of each service in `provides`, in order.
pub open spec fn provide_all(
    services: Map<Seq<char>, Seq<Seq<char>>>,
    provides: Seq<ServiceDefinition>,
    id: Seq<char>,
) -> Map<Seq<char>, Seq<Seq<char>>>
    decreases provides.len(),
{
    if provides.len() == 0 {
        services
    } else {
        provide_one(provide_all(services, provides.drop_last(), id), provides.last().name@, id)
    }
}

/// After a module registers, every service it provides is known and has it
/// as a provider, and every earlier provider of a service keeps its place, so
/// [`ServiceRegistry::resolve`] keeps answering the module registered first.
pub proof fn law_provide_all(
    services: Map<Seq<char>, Seq<Seq<char>>>,
    provides: Seq<ServiceDefinition>,
    id: Seq<char>,
)
    ensures
        forall|k: int|
            0 <= k < provides.len() ==> provide_all(services, provides, id).contains_key(
                #[trigger] provides[k].name@,
            ) && provide_all(services, provides, id)[provides[k].name@].contains(id),
        forall|s: Seq<char>|
            #[trigger] services.contains_key(s) ==> provide_all(services, provides, id).contains_key(s)
                && provide_all(services, provides, id)[s].len() >= services[s].len() && provide_all(
                services,
                provides,
                id,
            )[s].take(services[s].len() as int) == services[s],
    decreases provides.len(),
{
    if provides.len() > 0 {
        let inner = provide_all(services, provides.drop_last(), id);
        law_provide_all(services, provides.drop_last(), id);
        let name = provides.last().name@;
        let outer = provide_all(services, provides, id);
        assert(outer == provide_one(inner, name, id));
        assert forall|k: int| 0 <= k < provides.len() implies outer.contains_key(
            #[trigger] provides[k].name@,
        ) && outer[provides[k].name@].contains(id) by {
            if k < provides.len() - 1 {
                assert(provides.drop_last()[k] == provides[k]);
                let n = provides[k].name@;
                if n == name {
                    assert(outer[n] == inner[n].push(id));
                    assert(outer[n][outer[n].len() - 1] == id);
                } else {
                    let w = choose|w: int| 0 <= w < inner[n].len() && inner[n][w] == id;
                    assert(outer[n][w] == id);
                }
            } else {
                if inner.contains_key(name) {
                    assert(outer[name][outer[name].len() - 1] == id);
                } else {
                    assert(outer[name][0] == id);
                }
            }
        }
        assert forall|t: Seq<char>| #[trigger] services.contains_key(t) implies outer.contains_key(t)
            && outer[t].len() >= services[t].len() && outer[t].take(services[t].len() as int)
            == services[t] by {
            if t == name {
                assert(outer[t] == inner[t].push(id));
                assert(outer[t].take(services[t].len() as int) =~= inner[t].take(
                    services[t].len() as int,
                ));
            }
        }
    }
}

/// Every listed service has at least one provider.
pub open spec fn providers_nonempty(services: Map<Seq<char>, Seq<Seq<char>>>) -> bool {
    forall|s: Seq<char>| #[trigger] services.contains_key(s) ==> services[s].len() > 0
}

/// Registering a module keeps the first provider of every service that had
/// one, a service that had none gets the new module as its first provider,
/// and every listed service still has a provider.
pub proof fn law_register_keeps_first_provider(
    services: Map<Seq<char>, Seq<Seq<char>>>,
    provides: Seq<ServiceDefinition>,
    id: Seq<char>,
)
    requires
        providers_nonempty(services),
    ensures
        providers_nonempty(provide_all(services, provides, id)),
        forall|s: Seq<char>|
            #[trigger] services.contains_key(s) ==> provide_all(services, provides, id)[s][0]
                == services[s][0],
        forall|s: Seq<char>|
            #[trigger] provide_all(services, provides, id).contains_key(s) && !services.contains_key(s)
                ==> provide_all(services, provides, id)[s][0] == id,
        forall|k: int|
            0 <= k < provides.len() ==> provide_all(services, provides, id).contains_key(
                #[trigger] provides[k].name@,
            ),
    decreases provides.len(),
{
    law_provide_all(services, provides, id);
    if provides.len() > 0 {
        let inner = provide_all(services, provides.drop_last(), id);
        law_register_keeps_first_provider(services, provides.drop_last(), id);
        law_provide_all(services, provides.drop_last(), id);
        let name = provides.last().name@;
        let outer = provide_all(services, provides, id);
        assert(outer == provide_one(inner, name, id));
        assert forall|t: Seq<char>| #[trigger] outer.contains_key(t) implies outer[t].len() > 0 by {
            if t != name {
                assert(inner.contains_key(t));
            }
        }
        assert forall|t: Seq<char>| #[trigger] services.contains_key(t) implies outer[t][0]
            == services[t][0] by {
            assert(inner.contains_key(t));
            if t == name {
                assert(outer[t] == inner[t].push(id));
            }
        }
        assert forall|t: Seq<char>| #[trigger] outer.contains_key(t) && !services.contains_key(t)
            implies outer[t][0] == id by {
            if t == name {
                if inner.contains_key(t) {
                    assert(outer[t] == inner[t].push(id));
                }
            } else {
                assert(inner.contains_key(t));
            }
        }
    }
}

/// The service map and the declarations of a registry.
pub type RegistryModel = (Map<Seq<char>, Seq<Seq<char>>>, Map<Seq<char>, ModuleDeclaration>);

/// What one call of [`ServiceRegistry::register`] makes of a registry:
/// nothing when some need is unmet, else the declaration's services and
/// the declaration itself are added.
pub open spec fn register_step(st: RegistryModel, d: ModuleDeclaration) -> RegistryModel {
    if register_errors(st.0, st.1, d).len() > 0 {
        st
    } else {
        (provide_all(st.0, d.provides@, d.module_id@), st.1.insert(d.module_id@, d))
    }
}

/// A registry after registering `ds` in order, starting from `st`.
pub open spec fn register_run(st: RegistryModel, ds: Seq<ModuleDeclaration>) -> RegistryModel
    decreases ds.len(),
{
    if ds.len() == 0 {
        st
    } else {
        register_step(register_run(st, ds.drop_last()), ds.last())
    }
}

/// The `i`-th registration of `ds`, made after the earlier ones, succeeds.
pub open spec fn accepted(st: RegistryModel, ds: Seq<ModuleDeclaration>, i: int) -> bool {
    let before = register_run(st, ds.take(i));
    register_errors(before.0, before.1, ds[i]).len() == 0
}

/// The needs of `d` that a registry with `services` and `decls` leaves
/// unmet: its required services that no module provides, then its
/// required modules that are not registered.
pub open spec fn unmet_count(
    services: Map<Seq<char>, Seq<Seq<char>>>,
    decls: Map<Seq<char>, ModuleDeclaration>,
    d: ModuleDeclaration,
) -> nat {
    d.requires@.filter(|s: ServiceDefinition| !services.contains_key(s.name@)).len() + d.required_modules@.filter(
        |x: String| !decls.contains_key(x@),
    ).len()
}

proof fn lemma_missing_services_count(
    services: Map<Seq<char>, Seq<Seq<char>>>,
    id: Seq<char>,
    reqs: Seq<ServiceDefinition>,
)
    ensures
        missing_services(services, id, reqs).len() == reqs.filter(
            |s: ServiceDefinition| !services.contains_key(s.name@),
        ).len(),
    decreases reqs.len(),
{
    reveal(Seq::filter);
    if reqs.len() > 0 {
        lemma_missing_services_count(services, id, reqs.drop_last());
    }
}

proof fn lemma_missing_modules_count(decls: Map<Seq<char>, ModuleDeclaration>, id: Seq<char>, deps: Seq<String>)
    ensures
        missing_modules(decls, id, deps).len() == deps.filter(|x: String| !decls.contains_key(x@)).len(),
    decreases deps.len(),
{
    reveal(Seq::filter);
    if deps.len() > 0 {
        lemma_missing_modules_count(decls, id, deps.drop_last());
    }
}

/// A registration is refused with one message per unmet need: as many
/// messages as required services that no module provides plus required
/// modules that are not registered, counted before the module's own
/// services are added.
pub proof fn law_register_error_count(
    services: Map<Seq<char>, Seq<Seq<char>>>,
    decls: Map<Seq<char>, ModuleDeclaration>,
    d: ModuleDeclaration,
)
    ensures
        register_errors(services, decls, d).len() == unmet_count(services, decls, d),
{
    lemma_missing_services_count(services, d.module_id@, d.requires@);
    lemma_missing_modules_count(decls, d.module_id@, d.required_modules@);
}

/// The services known after `provide_all` are those known before and the
/// names in `provides`.
proof fn lemma_provide_all_dom(
    services: Map<Seq<char>, Seq<Seq<char>>>,
    provides: Seq<ServiceDefinition>,
    id: Seq<char>,
)
    ensures
        forall|n: Seq<char>|
            #[trigger] provide_all(services, provides, id).contains_key(n) <==> services.contains_key(n)
                || service_names(provides).contains(n),
    decreases provides.len(),
{
    if provides.len() == 0 {
        assert(service_names(provides) =~= Seq::<Seq<char>>::empty());
    } else {
        lemma_provide_all_dom(services, provides.drop_last(), id);
        assert(service_names(provides.drop_last()) =~= service_names(provides).drop_last());
        assert forall|n: Seq<char>| service_names(provides).contains(n) <==> service_names(provides.drop_last()).contains(n)
            || n == provides.last().name@ by {
            if service_names(provides).contains(n) {
                let k = choose|k: int| 0 <= k < service_names(provides).len() && service_names(provides)[k] == n;
                if k < provides.len() - 1 {
                    assert(service_names(provides.drop_last())[k] == n);
                }
            }
            if service_names(provides.drop_last()).contains(n) {
                let k = choose|k: int| 0 <= k < service_names(provides.drop_last()).len() && service_names(provides.drop_last())[k] == n;
                assert(service_names(provides)[k] == n);
            }
            if n == provides.last().name@ {
                assert(service_names(provides)[provides.len() - 1] == n);
            }
        }
        let inner = provide_all(services, provides.drop_last(), id);
        assert(provide_all(services, provides, id) == provide_one(inner, provides.last().name@, id));
        assert forall|n: Seq<char>| #[trigger] provide_all(services, provides, id).contains_key(n) <==> services.contains_key(n)
            || service_names(provides).contains(n) by {
            assert(inner.contains_key(n) <==> services.contains_key(n) || service_names(provides.drop_last()).contains(n));
        }
    }
}

/// Over any history of registrations from an empty registry, the listed
/// services are exactly the names provided by the registrations that
/// succeeded.
pub proof fn law_services_from_accepted(ds: Seq<ModuleDeclaration>, n: Seq<char>)
    ensures
        register_run((Map::empty(), Map::empty()), ds).0.contains_key(n) <==> exists|i: int|
            0 <= i < ds.len() && accepted((Map::empty(), Map::empty()), ds, i) && #[trigger] service_names(
                ds[i].provides@,
            ).contains(n),
    decreases ds.len(),
{
    let st0: RegistryModel = (Map::empty(), Map::empty());
    if ds.len() == 0 {
        assert(register_run(st0, ds) == st0);
    } else {
        let m = ds.len() - 1;
        let prev = ds.drop_last();
        law_services_from_accepted(prev, n);
        let before = register_run(st0, prev);
        let d = ds[m];
        assert(ds.take(m) =~= prev);
        assert(accepted(st0, ds, m) == (register_errors(before.0, before.1, d).len() == 0));
        assert(register_run(st0, ds) == register_step(before, d));
        let old_has = before.0.contains_key(n);
        let new_has = register_run(st0, ds).0.contains_key(n);
        if accepted(st0, ds, m) {
            lemma_provide_all_dom(before.0, d.provides@, d.module_id@);
            assert(new_has == (old_has || service_names(d.provides@).contains(n)));
        } else {
            assert(new_has == old_has);
        }
        assert forall|i: int| 0 <= i < m implies #[trigger] accepted(st0, ds, i) == accepted(st0, prev, i) by {
            assert(ds.take(i) =~= prev.take(i));
        }
        if new_has {
            if old_has {
                let i = choose|i: int|
                    0 <= i < prev.len() && accepted(st0, prev, i) && #[trigger] service_names(prev[i].provides@).contains(n);
                assert(accepted(st0, ds, i));
                assert(ds[i] == prev[i]);
            } else {
                assert(accepted(st0, ds, m) && service_names(ds[m].provides@).contains(n));
            }
        }
        if exists|i: int| 0 <= i < ds.len() && accepted(st0, ds, i) && #[trigger] service_names(ds[i].provides@).contains(n) {
            let i = choose|i: int| 0 <= i < ds.len() && accepted(st0, ds, i) && #[trigger] service_names(ds[i].provides@).contains(n);
            if i < m {
                assert(accepted(st0, prev, i));
                assert(ds[i] == prev[i]);
                assert(service_names(prev[i].provides@).contains(n));
                assert(old_has);
            }
        }
    }
}

/// A declaration registered successfully stays what the registry gives for
/// its id while no later registration of that id succeeds.
pub proof fn law_declaration_kept(st: RegistryModel, ds: Seq<ModuleDeclaration>, i: int)
    requires
        0 <= i < ds.len(),
        accepted(st, ds, i),
        forall|j: int| i < j < ds.len() && #[trigger] ds[j].module_id@ == ds[i].module_id@ ==> !accepted(st, ds, j),
    ensures
        register_run(st, ds).1.contains_key(ds[i].module_id@),
        register_run(st, ds).1[ds[i].module_id@] == ds[i],
    decreases ds.len(),
{
    let m = ds.len() - 1;
    let prev = ds.drop_last();
    assert(ds.take(m) =~= prev);
    if i < m {
        assert forall|j: int| i < j < prev.len() && #[trigger] prev[j].module_id@ == prev[i].module_id@ implies !accepted(
            st,
            prev,
            j,
        ) by {
            assert(ds.take(j) =~= prev.take(j));
            assert(ds[j] == prev[j]);
        }
        assert(ds.take(i) =~= prev.take(i));
        law_declaration_kept(st, prev, i);
        if ds[m].module_id@ == ds[i].module_id@ {
            assert(!accepted(st, ds, m));
        }
    } else {
        assert(ds.take(i) == prev);
    }
}

/// A refused registration changes nothing: every query answers as before.
pub proof fn law_refusal_changes_nothing(st: RegistryModel, d: ModuleDeclaration)
    requires
        unmet_count(st.0, st.1, d) > 0,
    ensures
        register_step(st, d) == st,
{
    law_register_error_count(st.0, st.1, d);
}

/// Whether `h` is the health report that the registry gives of module `id`
/// declared as `d`.
pub open spec fn health_of(h: ModuleHealth, id: Seq<char>, d: ModuleDeclaration) -> bool {
    &&& h.id@ == id
    &&& h.name@ == d.name@
    &&& h.version@ == d.version@
    &&& h.status == ModuleStatus::Running
    &&& h.message_count == 0 && h.error_count == 0 && h.uptime_secs == 0
    &&& texts(h.services@) == service_names(d.provides@)
    &&& texts(h.dependencies@) == service_names(d.requires@)
    &&& h.last_error is None
    &&& h.details@.len() == 0
}

fn service_name_list(v: &Vec<ServiceDefinition>) -> (r: Vec<String>)
    ensures
        texts(r@) == service_names(v@),
{
    let mut out: Vec<String> = Vec::new();
    let mut i: usize = 0;
    while i < v.len()
        invariant
            i <= v.len(),
            texts(out@) == service_names(v@.take(i as int)),
        decreases v.len() - i,
    {
        let ghost before = out@;
        out.push(v[i].name.clone());
        assert(texts(out@) =~= texts(before).push(v@[i as int].name@));
        assert(service_names(v@.take(i + 1)) =~= service_names(v@.take(i as int)).push(
            v@[i as int].name@,
        ));
        i += 1;
    }
    assert(v@.take(v.len() as int) == v@);
    out
}

impl ServiceRegistry {
    /// An empty registry.
    pub fn new() -> (r: Self)
        ensures
                r.services() == Map::<Seq<char>, Seq<Seq<char>>>::empty(),
            r.declarations() == Map::<Seq<char>, ModuleDeclaration>::empty(),
    {
        let r = ServiceRegistry { service_map: Vec::new(), declarations: Vec::new() };
        assert(r.services() =~= Map::<Seq<char>, Seq<Seq<char>>>::empty());
        r
    }

    fn has_service_key(&self, name: &str) -> (r: bool)
        ensures
            r == self.services().contains_key(name@),
    {
        proof {
            lemma_kv_map(self.service_map@);
        }
        kv_find(&self.service_map, name).is_some()
    }

    fn has_module_key(&self, id: &str) -> (r: bool)
        ensures
            r == self.declarations().contains_key(id@),
    {
        proof {
            lemma_kv_map(self.declarations@);
        }
        kv_find(&self.declarations, id).is_some()
    }

    /// Registers a module and the services it provides. A declaration whose
    /// required services or modules are missing is refused with one message
    /// per missing need, and nothing changes.
    pub fn register(&mut self, declaration: ModuleDeclaration) -> (r: Result<(), Vec<String>>)
        ensures
            register_errors(old(self).services(), old(self).declarations(), declaration).len() > 0
                ==> (r matches Err(e) && texts(e@) == register_errors(
                old(self).services(),
                old(self).declarations(),
                declaration,
            )) && final(self).services() == old(self).services() && final(self).declarations()
                == old(self).declarations(),
            (final(self).services(), final(self).declarations()) == register_step(
                (old(self).services(), old(self).declarations()),
                declaration,
            ),
            register_errors(old(self).services(), old(self).declarations(), declaration).len() == 0
                ==> r is Ok && final(self).services() == provide_all(
                old(self).services(),
                declaration.provides@,
                declaration.module_id@,
            ) && final(self).declarations() == old(self).declarations().insert(
                declaration.module_id@,
                declaration,
            ),
    {
        let ghost old_services = self.services();
        let ghost old_decls = self.declarations();
        let mod_id = declaration.module_id.clone();
        let mut errors: Vec<String> = Vec::new();
        let mut i: usize = 0;
        while i < declaration.requires.len()
            invariant
                i <= declaration.requires.len(),
                self.services() == old_services,
                texts(errors@) == missing_services(
                    old_services,
                    mod_id@,
                    declaration.requires@.take(i as int),
                ),
            decreases declaration.requires.len() - i,
        {
            let req = &declaration.requires[i];
            assert(declaration.requires@.take(i + 1).drop_last() == declaration.requires@.take(
                i as int,
            ));
            assert(declaration.requires@.take(i + 1).last() == declaration.requires@[i as int]);
            if !self.has_service_key(req.name.as_str()) {
                let mut m = concat3("module '", mod_id.as_str(), "' requires service '");
                append_str(&mut m, req.name.as_str());
                append_str(&mut m, "' (");
                append_str(&mut m, req.description.as_str());
                append_str(&mut m, ") which is not provided by any module");
                let ghost before = texts(errors@);
                errors.push(m);
                assert(texts(errors@) =~= before.push(m@));
            }
            i += 1;
        }
        assert(declaration.requires@.take(declaration.requires.len() as int)
            == declaration.requires@);
        let ghost after_services = texts(errors@);
        let mut j: usize = 0;
        while j < declaration.required_modules.len()
            invariant
                j <= declaration.required_modules.len(),
                self.declarations() == old_decls,
                texts(errors@) == after_services + missing_modules(
                    old_decls,
                    mod_id@,
                    declaration.required_modules@.take(j as int),
                ),
            decreases declaration.required_modules.len() - j,
        {
            let dep = &declaration.required_modules[j];
            assert(declaration.required_modules@.take(j + 1).drop_last()
                == declaration.required_modules@.take(j as int));
            assert(declaration.required_modules@.take(j + 1).last()
                == declaration.required_modules@[j as int]);
            if !self.has_module_key(dep.as_str()) {
                let mut m = concat3("module '", mod_id.as_str(), "' requires module '");
                append_str(&mut m, dep.as_str());
                append_str(&mut m, "' which is not registered");
                let ghost before = texts(errors@);
                errors.push(m);
                assert(texts(errors@) =~= before.push(m@));
            }
            j += 1;
        }
        assert(declaration.required_modules@.take(declaration.required_modules.len() as int)
            == declaration.required_modules@);
        if errors.len() > 0 {
            return Err(errors);
        }
        proof {
            use_type_invariant(&*self);
        }
        let mut tmp = ServiceRegistry::new();
        std::mem::swap(&mut tmp, self);
        proof {
            use_type_invariant(&tmp);
        }
        let ServiceRegistry { mut service_map, mut declarations } = tmp;
        let mut k: usize = 0;
        while k < declaration.provides.len()
            invariant
                k <= declaration.provides.len(),
                keys_distinct(service_map@),
                keys_distinct(declarations@),
                kv_map(declarations@) == old_decls,
                services_of(service_map@) == provide_all(
                    old_services,
                    declaration.provides@.take(k as int),
                    mod_id@,
                ),
            decreases declaration.provides.len() - k,
        {
            let name = &declaration.provides[k].name;
            assert(declaration.provides@.take(k + 1).drop_last() == declaration.provides@.take(
                k as int,
            ));
            assert(declaration.provides@.take(k + 1).last() == declaration.provides@[k as int]);
            let ghost before = service_map@;
            proof {
                lemma_kv_map(before);
            }
            match kv_find(&service_map, name.as_str()) {
                Some(p) => {
                    let ghost old_entry = before[p as int];
                    service_map[p].1.push(mod_id.clone());
                    proof {
                        assert(service_map@ =~= before.update(
                            p as int,
                            (old_entry.0, service_map@[p as int].1),
                        ));
                        lemma_kv_update(before, p as int, service_map@[p as int].1);
                        assert(texts(service_map@[p as int].1@) =~= texts(old_entry.1@).push(
                            mod_id@,
                        ));
                        assert(kv_map(before)[name@] == old_entry.1);
                        assert(services_of(service_map@) =~= provide_one(
                            kv_map(before).map_values(|v: Vec<String>| texts(v@)),
                            name@,
                            mod_id@,
                        ));
                    }
                },
                None => {
                    let mut ids: Vec<String> = Vec::new();
                    ids.push(mod_id.clone());
                    let ghost v = ids;
                    service_map.push((name.clone(), ids));
                    proof {
                        lemma_kv_push(before, *name, v);
                        assert(texts(v@) =~= seq![mod_id@]);
                        assert(services_of(service_map@) =~= provide_one(
                            kv_map(before).map_values(|v: Vec<String>| texts(v@)),
                            name@,
                            mod_id@,
                        ));
                    }
                },
            }
            k += 1;
        }
        assert(declaration.provides@.take(declaration.provides.len() as int)
            == declaration.provides@);
        proof {
            law_register_keeps_first_provider(old_services, declaration.provides@, mod_id@);
        }
        let ghost d = declaration;
        let ghost before = declarations@;
        proof {
            lemma_kv_map(before);
        }
        match kv_find(&declarations, mod_id.as_str()) {
            Some(p) => {
                declarations[p].1 = declaration;
                proof {
                    assert(declarations@ =~= before.update(p as int, (before[p as int].0, d)));
                    lemma_kv_update(before, p as int, d);
                }
            },
            None => {
                declarations.push((mod_id, declaration));
                proof {
                    lemma_kv_push(before, mod_id, d);
                }
            },
        }
        *self = ServiceRegistry { service_map, declarations };
        Ok(())
    }

    /// The first module registered for `service`.
    pub fn resolve(&self, service: &str) -> (r: Option<String>)
        ensures
            match r {
                Some(id) => self.services().contains_key(service@) && self.services()[service@].len()
                    > 0 && id@ == self.services()[service@][0],
                None => !self.services().contains_key(service@) || self.services()[service@].len()
                    == 0,
            },
    {
        proof {
            use_type_invariant(&*self);
        }
        proof {
            lemma_kv_map(self.service_map@);
        }
        match kv_find(&self.service_map, service) {
            Some(p) => {
                proof {
                    assert(self.service_map@[p as int].0@ == service@);
                }
                if self.service_map[p].1.len() > 0 {
                    Some(self.service_map[p].1[0].clone())
                } else {
                    None
                }
            },
            None => None,
        }
    }

    /// All modules registered for `service`, in registration order.
    pub fn resolve_all(&self, service: &str) -> (r: Vec<String>)
        ensures
            texts(r@) == (if self.services().contains_key(service@) {
                self.services()[service@]
            } else {
                Seq::empty()
            }),
    {
        proof {
            use_type_invariant(&*self);
        }
        proof {
            lemma_kv_map(self.service_map@);
        }
        match kv_find(&self.service_map, service) {
            Some(p) => {
                let v = &self.service_map[p].1;
                let mut out: Vec<String> = Vec::new();
                let mut i: usize = 0;
                while i < v.len()
                    invariant
                        i <= v.len(),
                        texts(out@) == texts(v@.take(i as int)),
                    decreases v.len() - i,
                {
                    let ghost before = out@;
                    out.push(v[i].clone());
                    assert(texts(out@) =~= texts(before).push(v@[i as int]@));
                    assert(texts(v@.take(i + 1)) =~= texts(v@.take(i as int)).push(v@[i as int]@));
                    i += 1;
                }
                assert(v@.take(v.len() as int) == v@);
                out
            },
            None => {
                assert(texts(Seq::<String>::empty()) =~= Seq::<Seq<char>>::empty());
                Vec::new()
            },
        }
    }

    /// Whether some module provides `service`: exactly when [`resolve`]
    /// finds a module and [`resolve_all`] finds some, since a listed
    /// service always has a provider.
    ///
    /// [`resolve`]: ServiceRegistry::resolve
    /// [`resolve_all`]: ServiceRegistry::resolve_all
    pub fn has_service(&self, service: &str) -> (r: bool)
        ensures
            r == self.services().contains_key(service@),
            r ==> self.services()[service@].len() > 0,
    {
        proof {
            use_type_invariant(&*self);
        }
        self.has_service_key(service)
    }

    /// The declaration of module `module_id`.
    pub fn get_declaration(&self, module_id: &str) -> (r: Option<&ModuleDeclaration>)
        ensures
            match r {
                Some(d) => self.declarations().contains_key(module_id@) && *d
                    == self.declarations()[module_id@],
                None => !self.declarations().contains_key(module_id@),
            },
    {
        proof {
            use_type_invariant(&*self);
        }
        proof {
            lemma_kv_map(self.declarations@);
        }
        match kv_find(&self.declarations, module_id) {
            Some(p) => {
                assert(self.declarations@[p as int].0@ == module_id@);
                Some(&self.declarations[p].1)
            },
            None => None,
        }
    }

    /// The names of all services, each once.
    pub fn list_services(&self) -> (r: Vec<String>)
        ensures
            forall|i: int| 0 <= i < r@.len() ==> self.services().contains_key(#[trigger] r@[i]@),
            forall|k: Seq<char>|
                #[trigger] self.services().contains_key(k) ==> exists|i: int|
                    0 <= i < r@.len() && r@[i]@ == k,
            forall|i: int, j: int| 0 <= i < j < r@.len() ==> #[trigger] r@[i]@ != #[trigger] r@[j]@,
    {
        proof {
            use_type_invariant(&*self);
        }
        proof {
            lemma_kv_map(self.service_map@);
        }
        let mut out: Vec<String> = Vec::new();
        let mut i: usize = 0;
        while i < self.service_map.len()
            invariant
                i <= self.service_map.len(),
                out@.len() == i,
                forall|j: int| 0 <= j < i ==> #[trigger] out@[j] == self.service_map@[j].0,
            decreases self.service_map.len() - i,
        {
            out.push(self.service_map[i].0.clone());
            i += 1;
        }
        proof {
            assert forall|k: Seq<char>| #[trigger] self.services().contains_key(k) implies exists|
                i: int,
            | 0 <= i < out@.len() && out@[i]@ == k by {
                let i = choose|i: int|
                    0 <= i < self.service_map@.len() && self.service_map@[i].0@ == k;
                assert(out@[i] == self.service_map@[i].0);
            }
            assert forall|a: int, b: int| 0 <= a < b < out@.len() implies #[trigger] out@[a]@
                != #[trigger] out@[b]@ by {
                assert(out@[a] == self.service_map@[a].0);
                assert(out@[b] == self.service_map@[b].0);
            }
            assert forall|a: int| 0 <= a < out@.len() implies self.services().contains_key(
                #[trigger] out@[a]@,
            ) by {
                assert(out@[a] == self.service_map@[a].0);
            }
        }
        out
    }

    /// The ids of all registered modules, each once.
    pub fn list_modules(&self) -> (r: Vec<String>)
        ensures
            forall|i: int|
                0 <= i < r@.len() ==> self.declarations().contains_key(#[trigger] r@[i]@),
            forall|k: Seq<char>|
                #[trigger] self.declarations().contains_key(k) ==> exists|i: int|
                    0 <= i < r@.len() && r@[i]@ == k,
            forall|i: int, j: int| 0 <= i < j < r@.len() ==> #[trigger] r@[i]@ != #[trigger] r@[j]@,
    {
        proof {
            use_type_invariant(&*self);
        }
        proof {
            lemma_kv_map(self.declarations@);
        }
        let mut out: Vec<String> = Vec::new();
        let mut i: usize = 0;
        while i < self.declarations.len()
            invariant
                i <= self.declarations.len(),
                out@.len() == i,
                forall|j: int| 0 <= j < i ==> #[trigger] out@[j] == self.declarations@[j].0,
            decreases self.declarations.len() - i,
        {
            out.push(self.declarations[i].0.clone());
            i += 1;
        }
        proof {
            assert forall|k: Seq<char>| #[trigger] self.declarations().contains_key(k) implies exists|
                i: int,
            | 0 <= i < out@.len() && out@[i]@ == k by {
                let i = choose|i: int|
                    0 <= i < self.declarations@.len() && self.declarations@[i].0@ == k;
                assert(out@[i] == self.declarations@[i].0);
            }
            assert forall|a: int, b: int| 0 <= a < b < out@.len() implies #[trigger] out@[a]@
                != #[trigger] out@[b]@ by {
                assert(out@[a] == self.declarations@[a].0);
                assert(out@[b] == self.declarations@[b].0);
            }
            assert forall|a: int| 0 <= a < out@.len() implies self.declarations().contains_key(
                #[trigger] out@[a]@,
            ) by {
                assert(out@[a] == self.declarations@[a].0);
            }
        }
        out
    }

    /// A health report of every registered module, each once: running, with
    /// zero counters, its services and its service needs.
    pub fn all_health(&self) -> (r: Vec<ModuleHealth>)
        ensures
            forall|i: int|
                0 <= i < r@.len() ==> self.declarations().contains_key(#[trigger] r@[i].id@)
                    && health_of(r@[i], r@[i].id@, self.declarations()[r@[i].id@]),
            forall|k: Seq<char>|
                #[trigger] self.declarations().contains_key(k) ==> exists|i: int|
                    0 <= i < r@.len() && r@[i].id@ == k,
            forall|i: int, j: int|
                0 <= i < j < r@.len() ==> #[trigger] r@[i].id@ != #[trigger] r@[j].id@,
    {
        proof {
            use_type_invariant(&*self);
        }
        proof {
            lemma_kv_map(self.declarations@);
        }
        let mut out: Vec<ModuleHealth> = Vec::new();
        let mut i: usize = 0;
        while i < self.declarations.len()
            invariant
                i <= self.declarations.len(),
                out@.len() == i,
                forall|j: int|
                    0 <= j < i ==> #[trigger] out@[j].id == self.declarations@[j].0 && health_of(
                        out@[j],
                        self.declarations@[j].0@,
                        self.declarations@[j].1,
                    ),
            decreases self.declarations.len() - i,
        {
            let (id, d) = (&self.declarations[i].0, &self.declarations[i].1);
            let h = ModuleHealth {
                id: id.clone(),
                name: d.name.clone(),
                version: d.version.clone(),
                status: ModuleStatus::Running,
                message_count: 0,
                error_count: 0,
                uptime_secs: 0,
                services: service_name_list(&d.provides),
                dependencies: service_name_list(&d.requires),
                last_error: None,
                details: Vec::new(),
            };
            out.push(h);
            i += 1;
        }
        proof {
            assert forall|k: Seq<char>| #[trigger] self.declarations().contains_key(k) implies exists|
                i: int,
            | 0 <= i < out@.len() && out@[i].id@ == k by {
                let i = choose|i: int|
                    0 <= i < self.declarations@.len() && self.declarations@[i].0@ == k;
                assert(out@[i].id == self.declarations@[i].0);
            }
            assert forall|a: int, b: int| 0 <= a < b < out@.len() implies #[trigger] out@[a].id@
                != #[trigger] out@[b].id@ by {
                assert(out@[a].id == self.declarations@[a].0);
                assert(out@[b].id == self.declarations@[b].0);
            }
            assert forall|a: int| 0 <= a < out@.len() implies self.declarations().contains_key(
                #[trigger] out@[a].id@,
            ) && health_of(out@[a], out@[a].id@, self.declarations()[out@[a].id@]) by {
                assert(out@[a].id == self.declarations@[a].0);
                assert(self.declarations()[self.declarations@[a].0@] == self.declarations@[a].1);
            }
        }
        out
    }
}

// ─── Messages ────────────────────────────────────

/// A random 64-bit value (`rand::random::<u64>()`, from the thread-local
/// generator). Nothing is promised of the value.
#[verifier::external_body]
fn random_u64() -> u64 {
    rand::random::<u64>()
}

/// Whether `id` is a message id: 16 or more hexadecimal digits of a time,
/// then 16 of a random value.
pub open spec fn message_id_of(id: Seq<char>, nanos: u128, rand_part: u64) -> bool {
    id == crate::text::zero_pad(crate::text::hex(nanos as nat), 16) + crate::text::zero_pad(
        crate::text::hex(rand_part as nat),
        16,
    )
}

/// A fresh message id: the clock in nanoseconds and a random value, each as
/// at least 16 hexadecimal digits.
pub fn uuid_v4() -> (r: String)
    ensures
        exists|nanos: u128, rand_part: u64| message_id_of(r@, nanos, rand_part),
{
    let now = crate::datetime::now_nanos();
    let rand_part = random_u64();
    let mut out = crate::text::hex_padded(now, 16);
    append_str(&mut out, crate::text::hex_padded(rand_part as u128, 16).as_str());
    assert(message_id_of(out@, now, rand_part));
    out
}

/// A message between a module and the engine.
#[derive(Debug)]
pub struct ModuleMessage {
    pub id: String,
    /// The sending module.
    pub from: String,
    /// A service name or an event name.
    pub to: String,
    pub kind: MessageKind,
    pub headers: Vec<(String, String)>,
    pub payload: crate::json::JsonValue,
    /// The request this message answers.
    pub reply_to: Option<String>,
    /// Unix milliseconds.
    pub timestamp: u64,
}

/// Whether `m` is a fresh message of `kind` from `from` to `to` with
/// `payload`, answering `reply_to`.
pub open spec fn fresh_message(
    m: ModuleMessage,
    kind: MessageKind,
    from: Seq<char>,
    to: Seq<char>,
    reply_to: Option<Seq<char>>,
) -> bool {
    &&& exists|nanos: u128, rand_part: u64| message_id_of(m.id@, nanos, rand_part)
    &&& m.kind == kind
    &&& m.from@ == from
    &&& m.to@ == to
    &&& m.headers@.len() == 0
    &&& match (m.reply_to, reply_to) {
        (Some(a), Some(b)) => a@ == b,
        (None, None) => true,
        _ => false,
    }
}

impl ModuleMessage {
    fn fresh(kind: MessageKind, from: &str, to: &str, payload: crate::json::JsonValue, reply_to: Option<&str>) -> (r: Self)
        ensures
            fresh_message(
                r,
                kind,
                from@,
                to@,
                match reply_to {
                    Some(t) => Some(t@),
                    None => None,
                },
            ),
            r.payload == payload,
    {
        let id = uuid_v4();
        let ghost (na, ra) = choose|nanos: u128, rand_part: u64| message_id_of(id@, nanos, rand_part);
        let rt = match reply_to {
            Some(t) => Some(t.to_string()),
            None => None,
        };
        let m = ModuleMessage {
            id,
            from: from.to_string(),
            to: to.to_string(),
            kind,
            headers: Vec::new(),
            payload,
            reply_to: rt,
            timestamp: crate::datetime::now_millis(),
        };
        assert(m.headers@.len() == 0);
        assert(message_id_of(m.id@, na, ra));
        m
    }

    /// A request to `service`.
    pub fn request(from: &str, service: &str, payload: crate::json::JsonValue) -> (r: Self)
        ensures
            fresh_message(r, MessageKind::Request, from@, service@, None),
            r.payload == payload,
    {
        Self::fresh(MessageKind::Request, from, service, payload, None)
    }

    /// A reply to the message `reply_to`.
    pub fn response(from: &str, to: &str, payload: crate::json::JsonValue, reply_to: &str) -> (r: Self)
        ensures
            fresh_message(r, MessageKind::Response, from@, to@, Some(reply_to@)),
            r.payload == payload,
    {
        Self::fresh(MessageKind::Response, from, to, payload, Some(reply_to))
    }

    /// A broadcast on `topic`.
    pub fn broadcast(from: &str, topic: &str, payload: crate::json::JsonValue) -> (r: Self)
        ensures
            fresh_message(r, MessageKind::Broadcast, from@, topic@, None),
            r.payload == payload,
    {
        Self::fresh(MessageKind::Broadcast, from, topic, payload, None)
    }

    /// An event `event_name`.
    pub fn event(from: &str, event_name: &str, payload: crate::json::JsonValue) -> (r: Self)
        ensures
            fresh_message(r, MessageKind::Event, from@, event_name@, None),
            r.payload == payload,
    {
        Self::fresh(MessageKind::Event, from, event_name, payload, None)
    }

    /// A declaration sent to the engine.
    pub fn declaration(from: &str, payload: crate::json::JsonValue) -> (r: Self)
        ensures
            fresh_message(r, MessageKind::Declaration, from@, "engine"@, None),
            r.payload == payload,
    {
        Self::fresh(MessageKind::Declaration, from, "engine", payload, None)
    }

    /// An error reply to `reply_to`, with `{"code": code, "message": message}`.
    pub fn error(from: &str, to: &str, code: &str, message: &str, reply_to: &str) -> (r: Self)
        ensures
            fresh_message(r, MessageKind::Error, from@, to@, Some(reply_to@)),
            error_payload(r.payload, code@, message@),
    {
        let mut members: Vec<(String, crate::json::JsonValue)> = Vec::new();
        members.push(("code".to_string(), crate::json::JsonValue::Str(code.to_string())));
        members.push(("message".to_string(), crate::json::JsonValue::Str(message.to_string())));
        Self::fresh(MessageKind::Error, from, to, crate::json::JsonValue::Object(members), Some(reply_to))
    }

    /// Whether this is a request.
    pub fn is_request(&self) -> (r: bool)
        ensures
            r == (self.kind == MessageKind::Request),
    {
        match self.kind {
            MessageKind::Request => true,
            _ => false,
        }
    }

    /// Whether this is an error reply.
    pub fn is_error(&self) -> (r: bool)
        ensures
            r == (self.kind == MessageKind::Error),
    {
        match self.kind {
            MessageKind::Error => true,
            _ => false,
        }
    }
}

/// Whether `p` is the object `{"code": code, "message": message}`.
pub open spec fn error_payload(p: crate::json::JsonValue, code: Seq<char>, message: Seq<char>) -> bool {
    match p {
        crate::json::JsonValue::Object(m) => m@.len() == 2 && m@[0].0@ == "code"@ && m@[1].0@
            == "message"@ && (match m@[0].1 {
            crate::json::JsonValue::Str(c) => c@ == code,
            _ => false,
        }) && (match m@[1].1 {
            crate::json::JsonValue::Str(t) => t@ == message,
            _ => false,
        }),
        _ => false,
    }
}

/// The string member `key` of a payload, or `d`.
pub open spec fn payload_text(p: crate::json::JsonValue, key: Seq<char>, d: Seq<char>) -> Seq<char> {
    match crate::json::json_get(p, key) {
        Some(crate::json::JsonValue::Str(s)) => s@,
        _ => d,
    }
}

/// What a service call answers once its reply came: the reply's payload,
/// or for an error reply its `code: message`.
pub fn call_outcome(reply: ModuleMessage) -> (r: Result<crate::json::JsonValue, CouplingError>)
    ensures
        reply.kind != MessageKind::Error ==> r == Ok::<crate::json::JsonValue, CouplingError>(
            reply.payload,
        ),
        reply.kind == MessageKind::Error ==> (r matches Err(CouplingError::ServiceError(m)) && m@
            == payload_text(reply.payload, "code"@, "UNKNOWN"@) + ": "@ + payload_text(
            reply.payload,
            "message"@,
            "no message"@,
        )),
{
    if reply.is_error() {
        let code = match reply.payload.get("code") {
            Some(v) => match v.as_str() {
                Some(c) => c,
                None => "UNKNOWN",
            },
            None => "UNKNOWN",
        };
        let msg = match reply.payload.get("message") {
            Some(v) => match v.as_str() {
                Some(m) => m,
                None => "no message",
            },
            None => "no message",
        };
        Err(CouplingError::ServiceError(concat3(code, ": ", msg)))
    } else {
        Ok(reply.payload)
    }
}

/// The request that a reply answers; a reply without one breaks the
/// protocol.
pub fn reply_target(msg: &ModuleMessage) -> (r: Result<&str, CouplingError>)
    ensures
        match msg.reply_to {
            Some(t) => r matches Ok(s) && s@ == t@,
            None => r matches Err(CouplingError::Protocol(m)) && m@ == "response missing reply_to"@,
        },
{
    match &msg.reply_to {
        Some(t) => Ok(t.as_str()),
        None => Err(CouplingError::Protocol("response missing reply_to".to_string())),
    }
}

/// A message handed to a module: a request for it, or a reply to one of
/// its own requests.
#[derive(Debug)]
pub enum MessageEvent {
    Request(ModuleMessage),
    Response(ModuleMessage),
}

impl MessageEvent {
    /// The message, whichever way it came.
    pub fn message(&self) -> (r: &ModuleMessage)
        ensures
            *r == match *self {
                MessageEvent::Request(m) => m,
                MessageEvent::Response(m) => m,
            },
    {
        match self {
            MessageEvent::Request(m) => m,
            MessageEvent::Response(m) => m,
        }
    }
}

} // verus!
