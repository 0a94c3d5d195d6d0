use std::cell::RefCell;
use std::rc::Rc;

use tremolite::module::{EventResponse, ModuleError};
use tremolite::registry::{Event, EventContext, Module, ModuleRegistry};

/// A module that records what happens to it in a shared log.
struct Probe {
    id: String,
    provides: Vec<String>,
    needs: Vec<String>,
    deps: Vec<String>,
    segment: Option<String>,
    log: Rc<RefCell<Vec<String>>>,
}

fn probe(id: &str, provides: &[&str], needs: &[&str], log: &Rc<RefCell<Vec<String>>>) -> Box<dyn Module> {
    Box::new(Probe {
        id: id.to_string(),
        provides: provides.iter().map(|s| s.to_string()).collect(),
        needs: needs.iter().map(|s| s.to_string()).collect(),
        deps: vec![],
        segment: Some(format!("[{id}]")),
        log: log.clone(),
    })
}

impl Module for Probe {
    fn id(&self) -> &str {
        &self.id
    }
    fn name(&self) -> &str {
        "probe"
    }
    fn version(&self) -> &str {
        "1.0"
    }
    fn provides(&self) -> Vec<String> {
        self.provides.clone()
    }
    fn required_capabilities(&self) -> Vec<String> {
        self.needs.clone()
    }
    fn required_modules(&self) -> Vec<String> {
        self.deps.clone()
    }
    fn prompt_segment(&self) -> Option<String> {
        self.segment.clone()
    }
    fn init(&mut self, _ctx: &EventContext) -> Result<(), ModuleError> {
        self.log.borrow_mut().push(format!("init {}", self.id));
        if self.id.starts_with("bad") {
            Err(ModuleError::InitFailed(format!("{} broke", self.id)))
        } else {
            Ok(())
        }
    }
    fn shutdown(&mut self) -> Result<(), ModuleError> {
        self.log.borrow_mut().push(format!("shutdown {}", self.id));
        if self.id.starts_with("bad") {
            Err(ModuleError::InitFailed(format!("{} stuck", self.id)))
        } else {
            Ok(())
        }
    }
    fn display_status(&self) -> Option<String> {
        if self.id == "st" {
            Some("st ready".to_string())
        } else {
            None
        }
    }
    fn tool_definitions(&self) -> Vec<tremolite::llm::ToolDefinition> {
        vec![]
    }
    fn on_event(&mut self, event: &Event, ctx: &EventContext) -> Result<EventResponse, ModuleError> {
        let what = match event {
            Event::ModuleRegistered { info } => format!("registered {}", info.id),
            Event::OnMessage { input, .. } => format!("message {input} in '{}'", ctx.session_id),
            _ => "other".to_string(),
        };
        self.log.borrow_mut().push(format!("{} saw {what}", self.id));
        Ok(EventResponse::Pass)
    }
    fn execute_tool(&mut self, name: &str, args: &str) -> Result<String, ModuleError> {
        Ok(format!("{}:{name}({args})", self.id))
    }
}

#[test]
fn registration_checks_needs_and_notifies_everyone() {
    let log = Rc::new(RefCell::new(Vec::new()));
    let mut reg: ModuleRegistry<dyn Module> = ModuleRegistry::new();
    match reg.register(probe("memory", &[], &["emotion.detect"], &log)) {
        Err(ModuleError::InitFailed(m)) => assert_eq!(
            m,
            "module 'memory' requires capability 'emotion.detect' which is not provided by any registered module"
        ),
        other => panic!("{other:?}"),
    }
    assert!(log.borrow().is_empty());
    assert!(reg.register(probe("emotion", &["emotion.detect"], &[], &log)).is_ok());
    assert!(reg.register(probe("memory", &["memory.recall"], &["emotion.detect"], &log)).is_ok());
    assert_eq!(
        *log.borrow(),
        vec!["emotion saw registered emotion", "emotion saw registered memory", "memory saw registered memory"]
    );
    assert!(reg.has_capability("emotion.detect"));
    assert!(reg.has_capability("memory.recall"));
    assert!(!reg.has_capability("plan.track"));
    assert!(reg.get("memory").is_some());
    assert!(reg.get("plan").is_none());
}

#[test]
fn missing_module_dependency_is_refused() {
    let log = Rc::new(RefCell::new(Vec::new()));
    let mut reg: ModuleRegistry<dyn Module> = ModuleRegistry::new();
    let m = Probe {
        id: "skill".into(),
        provides: vec![],
        needs: vec![],
        deps: vec!["memory".into()],
        segment: None,
        log: log.clone(),
    };
    match reg.register(Box::new(m)) {
        Err(ModuleError::InitFailed(m)) => assert_eq!(
            m,
            "module 'skill' requires module 'memory' which is not registered. Please add the 'memory' module to your module list."
        ),
        other => panic!("{other:?}"),
    }
}

#[test]
fn events_in_order_shutdown_in_reverse() {
    let log = Rc::new(RefCell::new(Vec::new()));
    let mut reg: ModuleRegistry<dyn Module> = ModuleRegistry::new();
    for id in ["a", "b", "c"] {
        reg.register(probe(id, &[], &[], &log)).unwrap();
    }
    log.borrow_mut().clear();
    let ctx = EventContext::with_session("s1".to_string());
    let results = reg.broadcast(&Event::OnMessage { input: "hi".into(), channel: "cli".into() }, &ctx);
    let ids: Vec<&str> = results.iter().map(|(id, _)| id.as_str()).collect();
    assert_eq!(ids, vec!["a", "b", "c"]);
    assert!(results.iter().all(|(_, r)| matches!(r, Ok(EventResponse::Pass))));
    assert_eq!(*log.borrow(), vec!["a saw message hi in 's1'", "b saw message hi in 's1'", "c saw message hi in 's1'"]);
    log.borrow_mut().clear();
    let down = reg.shutdown_all();
    let ids: Vec<&str> = down.iter().map(|(id, _)| id.as_str()).collect();
    assert_eq!(ids, vec!["c", "b", "a"]);
    assert_eq!(*log.borrow(), vec!["shutdown c", "shutdown b", "shutdown a"]);
    assert!(reg.init_all(&EventContext::new()).is_ok());
}

#[test]
fn segments_tools_and_status() {
    let log = Rc::new(RefCell::new(Vec::new()));
    let mut reg: ModuleRegistry<dyn Module> = ModuleRegistry::new();
    reg.register(probe("a", &[], &[], &log)).unwrap();
    let quiet = Probe { id: "q".into(), provides: vec![], needs: vec![], deps: vec![], segment: None, log: log.clone() };
    reg.register(Box::new(quiet)).unwrap();
    reg.register(probe("b", &[], &[], &log)).unwrap();
    let segs = reg.collect_prompt_segments();
    assert_eq!(segs, vec![("a".to_string(), "[a]".to_string()), ("b".to_string(), "[b]".to_string())]);
    assert!(reg.collect_tools().is_empty());
    assert_eq!(reg.get_display_status("a"), None);
    assert_eq!(reg.get_display_status("zzz"), None);
    assert_eq!(reg.execute_tool_on("b", "ping", "{}").unwrap(), "b:ping({})");
    match reg.execute_tool_on("nope", "ping", "{}") {
        Err(ModuleError::ToolNotFound(m)) => assert_eq!(m, "module 'nope' not found"),
        other => panic!("{other:?}"),
    }
    let h = reg.get("a").unwrap().health();
    assert_eq!((h.id.as_str(), h.name.as_str(), h.version.as_str()), ("a", "probe", "1.0"));
}

#[test]
fn model_routes() {
    let mut reg: ModuleRegistry<dyn Module> = ModuleRegistry::new();
    assert_eq!(reg.provider_for("distill"), None);
    reg.register_model_route("distill", "ollama");
    reg.register_model_route("distill", "deepseek");
    assert_eq!(reg.provider_for("distill"), Some("deepseek"));
}

#[test]
fn init_stops_at_first_failure_and_shutdown_answers_per_module() {
    let log = Rc::new(RefCell::new(Vec::new()));
    let mut reg: ModuleRegistry<dyn Module> = ModuleRegistry::new();
    for id in ["a", "bad1", "st"] {
        reg.register(probe(id, &[], &[], &log)).unwrap();
    }
    log.borrow_mut().clear();
    match reg.init_all(&EventContext::new()) {
        Err(ModuleError::InitFailed(m)) => assert_eq!(m, "bad1 broke"),
        other => panic!("{other:?}"),
    }
    assert_eq!(*log.borrow(), vec!["init a", "init bad1"]);
    assert_eq!(reg.get_display_status("st"), Some("st ready".to_string()));
    assert_eq!(reg.get_display_status("a"), None);
    let down = reg.shutdown_all();
    assert_eq!(down.len(), 3);
    assert_eq!(down[0].0, "st");
    assert!(down[0].1.is_ok());
    match &down[1] {
        (id, Err(ModuleError::InitFailed(m))) => assert_eq!((id.as_str(), m.as_str()), ("bad1", "bad1 stuck")),
        other => panic!("{other:?}"),
    }
    assert_eq!(down[2].0, "a");
    assert!(down[2].1.is_ok());
}
