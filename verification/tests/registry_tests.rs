use tremolite::protocol::{
    CouplingError, ModuleAuthor, ModuleDeclaration, ModuleStatus, ServiceDefinition, ServiceRegistry,
};

fn svc(name: &str) -> ServiceDefinition {
    ServiceDefinition { name: name.into(), description: format!("{} service", name) }
}

fn decl(id: &str, provides: Vec<&str>, requires: Vec<&str>, modules: Vec<&str>) -> ModuleDeclaration {
    ModuleDeclaration {
        module_id: id.into(),
        name: format!("{} module", id),
        version: "1.0.0".into(),
        author: ModuleAuthor {
            name: "a".into(),
            contact: "c".into(),
            description: "d".into(),
            license: None,
            signature: None,
        },
        provides: provides.into_iter().map(svc).collect(),
        requires: requires.into_iter().map(svc).collect(),
        required_modules: modules.into_iter().map(|m| m.to_string()).collect(),
        handlers: vec![],
    }
}

#[test]
fn registry_register_and_resolve() {
    let mut r = ServiceRegistry::new();
    assert!(r.register(decl("emotion", vec!["emotion.detect"], vec![], vec![])).is_ok());
    assert!(r.register(decl("emo2", vec!["emotion.detect", "emotion.style"], vec![], vec![])).is_ok());
    assert_eq!(r.resolve("emotion.detect"), Some("emotion".to_string()));
    assert_eq!(r.resolve_all("emotion.detect"), vec!["emotion".to_string(), "emo2".to_string()]);
    assert_eq!(r.resolve("nothing"), None);
    assert!(r.resolve_all("nothing").is_empty());
    assert!(r.has_service("emotion.style"));
    assert!(!r.has_service("memory.recall"));
    assert_eq!(r.get_declaration("emo2").unwrap().version, "1.0.0");
    let mut services = r.list_services();
    services.sort();
    assert_eq!(services, vec!["emotion.detect".to_string(), "emotion.style".to_string()]);
    let mut modules = r.list_modules();
    modules.sort();
    assert_eq!(modules, vec!["emo2".to_string(), "emotion".to_string()]);
}

#[test]
fn registry_refuses_unmet_needs() {
    let mut r = ServiceRegistry::new();
    let err = r.register(decl("m", vec!["x"], vec!["memory.recall"], vec!["core"])).unwrap_err();
    assert_eq!(err, vec![
        "module 'm' requires service 'memory.recall' (memory.recall service) which is not provided by any module".to_string(),
        "module 'm' requires module 'core' which is not registered".to_string(),
    ]);
    assert!(!r.has_service("x"));
    assert!(r.get_declaration("m").is_none());
    r.register(decl("core", vec!["memory.recall"], vec![], vec![])).unwrap();
    assert!(r.register(decl("m", vec!["x"], vec!["memory.recall"], vec!["core"])).is_ok());
    assert_eq!(r.resolve("x"), Some("m".to_string()));
}

#[test]
fn registry_health() {
    let mut r = ServiceRegistry::new();
    r.register(decl("core", vec!["a", "b"], vec![], vec![])).unwrap();
    r.register(decl("m", vec![], vec!["a"], vec![])).unwrap();
    let mut h = r.all_health();
    h.sort_by(|x, y| x.id.cmp(&y.id));
    assert_eq!(h.len(), 2);
    assert_eq!(h[0].id, "core");
    assert_eq!(h[0].services, vec!["a".to_string(), "b".to_string()]);
    assert_eq!(h[1].dependencies, vec!["a".to_string()]);
    assert_eq!(h[1].status, ModuleStatus::Running);
    assert_eq!(h[1].message_count, 0);
    assert!(h[1].last_error.is_none());
}

#[test]
fn protocol_texts() {
    assert_eq!(ModuleStatus::Degraded.as_str(), "degraded");
    assert_eq!(ModuleStatus::default(), ModuleStatus::Running);
    assert_eq!(CouplingError::Timeout(30).message(), "service call timed out after 30s");
    assert_eq!(CouplingError::Disconnected.message(), "coupling disconnected (engine shutting down)");
    assert_eq!(CouplingError::Protocol("x".into()).message(), "protocol error: x");
    assert_eq!(CouplingError::ServiceError("E".into()).message(), "service returned error: E");
}
