use tremolite::cli::{parse_args_from, Subcommand};
use tremolite::config::{
    expand_tilde, parse_env_content, resolve_config_path, resolve_env_string, resolve_env_within, ConfigError,
};
use tremolite::datetime::{chrono_format, civil_from_days, clock_utc8, is_leap_year};
use tremolite::json::{i64_to_string, JsonValue};
use tremolite::module::{ModelRouter, ModuleError};
use tremolite::text::{parse_uint, replace_all, to_chars, trim_str, u64_to_padded};

fn s(v: &[&str]) -> Vec<String> {
    v.iter().map(|x| x.to_string()).collect()
}

#[test]
fn text_helpers() {
    assert_eq!(trim_str("  a b \n"), "a b");
    assert_eq!(u64_to_padded(7, 3), "007");
    assert_eq!(parse_uint(&to_chars("+42"), 100), Some(42));
    assert_eq!(parse_uint(&to_chars("420"), 100), None);
    let r: String = replace_all(&to_chars("aXbXc"), &to_chars("X"), &to_chars("--")).into_iter().collect();
    assert_eq!(r, "a--b--c");
    assert_eq!(
        tremolite::webhook::debug_map_string(&[("a\"b".to_string(), "c\nd".to_string())]),
        "{\"a\\\"b\": \"c\\nd\"}"
    );
    assert_eq!(i64_to_string(-15), "-15");
}

#[test]
fn datetime_conversions() {
    assert!(is_leap_year(2000) && !is_leap_year(1900) && is_leap_year(2024));
    assert_eq!(civil_from_days(0), (1970, 1, 1));
    assert_eq!(civil_from_days(19675), (2023, 11, 14));
    assert_eq!(chrono_format(1_700_000_000), "2023-11-14 22:13:20");
    assert_eq!(clock_utc8(1_700_000_000), "06:13:20");
}

#[test]
fn cli_parsing() {
    let p = parse_args_from(&s(&["tremolite", "daemon", "--port", "9000"]));
    match p.subcommand {
        Subcommand::Daemon { port, .. } => assert_eq!(port, 9000),
        _ => panic!("expected daemon"),
    }
    let p = parse_args_from(&s(&["tremolite", "-c", "x.toml"]));
    assert!(matches!(p.subcommand, Subcommand::Run));
    assert_eq!(p.config_path, Some("x.toml".to_string()));
}

#[test]
fn config_env_and_paths() {
    let env = vec![("KEY".to_string(), "v".to_string())];
    assert_eq!(resolve_env_string("a-${KEY}-b", &env).unwrap(), "a-v-b");
    assert_eq!(resolve_env_string("${NOPE}", &env), Err(ConfigError::MissingEnv("NOPE".into())));
    assert_eq!(expand_tilde("~/x", Some("/home/u")), "/home/u/x");
    assert_eq!(resolve_config_path(Some("c.toml"), false, None), "c.toml");
    let e = parse_env_content("# c\nA = 1\n\nB=two words\nbad line\n");
    assert_eq!(e, vec![("A".to_string(), "1".to_string()), ("B".to_string(), "two words".to_string())]);
}

#[test]
fn module_router_and_errors() {
    let mut r = ModelRouter::new();
    r.register("chat", "deepseek");
    r.register("code", "openai");
    r.register("chat", "ollama");
    assert_eq!(r.provider_name("chat"), Some("ollama"));
    assert_eq!(r.provider_name("code"), Some("openai"));
    assert_eq!(r.provider_name("x"), None);
    assert_eq!(ModuleError::ToolNotFound("t".into()).message(), "tool not found: t");
    assert!(matches!(JsonValue::Int(3).as_u64(), Some(3)));
}

#[test]
fn env_substitution_leaves_no_reference() {
    let env = vec![("X".to_string(), "1".to_string()), ("Y".to_string(), "2".to_string())];
    let out = resolve_env_string("a${X}b${Y}c", &env).unwrap();
    assert_eq!(out, "a1b2c");
    assert!(!out.contains("${"));
    assert_eq!(resolve_env_string("plain value", &env).unwrap(), "plain value");
    assert_eq!(resolve_env_string("open ${X", &env).unwrap(), "open ${X");
}

#[test]
fn env_substitution_through_other_variables() {
    // Values may themselves refer to variables: substitution rescans.
    let env = vec![("A".to_string(), "${B}".to_string()), ("B".to_string(), "{v}".to_string())];
    assert_eq!(resolve_env_string("x-${A}-y", &env).unwrap(), "x-{v}-y");
    assert_eq!(resolve_env_within("x-${A}-y", &env, 2), Some(Ok("x-{v}-y".to_string())));
    assert_eq!(resolve_env_within("x-${A}-y", &env, 1), None);
    assert_eq!(resolve_env_within("${A}${C}", &env, 5), Some(Err(ConfigError::MissingEnv("C".into()))));
    // A value that refers to itself never finishes.
    let looping = vec![("X".to_string(), "${X}".to_string())];
    assert_eq!(resolve_env_within("${X}", &looping, 1000), None);
    assert_eq!(resolve_env_within("no refs", &looping, 0), Some(Ok("no refs".to_string())));
}
