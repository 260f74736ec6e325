use liter_llm::config::{
    auth_header_from_lowercase, parse_auth_header, parse_cache_config, parse_enforcement,
    parse_provider_config, parse_rate_limit_config, AuthHeaderFormat, CacheBackend, Enforcement,
};
use liter_llm::json::{JsonNumber, JsonValue};

fn num(n: u64) -> JsonValue {
    JsonValue::Number(JsonNumber { text: n.to_string(), unsigned: Some(n) })
}

fn float(text: &str) -> JsonValue {
    JsonValue::Number(JsonNumber { text: text.to_string(), unsigned: None })
}

fn text(s: &str) -> JsonValue {
    JsonValue::Str(s.to_string())
}

fn obj(members: Vec<(&str, JsonValue)>) -> JsonValue {
    JsonValue::Object(members.into_iter().map(|(k, v)| (k.to_string(), v)).collect())
}

#[test]
fn auth_header_none() {
    assert!(matches!(parse_auth_header("none"), AuthHeaderFormat::NoHeader));
    assert!(matches!(parse_auth_header("NONE"), AuthHeaderFormat::NoHeader));
}

#[test]
fn auth_header_api_key_keeps_case() {
    match parse_auth_header("api-key:X-Custom") {
        AuthHeaderFormat::ApiKey(h) => assert_eq!(h, "X-Custom"),
        _ => panic!("expected an api-key header"),
    }
    match parse_auth_header("Api-Key:X-Api-Token") {
        AuthHeaderFormat::ApiKey(h) => assert_eq!(h, "X-Api-Token"),
        _ => panic!("expected an api-key header"),
    }
}

#[test]
fn auth_header_repeated_prefix_is_stripped() {
    match parse_auth_header("API-KEY:api-key:token") {
        AuthHeaderFormat::ApiKey(h) => assert_eq!(h, "token"),
        _ => panic!("expected an api-key header"),
    }
    match auth_header_from_lowercase("api-key:", "API-KEY:") {
        AuthHeaderFormat::ApiKey(h) => assert_eq!(h, ""),
        _ => panic!("expected an api-key header"),
    }
}

#[test]
fn auth_header_non_ascii_reads_the_lowercase_form() {
    match parse_auth_header("api-\u{212A}ey:X") {
        AuthHeaderFormat::ApiKey(h) => assert_eq!(h, "x"),
        _ => panic!("expected an api-key header"),
    }
    match parse_auth_header("API-KEY:Über-Key") {
        AuthHeaderFormat::ApiKey(h) => assert_eq!(h, "über-key"),
        _ => panic!("expected an api-key header"),
    }
    match auth_header_from_lowercase("api-key:api-key:é", "API-KEY:api-key:É") {
        AuthHeaderFormat::ApiKey(h) => assert_eq!(h, "é"),
        _ => panic!("expected an api-key header"),
    }
}

#[test]
fn auth_header_bearer_default() {
    assert!(matches!(parse_auth_header("bearer"), AuthHeaderFormat::Bearer));
    assert!(matches!(parse_auth_header("something"), AuthHeaderFormat::Bearer));
    assert!(matches!(parse_auth_header(""), AuthHeaderFormat::Bearer));
}

#[test]
fn cache_config_defaults() {
    let c = parse_cache_config(&obj(vec![])).unwrap();
    assert_eq!(c.max_entries, 256);
    assert_eq!(c.ttl_secs, 300);
    assert!(matches!(c.backend, CacheBackend::Memory));
}

#[test]
fn cache_config_values_and_backend() {
    let val = obj(vec![
        ("max_entries", num(10)),
        ("ttl_seconds", num(5)),
        ("backend", text("redis")),
        (
            "backend_config",
            obj(vec![("endpoint", text("tcp://localhost")), ("db", num(1)), ("root", text("/c"))]),
        ),
    ]);
    let c = parse_cache_config(&val).unwrap();
    assert_eq!(c.max_entries, 10);
    assert_eq!(c.ttl_secs, 5);
    match c.backend {
        CacheBackend::OpenDal { scheme, config } => {
            assert_eq!(scheme, "redis");
            assert_eq!(
                config,
                vec![
                    ("endpoint".to_string(), "tcp://localhost".to_string()),
                    ("root".to_string(), "/c".to_string())
                ]
            );
        }
        _ => panic!("expected an OpenDAL backend"),
    }
}

#[test]
fn cache_config_backend_settings_repeated_keys() {
    let val = obj(vec![
        ("backend", text("fs")),
        (
            "backend_config",
            obj(vec![
                ("root", text("/a")),
                ("bucket", text("b1")),
                ("root", text("/b")),
                ("bucket", num(7)),
            ]),
        ),
    ]);
    let c = parse_cache_config(&val).unwrap();
    match c.backend {
        CacheBackend::OpenDal { scheme, config } => {
            assert_eq!(scheme, "fs");
            assert_eq!(config, vec![("root".to_string(), "/b".to_string())]);
        }
        _ => panic!("expected an OpenDAL backend"),
    }
}

#[test]
fn cache_config_non_integer_values_fall_back() {
    let val = obj(vec![("max_entries", float("1.5")), ("ttl_seconds", text("9")), ("backend", num(3))]);
    let c = parse_cache_config(&val).unwrap();
    assert_eq!(c.max_entries, 256);
    assert_eq!(c.ttl_secs, 300);
    assert!(matches!(c.backend, CacheBackend::Memory));
}

#[test]
fn cache_config_backend_without_settings() {
    let c = parse_cache_config(&obj(vec![("backend", text("s3"))])).unwrap();
    match c.backend {
        CacheBackend::OpenDal { scheme, config } => {
            assert_eq!(scheme, "s3");
            assert!(config.is_empty());
        }
        _ => panic!("expected an OpenDAL backend"),
    }
}

#[test]
fn rate_limit_config_values() {
    let c = parse_rate_limit_config(&obj(vec![("rpm", num(60)), ("tpm", num(100000)), ("window_seconds", num(30))]))
        .unwrap();
    assert_eq!(c.rpm, Some(60));
    assert_eq!(c.tpm, Some(100000));
    assert_eq!(c.window_secs, 30);
}

#[test]
fn rate_limit_config_defaults_and_truncation() {
    let c = parse_rate_limit_config(&obj(vec![("rpm", num((1u64 << 32) + 7))])).unwrap();
    assert_eq!(c.rpm, Some(7));
    assert_eq!(c.tpm, None);
    assert_eq!(c.window_secs, 60);
}

#[test]
fn enforcement_modes() {
    assert!(parse_enforcement(&obj(vec![("enforcement", text("soft"))])) == Enforcement::Soft);
    assert!(parse_enforcement(&obj(vec![("enforcement", text("hard"))])) == Enforcement::Hard);
    assert!(parse_enforcement(&obj(vec![("enforcement", text("SOFT"))])) == Enforcement::Hard);
    assert!(parse_enforcement(&obj(vec![])) == Enforcement::Hard);
}

#[test]
fn provider_config_missing_fields() {
    match parse_provider_config(&obj(vec![("base_url", text("http://x"))])) {
        Err(e) => assert_eq!(e, "missing 'name' field"),
        Ok(_) => panic!("name is required"),
    }
    match parse_provider_config(&obj(vec![("name", text("mine"))])) {
        Err(e) => assert_eq!(e, "missing 'base_url' field"),
        Ok(_) => panic!("base_url is required"),
    }
}

#[test]
fn provider_config_full() {
    let val = obj(vec![
        ("name", text("mine")),
        ("base_url", text("http://localhost:8080/v1")),
        ("auth_header", text("none")),
        ("model_prefixes", JsonValue::Array(vec![text("mine/"), num(3), text("local-")])),
    ]);
    let c = parse_provider_config(&val).unwrap();
    assert_eq!(c.name, "mine");
    assert_eq!(c.base_url, "http://localhost:8080/v1");
    assert!(matches!(c.auth_header, AuthHeaderFormat::NoHeader));
    assert_eq!(c.model_prefixes, vec!["mine/".to_string(), "local-".to_string()]);
}

#[test]
fn provider_config_defaults() {
    let c = parse_provider_config(&obj(vec![("name", text("p")), ("base_url", text("u"))])).unwrap();
    assert!(matches!(c.auth_header, AuthHeaderFormat::Bearer));
    assert!(c.model_prefixes.is_empty());
}

#[test]
fn later_member_wins() {
    let val = obj(vec![("max_entries", num(1)), ("max_entries", num(2))]);
    assert_eq!(parse_cache_config(&val).unwrap().max_entries, 2);
}
