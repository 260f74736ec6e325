use liter_llm::client::{build_managed_client, ClientOptions};
use liter_llm::config::{CacheBackend, CacheConfig};
use liter_llm::error::{error_kind_label, format_error, LiterLlmError};

#[test]
fn labels_of_error_kinds() {
    let m = || "m".to_string();
    assert_eq!(error_kind_label(&LiterLlmError::Authentication { message: m() }), "Authentication");
    assert_eq!(error_kind_label(&LiterLlmError::RateLimited { message: m() }), "RateLimited");
    assert_eq!(error_kind_label(&LiterLlmError::BadRequest { message: m() }), "BadRequest");
    assert_eq!(
        error_kind_label(&LiterLlmError::ContextWindowExceeded { message: m() }),
        "ContextWindowExceeded"
    );
    assert_eq!(error_kind_label(&LiterLlmError::ContentPolicy { message: m() }), "ContentPolicy");
    assert_eq!(error_kind_label(&LiterLlmError::NotFound { message: m() }), "NotFound");
    assert_eq!(error_kind_label(&LiterLlmError::ServerError { message: m() }), "ServerError");
    assert_eq!(error_kind_label(&LiterLlmError::ServiceUnavailable { message: m() }), "ServiceUnavailable");
    assert_eq!(error_kind_label(&LiterLlmError::Timeout), "Timeout");
    assert_eq!(error_kind_label(&LiterLlmError::Network(m())), "Network");
    assert_eq!(error_kind_label(&LiterLlmError::Streaming { message: m() }), "Streaming");
    assert_eq!(
        error_kind_label(&LiterLlmError::EndpointNotSupported { message: m() }),
        "EndpointNotSupported"
    );
    assert_eq!(error_kind_label(&LiterLlmError::InvalidHeader { message: m() }), "InvalidHeader");
    assert_eq!(error_kind_label(&LiterLlmError::Serialization(m())), "Serialization");
    assert_eq!(error_kind_label(&LiterLlmError::BudgetExceeded { message: m() }), "BudgetExceeded");
    assert_eq!(error_kind_label(&LiterLlmError::HookRejected { message: m() }), "HookRejected");
    assert_eq!(error_kind_label(&LiterLlmError::InternalError { message: m() }), "Unknown");
}

#[test]
fn formatted_errors_carry_the_label() {
    let e = LiterLlmError::RateLimited { message: "slow down".to_string() };
    assert_eq!(format_error(&e), "[RateLimited] slow down");
    assert_eq!(format_error(&LiterLlmError::Timeout), "[Timeout] request timed out");
    assert_eq!(format_error(&LiterLlmError::InternalError { message: "x".to_string() }), "[Unknown] x");
}

fn options() -> ClientOptions<u32, String> {
    ClientOptions {
        api_key: "sk-test".to_string(),
        base_url: None,
        model_hint: None,
        timeout_secs: None,
        max_retries: None,
        cache_config: None,
        budget_config: None,
        hooks: Vec::new(),
        cooldown_secs: None,
        rate_limit_config: None,
        health_check_secs: None,
        enable_cost_tracking: false,
        enable_tracing: false,
    }
}

#[test]
fn client_from_default_options() {
    let client = build_managed_client(options()).unwrap();
    assert_eq!(client.config.api_key, "sk-test");
    assert!(client.config.base_url.is_none());
    assert!(client.config.timeout_secs.is_none());
    assert!(client.config.hooks.is_empty());
    assert!(!client.config.cost_tracking);
    assert!(!client.config.tracing);
    assert!(client.model_hint.is_none());
}

#[test]
fn client_options_are_passed_on() {
    let mut opts = options();
    opts.base_url = Some("http://localhost".to_string());
    opts.model_hint = Some("groq/llama3".to_string());
    opts.timeout_secs = Some(30);
    opts.max_retries = Some(2);
    opts.cache_config = Some(CacheConfig { max_entries: 4, ttl_secs: 9, backend: CacheBackend::Memory });
    opts.budget_config = Some(7);
    opts.hooks = vec!["audit".to_string()];
    opts.cooldown_secs = Some(5);
    opts.health_check_secs = Some(11);
    opts.enable_cost_tracking = true;
    opts.enable_tracing = true;
    let client = build_managed_client(opts).unwrap();
    assert_eq!(client.config.base_url.as_deref(), Some("http://localhost"));
    assert_eq!(client.config.timeout_secs, Some(30));
    assert_eq!(client.config.max_retries, Some(2));
    assert_eq!(client.config.cache.as_ref().map(|c| c.max_entries), Some(4));
    assert_eq!(client.config.budget, Some(7));
    assert_eq!(client.config.hooks, vec!["audit".to_string()]);
    assert_eq!(client.config.cooldown_secs, Some(5));
    assert_eq!(client.config.health_check_secs, Some(11));
    assert!(client.config.cost_tracking);
    assert!(client.config.tracing);
    assert_eq!(client.model_hint.as_deref(), Some("groq/llama3"));
}

#[test]
fn label_reads_back_from_formatted_error() {
    let errors = vec![
        LiterLlmError::ContextWindowExceeded { message: "too long] really".to_string() },
        LiterLlmError::Network("reset".to_string()),
        LiterLlmError::Timeout,
        LiterLlmError::HookRejected { message: String::new() },
    ];
    for e in &errors {
        let text = format_error(e);
        assert!(text.starts_with('['));
        let close = text.find(']').unwrap();
        assert_eq!(&text[1..close], error_kind_label(e));
        assert!(text[close..].starts_with("] "));
    }
}

#[test]
fn default_client_options_are_empty() {
    let opts: ClientOptions<u32, String> = ClientOptions::default();
    assert_eq!(opts.api_key, "");
    assert!(opts.base_url.is_none());
    assert!(opts.model_hint.is_none());
    assert!(opts.timeout_secs.is_none());
    assert!(opts.max_retries.is_none());
    assert!(opts.cache_config.is_none());
    assert!(opts.budget_config.is_none());
    assert!(opts.hooks.is_empty());
    assert!(opts.cooldown_secs.is_none());
    assert!(opts.rate_limit_config.is_none());
    assert!(opts.health_check_secs.is_none());
    assert!(!opts.enable_cost_tracking);
    assert!(!opts.enable_tracing);
}
