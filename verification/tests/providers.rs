use std::collections::HashMap;

use liter_llm::provider::{
    all_providers, complex_provider_names, detect_provider, registry_find, ConfigDrivenProvider,
    DetectedProvider, OpenAiCompatibleProvider, OpenAiProvider, Provider, ProviderConfig,
    ProviderRegistry,
};

fn entry(name: &str, base_url: Option<&str>, prefixes: Option<Vec<&str>>) -> ProviderConfig {
    ProviderConfig {
        name: name.to_string(),
        display_name: None,
        base_url: base_url.map(|s| s.to_string()),
        auth: None,
        endpoints: None,
        model_prefixes: prefixes.map(|v| v.into_iter().map(|s| s.to_string()).collect()),
        param_mappings: None,
    }
}

fn registry() -> ProviderRegistry {
    let mut mappings = HashMap::new();
    mappings.insert("max_tokens".to_string(), "max_output_tokens".to_string());
    let mut groq = entry("groq", Some("https://api.groq.com/openai/v1"), Some(vec!["groq/"]));
    groq.param_mappings = Some(mappings);
    ProviderRegistry {
        providers: vec![
            groq,
            entry("mistral", Some("https://api.mistral.ai/v1"), Some(vec!["mistral-", "mistral/"])),
            entry("nobase", None, Some(vec!["nobase-"])),
            entry("deepseek", Some("https://api.deepseek.com"), Some(vec!["deepseek-"])),
            entry("deepseek", Some("https://second.example"), None),
        ],
        complex_providers: vec!["bedrock".to_string(), "vertex_ai".to_string()],
    }
}

#[test]
fn openai_models_are_recognised() {
    let p = OpenAiProvider;
    for m in ["gpt-4o", "o1-mini", "o3-mini", "o4-mini", "dall-e-3", "whisper-1", "tts-1", "text-embedding-3-small", "chatgpt-x"] {
        assert!(p.matches_model(m), "{m}");
    }
    assert!(!p.matches_model("llama-3"));
    assert!(!p.matches_model("gpt4"));
    assert_eq!(p.name(), "openai");
    assert_eq!(p.base_url(), "https://api.openai.com/v1");
    assert_eq!(p.strip_model_prefix("openai/gpt-4o"), "openai/gpt-4o");
}

#[test]
fn bearer_headers() {
    let (k, v) = OpenAiProvider.auth_header("sk-1");
    assert_eq!(k, "Authorization");
    assert_eq!(v, "Bearer sk-1");
}

#[test]
fn default_paths_and_streaming() {
    let p = ConfigDrivenProvider::new(entry("groq", None, None));
    assert_eq!(p.chat_completions_path(), "/chat/completions");
    assert_eq!(p.embeddings_path(), "/embeddings");
    assert_eq!(p.models_path(), "/models");
    assert!(p.supports_streaming());
    assert_eq!(p.base_url(), "");
}

#[test]
fn routing_prefix_is_stripped() {
    let p = ConfigDrivenProvider::new(entry("groq", Some("u"), None));
    assert_eq!(p.strip_model_prefix("groq/llama3-70b"), "llama3-70b");
    assert_eq!(p.strip_model_prefix("llama3-70b"), "llama3-70b");
    assert_eq!(p.strip_model_prefix("groqx/llama3"), "groqx/llama3");
    assert_eq!(p.strip_model_prefix("groq"), "groq");
}

#[test]
fn compatible_provider_matches_its_prefixes() {
    let p = OpenAiCompatibleProvider {
        name: "local".to_string(),
        base_url: "http://localhost:1234/v1".to_string(),
        env_var: "LOCAL_KEY".to_string(),
        model_prefixes: vec!["local-".to_string(), "lm-".to_string()],
    };
    assert!(p.matches_model("lm-7b"));
    assert!(!p.matches_model("gpt-4"));
    assert_eq!(p.strip_model_prefix("local/lm-7b"), "lm-7b");
}

#[test]
fn config_driven_without_prefixes_matches_nothing() {
    let p = ConfigDrivenProvider::new(entry("x", Some("u"), None));
    assert!(!p.matches_model("x-1"));
}

#[test]
fn registry_lookups() {
    let reg = registry();
    assert_eq!(all_providers(&reg).len(), 5);
    assert_eq!(complex_provider_names(&reg), &["bedrock".to_string(), "vertex_ai".to_string()]);
    assert_eq!(registry_find(&reg, "mistral").map(|p| p.base_url.clone()), Some(Some("https://api.mistral.ai/v1".to_string())));
    assert_eq!(registry_find(&reg, "deepseek").and_then(|p| p.base_url.clone()).as_deref(), Some("https://api.deepseek.com"));
    assert!(registry_find(&reg, "none").is_none());
}

fn detected_name(reg: &ProviderRegistry, model: &str) -> Option<String> {
    detect_provider(reg, model).map(|p| p.name().to_string())
}

#[test]
fn detection_order() {
    let reg = registry();
    assert!(matches!(detect_provider(&reg, "gpt-4o"), Some(DetectedProvider::OpenAi(_))));
    assert_eq!(detected_name(&reg, "groq/llama3-70b").as_deref(), Some("groq"));
    assert_eq!(detected_name(&reg, "mistral-large").as_deref(), Some("mistral"));
    assert_eq!(detected_name(&reg, "deepseek-chat").as_deref(), Some("deepseek"));
    // a routing prefix that names an entry without a base URL falls through
    assert_eq!(detected_name(&reg, "nobase/x"), None);
    assert_eq!(detected_name(&reg, "nobase-x"), None);
    // an unknown routing prefix falls back to the model prefixes
    assert_eq!(detected_name(&reg, "mistral-x/y").as_deref(), Some("mistral"));
    assert_eq!(detected_name(&reg, "unknown-model"), None);
}

#[test]
fn detected_provider_keeps_the_entry() {
    let reg = registry();
    let p = detect_provider(&reg, "groq/llama3-70b").unwrap();
    assert_eq!(p.base_url(), "https://api.groq.com/openai/v1");
    assert_eq!(p.strip_model_prefix("groq/llama3-70b"), "llama3-70b");
    let (k, v) = p.auth_header("key");
    assert_eq!((k.as_str(), v.as_str()), ("Authorization", "Bearer key"));
    assert!(!p.matches_model("llama3"));
}
