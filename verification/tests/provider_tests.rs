use asi::provider::{
    bearer, chat_completions_url, chunk_payload, default_providers, is_retryable, model_info, should_use_fallback,
    ModelRegistry, ProviderConfig, ProviderError, ProviderName,
};

#[test]
fn retryable_errors() {
    assert!(is_retryable(&ProviderError::Http("timeout".into())));
    assert!(is_retryable(&ProviderError::Api { status: 503, message: "x".into() }));
    assert!(!is_retryable(&ProviderError::Api { status: 401, message: "x".into() }));
    assert!(is_retryable(&ProviderError::Unavailable("x".into())));
    assert!(!is_retryable(&ProviderError::Parse("x".into())));
    assert!(should_use_fallback(&ProviderError::Http("t".into()), true));
    assert!(!should_use_fallback(&ProviderError::Http("t".into()), false));
}

#[test]
fn provider_error_messages() {
    assert_eq!(ProviderError::Unavailable("gone".into()).message(), "Provider not available: gone");
}

#[test]
fn default_providers_follow_the_environment() {
    let none: Vec<(String, String)> = vec![];
    let r = default_providers(&none);
    assert_eq!(r.len(), 1);
    match &r[0] {
        ProviderConfig::Ollama { model, base_url } => {
            assert_eq!(model, "gemma4:31b-cloud");
            assert_eq!(base_url, "http://localhost:11434/v1");
        }
        _ => panic!("expected ollama"),
    }
    let vars = vec![("DEEPSEEK_API_KEY".to_string(), "k".to_string()), ("OLLAMA_MODEL".to_string(), "m".to_string())];
    let r = default_providers(&vars);
    assert_eq!(r.len(), 2);
    assert!(matches!(&r[0], ProviderConfig::DeepSeek { api_key, model } if api_key == "k" && model == "deepseek-chat"));
    assert!(matches!(&r[1], ProviderConfig::Ollama { model, .. } if model == "m"));
}

#[test]
fn wire_details() {
    assert_eq!(chat_completions_url("https://api.x/v1"), "https://api.x/v1/chat/completions");
    assert_eq!(bearer("abc"), "Bearer abc");
    assert_eq!(chunk_payload("data: {\"a\":1}\ndata: {\"b\":2}"), Some("{\"a\":1}".to_string()));
    assert_eq!(chunk_payload(": ping\ndata: [DONE]\n"), None);
    assert_eq!(chunk_payload("data: [DONE]\ndata: x\n"), Some("x".to_string()));
}

struct Named(&'static str);

impl ProviderName for Named {
    fn name(&self) -> &'static str {
        self.0
    }
}

#[test]
fn registry_switches_and_lists() {
    let mut reg = ModelRegistry::new(vec![Named("deepseek"), Named("ollama")]);
    assert_eq!(reg.active().0, "deepseek");
    assert!(reg.switch_active(1).is_ok());
    assert_eq!(reg.active().0, "ollama");
    assert_eq!(reg.switch_active(5), Err("Invalid provider index: 5".to_string()));
    let models = reg.list_models();
    assert_eq!(models.len(), 2);
    assert_eq!(models[0].id, "deepseek");
    assert!(models[1].available);
    let info = model_info("x");
    assert_eq!((info.id.as_str(), info.provider.as_str()), ("x", "x"));
}
