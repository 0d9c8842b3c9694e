use con_panes::providers::suggestion_provider_setting;
use con_panes::provider_form::provider_form_inputs;
use con_panes::endpoints::ProviderConfig;
use con_panes::provider_form::{
    api_key_source, is_env_var_text, parse_u64, provider_config_from_inputs, resolve_provider_api_key, ApiKeySource,
};
use con_panes::provider_settings::{provider_config_or_default, same_config, store_provider_config, ProviderSettings};
use con_panes::settings::{ProviderKind, ProviderTransport};

fn cfg(model: Option<&str>, key: Option<&str>, env: Option<&str>, url: Option<&str>) -> ProviderConfig {
    ProviderConfig {
        model: model.map(|s| s.to_string()),
        api_key: key.map(|s| s.to_string()),
        api_key_env: env.map(|s| s.to_string()),
        max_tokens: None,
        base_url: url.map(|s| s.to_string()),
    }
}

#[test]
fn numbers_parse_like_std() {
    for text in ["", "0", "42", "+7", "+", "-1", "12a", " 1", "18446744073709551615", "18446744073709551616", "007"] {
        assert_eq!(parse_u64(text), text.parse::<u64>().ok(), "input {text:?}");
    }
}

#[test]
fn env_var_names() {
    assert!(is_env_var_text("OPENAI_API_KEY"));
    assert!(is_env_var_text("KEY2"));
    assert!(!is_env_var_text(""));
    assert!(!is_env_var_text("sk-abc"));
    assert!(!is_env_var_text("Key"));
}

#[test]
fn form_values_become_a_config() {
    let c = provider_config_from_inputs("MY_KEY".to_string(), "".to_string(), "http://x".to_string(), "4096");
    assert_eq!(c.api_key, None);
    assert_eq!(c.api_key_env.as_deref(), Some("MY_KEY"));
    assert_eq!(c.model, None);
    assert_eq!(c.base_url.as_deref(), Some("http://x"));
    assert_eq!(c.max_tokens, Some(4096));
    let c = provider_config_from_inputs("sk-123".to_string(), "gpt".to_string(), "".to_string(), "many");
    assert_eq!(c.api_key.as_deref(), Some("sk-123"));
    assert_eq!(c.api_key_env, None);
    assert_eq!(c.model.as_deref(), Some("gpt"));
    assert_eq!(c.max_tokens, None);
    let c = provider_config_from_inputs("".to_string(), "".to_string(), "".to_string(), "");
    assert!(c.api_key.is_none() && c.api_key_env.is_none() && c.max_tokens.is_none());
}

#[test]
fn api_keys_resolve_from_the_key_or_the_variable() {
    assert!(matches!(api_key_source(&cfg(None, Some(" sk "), Some("X"), None)), ApiKeySource::Key(k) if k == "sk"));
    assert!(matches!(api_key_source(&cfg(None, Some("  "), Some(" X "), None)), ApiKeySource::EnvVar(n) if n == "X"));
    assert!(matches!(api_key_source(&cfg(None, None, None, None)), ApiKeySource::Missing));
    assert_eq!(resolve_provider_api_key(&cfg(None, Some(" sk "), None, None), None), Ok(Some("sk".to_string())));
    assert_eq!(resolve_provider_api_key(&cfg(None, None, None, None), None), Ok(None));
    let env = cfg(None, None, Some("MY_KEY"), None);
    assert_eq!(resolve_provider_api_key(&env, Some(" v ".to_string())), Ok(Some("v".to_string())));
    assert_eq!(
        resolve_provider_api_key(&env, None),
        Err("Environment variable MY_KEY is not set.".to_string())
    );
    assert_eq!(
        resolve_provider_api_key(&env, Some("  ".to_string())),
        Err("Environment variable MY_KEY is empty.".to_string())
    );
}

#[test]
fn store_replaces_or_appends() {
    let mut entries = vec![(ProviderKind::OpenAI, cfg(Some("a"), None, None, None))];
    store_provider_config(&mut entries, ProviderKind::Groq, cfg(Some("g"), None, None, None));
    store_provider_config(&mut entries, ProviderKind::OpenAI, cfg(Some("b"), None, None, None));
    assert_eq!(entries.len(), 2);
    assert_eq!(provider_config_or_default(&entries, ProviderKind::OpenAI).model.as_deref(), Some("b"));
    assert_eq!(provider_config_or_default(&entries, ProviderKind::Groq).model.as_deref(), Some("g"));
    assert!(provider_config_or_default(&entries, ProviderKind::XAI).model.is_none());
    assert!(same_config(&cfg(Some("x"), None, None, None), &cfg(Some("x"), None, None, None)));
    assert!(!same_config(&cfg(Some("x"), None, None, None), &cfg(None, None, None, None)));
}

fn settings(selected: ProviderKind, active: ProviderKind) -> ProviderSettings {
    ProviderSettings {
        active,
        selected,
        providers: Vec::new(),
        transports: Vec::new(),
        model_fetching: true,
        model_status: Some("loading".to_string()),
        model_status_error: false,
    }
}

#[test]
fn selecting_a_provider_keeps_the_form_and_loads_the_next() {
    let mut s = settings(ProviderKind::OpenAI, ProviderKind::OpenAI);
    s.providers.push((ProviderKind::Groq, cfg(Some("llama"), None, None, None)));
    let (target, loaded) = s.select_provider(ProviderKind::Groq, cfg(Some("gpt"), None, None, None));
    assert_eq!(target, ProviderKind::Groq);
    assert_eq!(loaded.unwrap().model.as_deref(), Some("llama"));
    assert_eq!(provider_config_or_default(&s.providers, ProviderKind::OpenAI).model.as_deref(), Some("gpt"));
    assert!(!s.model_fetching && s.model_status.is_none());
    let (target, loaded) = s.select_provider(ProviderKind::Groq, cfg(Some("llama"), None, None, None));
    assert_eq!(target, ProviderKind::Groq);
    assert!(loaded.is_none());
}

#[test]
fn selecting_a_two_protocol_provider_uses_its_saved_transport() {
    let mut s = settings(ProviderKind::OpenAI, ProviderKind::OpenAI);
    s.transports.push((ProviderKind::ZAI, ProviderTransport::Anthropic));
    let (target, _) = s.select_provider(ProviderKind::ZAI, cfg(None, None, None, None));
    assert_eq!(target, ProviderKind::ZAIAnthropic);
    let (target, loaded) = s.select_provider(ProviderKind::ZAI, cfg(None, None, None, None));
    assert_eq!(target, ProviderKind::ZAIAnthropic);
    assert!(loaded.is_none());
}

#[test]
fn toggling_the_protocol_seeds_the_other_variant() {
    let mut s = settings(ProviderKind::MiniMax, ProviderKind::MiniMax);
    let form = cfg(Some("m1"), None, Some("MINIMAX_KEY"), Some("https://api.minimax.io/v1"));
    let (follows, loaded) = s.toggle_selected_provider_protocol(true, form).unwrap();
    assert!(follows);
    assert_eq!(s.active, ProviderKind::MiniMaxAnthropic);
    assert_eq!(s.selected, ProviderKind::MiniMaxAnthropic);
    assert_eq!(s.transports, vec![(ProviderKind::MiniMax, ProviderTransport::Anthropic)]);
    let loaded = loaded.unwrap();
    assert_eq!(loaded.model.as_deref(), Some("m1"));
    assert_eq!(loaded.api_key_env.as_deref(), Some("MINIMAX_KEY"));
    assert_eq!(loaded.base_url.as_deref(), Some("https://api.minimax.io/anthropic"));
    assert_eq!(
        provider_config_or_default(&s.providers, ProviderKind::MiniMax).base_url.as_deref(),
        Some("https://api.minimax.io/v1")
    );
}

#[test]
fn toggling_a_single_protocol_provider_only_keeps_the_form() {
    let mut s = settings(ProviderKind::Groq, ProviderKind::OpenAI);
    assert!(s.toggle_selected_provider_protocol(true, cfg(Some("x"), None, None, None)).is_none());
    assert_eq!(s.selected, ProviderKind::Groq);
    assert_eq!(provider_config_or_default(&s.providers, ProviderKind::Groq).model.as_deref(), Some("x"));
    assert!(s.transports.is_empty());
}

#[test]
fn untouched_empty_form_adds_no_entry() {
    let mut s = settings(ProviderKind::Groq, ProviderKind::Moonshot);
    s.transports.push((ProviderKind::Moonshot, ProviderTransport::Anthropic));
    s.store_form(cfg(None, None, None, None));
    assert!(s.providers.is_empty());
    assert_eq!(s.active, ProviderKind::MoonshotAnthropic);
    s.store_form(cfg(Some("x"), None, None, None));
    assert_eq!(s.providers.len(), 1);
}

#[test]
fn active_provider_follows_only_its_own_entry() {
    let mut s = settings(ProviderKind::ZAI, ProviderKind::OpenAI);
    assert!(!s.set_active_provider_if_tracking(ProviderKind::ZAI, ProviderKind::ZAIAnthropic));
    assert_eq!(s.active, ProviderKind::OpenAI);
    s.active = ProviderKind::ZAIAnthropic;
    assert!(s.set_active_provider_if_tracking(ProviderKind::ZAI, ProviderKind::ZAI));
    assert_eq!(s.active, ProviderKind::ZAI);
}

#[test]
fn refreshing_follows_saved_transports() {
    let mut s = settings(ProviderKind::MiniMax, ProviderKind::ZAI);
    s.transports.push((ProviderKind::MiniMax, ProviderTransport::Anthropic));
    s.transports.push((ProviderKind::ZAI, ProviderTransport::OpenAI));
    s.providers.push((ProviderKind::MiniMaxAnthropic, cfg(Some("abab"), None, None, None)));
    let loaded = s.refresh_selection();
    assert_eq!(s.selected, ProviderKind::MiniMaxAnthropic);
    assert_eq!(s.active, ProviderKind::ZAI);
    assert_eq!(loaded.model.as_deref(), Some("abab"));
}

#[test]
fn suggestion_choice_follows_the_saved_transport() {
    let transports = vec![(ProviderKind::Moonshot, ProviderTransport::Anthropic)];
    assert_eq!(suggestion_provider_setting("Same as active provider", &transports), None);
    assert_eq!(suggestion_provider_setting("Moonshot", &transports), Some(ProviderKind::MoonshotAnthropic));
    assert_eq!(suggestion_provider_setting("Groq", &transports), Some(ProviderKind::Groq));
    assert_eq!(suggestion_provider_setting("unknown", &transports), None);
}

#[test]
fn form_shows_a_configuration_and_reads_it_back() {
    let mut c = cfg(Some("m"), None, Some("MY_KEY"), Some("https://api.minimax.io/v1"));
    c.max_tokens = Some(8192);
    let shown = provider_form_inputs(&ProviderKind::MiniMax, &c);
    assert_eq!(shown.key_text, "MY_KEY");
    assert_eq!(shown.model_text, "m");
    assert_eq!(shown.endpoint_label, "Global");
    assert_eq!(shown.max_tokens_text, "8192");
    let back = provider_config_from_inputs(shown.key_text, shown.model_text, shown.base_url_text, &shown.max_tokens_text);
    assert!(same_config(&back, &c));
}

#[test]
fn settings_open_on_the_active_provider() {
    let transports = vec![(ProviderKind::ZAI, ProviderTransport::Anthropic)];
    let s = ProviderSettings::new(ProviderKind::ZAI, Vec::new(), transports);
    assert_eq!(s.active, ProviderKind::ZAIAnthropic);
    assert_eq!(s.selected, ProviderKind::ZAIAnthropic);
    assert!(!s.model_fetching && s.model_status.is_none());
}
