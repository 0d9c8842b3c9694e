use con_panes::endpoints::ProviderConfig;
use con_panes::providers::{
    effective_suggestion_provider, preferred_sidebar_provider, provider_api_key_hint, provider_api_key_label,
    provider_api_key_placeholder, provider_base_url_hint, provider_config_has_auth_signal, provider_icon_path,
    provider_is_configured, provider_oauth_ready, provider_options, provider_for_saved_transport,
    sidebar_provider_list, suggestion_provider_from_label, suggestion_provider_label, suggestion_provider_options,
};
use con_panes::settings::{ProviderKind, ProviderOAuthState, ProviderTransport};

fn config(api_key: Option<&str>, api_key_env: Option<&str>, base_url: Option<&str>) -> ProviderConfig {
    ProviderConfig {
        model: None,
        api_key: api_key.map(|s| s.to_string()),
        api_key_env: api_key_env.map(|s| s.to_string()),
        max_tokens: None,
        base_url: base_url.map(|s| s.to_string()),
    }
}

#[test]
fn sidebar_lists_eighteen_providers_in_order() {
    let list = sidebar_provider_list();
    assert_eq!(list.len(), 18);
    assert_eq!(list[0], ProviderKind::Anthropic);
    assert_eq!(list[5], ProviderKind::MiniMax);
    assert_eq!(list[17], ProviderKind::XAI);
    let options = provider_options();
    assert_eq!(options.len(), 18);
    assert_eq!(options[0], "Anthropic");
    assert_eq!(options[7], "Z.AI");
}

#[test]
fn suggestion_options_start_with_the_active_provider_entry() {
    let options = suggestion_provider_options();
    assert_eq!(options.len(), 19);
    assert_eq!(options[0], "Same as active provider");
    assert_eq!(options[1], "Anthropic");
    assert_eq!(suggestion_provider_label(None), "Same as active provider");
    assert_eq!(suggestion_provider_label(Some(&ProviderKind::ZAIAnthropic)), "Z.AI");
    assert_eq!(suggestion_provider_from_label("Same as active provider"), None);
    assert_eq!(suggestion_provider_from_label("Z.AI"), Some(ProviderKind::ZAI));
    assert_eq!(suggestion_provider_from_label("Z.AI / Anthropic"), None);
    assert_eq!(suggestion_provider_from_label("nobody"), None);
}

#[test]
fn provider_texts() {
    assert_eq!(provider_icon_path(&ProviderKind::MoonshotAnthropic), "providers/moonshot.svg");
    assert_eq!(provider_icon_path(&ProviderKind::OpenAICompatible), "phosphor/plugs-connected.svg");
    assert_eq!(provider_icon_path(&ProviderKind::ChatGPT), "providers/openai.svg");
    assert_eq!(provider_api_key_placeholder(&ProviderKind::GitHubCopilot), "Override for advanced setups");
    assert_eq!(provider_api_key_placeholder(&ProviderKind::OpenAICompatible), "Optional, or OPENAI_API_KEY");
    assert_eq!(provider_api_key_placeholder(&ProviderKind::Groq), "sk-.. or OPENAI_API_KEY");
    assert_eq!(provider_api_key_label(&ProviderKind::ChatGPT), "Access Token Override");
    assert_eq!(provider_api_key_label(&ProviderKind::Anthropic), "API Key");
    assert_eq!(provider_api_key_hint(&ProviderKind::GitHubCopilot), "Leave blank for GitHub OAuth.");
    assert_eq!(provider_base_url_hint(&ProviderKind::MiniMax), "Blank for provider default");
    assert_eq!(provider_base_url_hint(&ProviderKind::Groq), "Blank for the default");
}

#[test]
fn auth_signals() {
    assert!(provider_config_has_auth_signal(&ProviderKind::OpenAI, &config(Some("sk-1"), None, None)));
    assert!(provider_config_has_auth_signal(&ProviderKind::OpenAI, &config(None, Some("KEY"), None)));
    assert!(!provider_config_has_auth_signal(&ProviderKind::OpenAI, &config(Some("  "), None, Some("http://x"))));
    assert!(provider_config_has_auth_signal(&ProviderKind::OpenAICompatible, &config(None, None, Some("http://x"))));
    assert!(!provider_config_has_auth_signal(&ProviderKind::OpenAICompatible, &config(None, None, Some(" "))));
}

#[test]
fn oauth_readiness() {
    assert!(provider_oauth_ready(true, None));
    assert!(!provider_oauth_ready(false, None));
    let signing_in = ProviderOAuthState { in_progress: true, ..Default::default() };
    assert!(provider_oauth_ready(false, Some(&signing_in)));
    let idle = ProviderOAuthState::default();
    assert!(!provider_oauth_ready(false, Some(&idle)));
}

#[test]
fn configured_looks_at_both_protocol_variants() {
    let configs = vec![
        (ProviderKind::OpenAI, config(None, None, None)),
        (ProviderKind::ZAIAnthropic, config(Some("k"), None, None)),
    ];
    assert!(provider_is_configured(&ProviderKind::ZAI, false, None, &configs));
    assert!(provider_is_configured(&ProviderKind::ZAIAnthropic, false, None, &configs));
    assert!(!provider_is_configured(&ProviderKind::OpenAI, false, None, &configs));
    assert!(provider_is_configured(&ProviderKind::OpenAI, true, None, &configs));
    assert!(!provider_is_configured(&ProviderKind::Moonshot, false, None, &configs));
}

#[test]
fn configured_uses_the_first_entry_for_a_provider() {
    let configs = vec![
        (ProviderKind::Groq, config(None, None, None)),
        (ProviderKind::Groq, config(Some("k"), None, None)),
    ];
    assert!(!provider_is_configured(&ProviderKind::Groq, false, None, &configs));
}

#[test]
fn saved_transport_picks_the_variant() {
    assert_eq!(preferred_sidebar_provider(None, &ProviderKind::MiniMaxAnthropic), ProviderKind::MiniMax);
    assert_eq!(
        preferred_sidebar_provider(Some(ProviderTransport::Anthropic), &ProviderKind::MiniMax),
        ProviderKind::MiniMaxAnthropic
    );
    assert_eq!(preferred_sidebar_provider(Some(ProviderTransport::Anthropic), &ProviderKind::Groq), ProviderKind::Groq);
    assert_eq!(provider_for_saved_transport(None, &ProviderKind::ZAIAnthropic), ProviderKind::ZAIAnthropic);
    assert_eq!(
        provider_for_saved_transport(Some(ProviderTransport::OpenAI), &ProviderKind::ZAIAnthropic),
        ProviderKind::ZAI
    );
}

#[test]
fn suggestion_provider_follows_the_saved_transport() {
    let transports = vec![(ProviderKind::Moonshot, ProviderTransport::Anthropic)];
    assert_eq!(
        effective_suggestion_provider(None, ProviderKind::Moonshot, &transports),
        ProviderKind::MoonshotAnthropic
    );
    assert_eq!(
        effective_suggestion_provider(Some(ProviderKind::ZAIAnthropic), ProviderKind::Moonshot, &transports),
        ProviderKind::ZAIAnthropic
    );
    assert_eq!(effective_suggestion_provider(Some(ProviderKind::Groq), ProviderKind::Moonshot, &transports), ProviderKind::Groq);
}
