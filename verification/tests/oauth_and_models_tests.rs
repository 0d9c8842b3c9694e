use con_panes::endpoints::ProviderConfig;
use con_panes::oauth::{OAuthOutcome, OAuthStates};
use con_panes::provider_settings::{ModelFetchOutcome, ModelFetchRequest, ProviderSettings};
use con_panes::settings::{OAuthDevicePrompt, ProviderKind};

fn prompt() -> OAuthDevicePrompt {
    OAuthDevicePrompt { verification_uri: "https://example.com/device".to_string(), user_code: "ABCD-1234".to_string() }
}

#[test]
fn oauth_sign_in_succeeds() {
    let mut states = OAuthStates { states: Vec::new() };
    assert!(states.oauth_state(ProviderKind::ChatGPT).is_none());
    states.start_provider_oauth(ProviderKind::ChatGPT);
    let s = states.oauth_state(ProviderKind::ChatGPT).unwrap();
    assert!(s.in_progress && !s.connected);
    assert_eq!(s.status_message.as_deref(), Some("Waiting for device authorization…"));
    let uri = states.oauth_prompt_received(ProviderKind::ChatGPT, prompt());
    assert_eq!(uri, "https://example.com/device");
    let s = states.oauth_state(ProviderKind::ChatGPT).unwrap();
    assert_eq!(s.prompt, Some(prompt()));
    assert_eq!(
        s.status_message.as_deref(),
        Some("Finish sign-in in your browser. Con will continue automatically.")
    );
    assert!(states.oauth_finished(ProviderKind::ChatGPT, OAuthOutcome::Authorized, ProviderKind::ChatGPT));
    let s = states.oauth_state(ProviderKind::ChatGPT).unwrap();
    assert!(!s.in_progress && s.connected && s.prompt.is_none());
    assert_eq!(s.status_message.as_deref(), Some("Authorized and stored in Con’s auth cache."));
    assert_eq!(states.states.len(), 1);
}

#[test]
fn oauth_sign_in_fails_or_ends() {
    let mut states = OAuthStates { states: Vec::new() };
    states.start_provider_oauth(ProviderKind::GitHubCopilot);
    assert!(!states.oauth_finished(ProviderKind::GitHubCopilot, OAuthOutcome::Failed("denied".to_string()), ProviderKind::GitHubCopilot));
    let s = states.oauth_state(ProviderKind::GitHubCopilot).unwrap();
    assert!(!s.in_progress && !s.connected);
    assert_eq!(s.error_message.as_deref(), Some("denied"));
    assert!(s.status_message.is_none());
    states.start_provider_oauth(ProviderKind::GitHubCopilot);
    assert!(states.oauth_state(ProviderKind::GitHubCopilot).unwrap().error_message.is_none());
    states.oauth_finished(ProviderKind::GitHubCopilot, OAuthOutcome::Ended, ProviderKind::OpenAI);
    assert_eq!(
        states.oauth_state(ProviderKind::GitHubCopilot).unwrap().error_message.as_deref(),
        Some("OAuth flow ended unexpectedly.")
    );
    assert!(!states.oauth_finished(ProviderKind::ChatGPT, OAuthOutcome::Authorized, ProviderKind::OpenAI));
}

fn settings(selected: ProviderKind) -> ProviderSettings {
    ProviderSettings {
        active: ProviderKind::OpenAI,
        selected,
        providers: Vec::new(),
        transports: Vec::new(),
        model_fetching: false,
        model_status: None,
        model_status_error: false,
    }
}

fn form(base_url: Option<&str>, key: Option<&str>, env: Option<&str>) -> ProviderConfig {
    ProviderConfig {
        model: None,
        api_key: key.map(|s| s.to_string()),
        api_key_env: env.map(|s| s.to_string()),
        max_tokens: None,
        base_url: base_url.map(|s| s.to_string()),
    }
}

#[test]
fn model_lists_are_only_fetched_for_listing_providers() {
    let mut s = settings(ProviderKind::Groq);
    assert!(s.begin_model_fetch(form(Some("http://x"), None, None), None).is_none());
    assert!(s.providers.is_empty() && s.model_status.is_none());
}

#[test]
fn openai_compatible_fetch_needs_a_base_url_and_a_key() {
    let mut s = settings(ProviderKind::OpenAICompatible);
    assert!(s.begin_model_fetch(form(Some("  "), None, None), None).is_none());
    assert_eq!(s.model_status.as_deref(), Some("Enter the provider Base URL, usually ending in /v1."));
    assert!(s.model_status_error && !s.model_fetching);
    assert!(s.begin_model_fetch(form(Some("http://x"), None, Some("LOCAL_KEY")), None).is_none());
    assert_eq!(s.model_status.as_deref(), Some("Environment variable LOCAL_KEY is not set."));
    let request = s.begin_model_fetch(form(Some(" http://x/v1 "), Some("sk"), None), None).unwrap();
    match request {
        ModelFetchRequest::OpenAICompatible { base_url, api_key } => {
            assert_eq!(base_url, "http://x/v1");
            assert_eq!(api_key.as_deref(), Some("sk"));
        }
        ModelFetchRequest::ChatGPT { .. } => panic!("wrong request"),
    }
    assert!(s.model_fetching && !s.model_status_error);
    assert_eq!(s.model_status.as_deref(), Some("Fetching models from the provider…"));
    assert!(s.begin_model_fetch(form(Some("http://y"), None, None), None).is_none());
}

#[test]
fn model_fetch_results_set_the_status() {
    let mut s = settings(ProviderKind::ChatGPT);
    assert!(matches!(s.begin_model_fetch(form(None, None, None), None), Some(ModelFetchRequest::ChatGPT { .. })));
    let rebuild = s.finish_model_fetch(ProviderKind::ChatGPT, ModelFetchOutcome::Fetched { count: 1, store_error: None }, ProviderKind::ChatGPT);
    assert_eq!(rebuild, (true, false, true));
    assert_eq!(s.model_status.as_deref(), Some("Fetched 1 model."));
    assert!(!s.model_fetching && !s.model_status_error);
    s.finish_model_fetch(ProviderKind::ChatGPT, ModelFetchOutcome::Fetched { count: 12, store_error: None }, ProviderKind::OpenAI);
    assert_eq!(s.model_status.as_deref(), Some("Fetched 12 models."));
    s.finish_model_fetch(ProviderKind::ChatGPT, ModelFetchOutcome::Fetched { count: 0, store_error: None }, ProviderKind::OpenAI);
    assert_eq!(
        s.model_status.as_deref(),
        Some("The endpoint responded, but returned no models. Type the model ID manually.")
    );
    assert!(s.model_status_error);
    s.finish_model_fetch(ProviderKind::ChatGPT, ModelFetchOutcome::Failed("timeout".to_string()), ProviderKind::OpenAI);
    assert_eq!(s.model_status.as_deref(), Some("Could not fetch models: timeout. Type the model ID manually."));
    let rebuild = s.finish_model_fetch(
        ProviderKind::OpenAICompatible,
        ModelFetchOutcome::Fetched { count: 3, store_error: Some("bad url".to_string()) },
        ProviderKind::OpenAI,
    );
    assert_eq!(rebuild, (false, false, false));
    assert_eq!(s.model_status.as_deref(), Some("bad url"));
}
