use vstd::prelude::*;
use crate::settings::{
    ProviderKind, ProviderOAuthState, ProviderTransport, provider_label, provider_label_text, protocol_pair_of,
    sidebar_kind, sidebar_provider_kind,
};
use crate::endpoints::{ProviderConfig, presets_of, provider_endpoint_presets, preset_view};
use crate::text::{trim_str, trim_text};
use crate::theme::same_text;

verus! {

/// The providers listed in the settings sidebar, in order.
pub open spec fn sidebar_providers() -> Seq<ProviderKind> {
    seq![
        ProviderKind::Anthropic,
        ProviderKind::OpenAI,
        ProviderKind::ChatGPT,
        ProviderKind::GitHubCopilot,
        ProviderKind::OpenAICompatible,
        ProviderKind::MiniMax,
        ProviderKind::Moonshot,
        ProviderKind::ZAI,
        ProviderKind::DeepSeek,
        ProviderKind::Groq,
        ProviderKind::Gemini,
        ProviderKind::Ollama,
        ProviderKind::OpenRouter,
        ProviderKind::Mistral,
        ProviderKind::Together,
        ProviderKind::Cohere,
        ProviderKind::Perplexity,
        ProviderKind::XAI,
    ]
}

/// The providers listed in the settings sidebar, in order.
pub fn sidebar_provider_list() -> (r: Vec<ProviderKind>)
    ensures
        r@ == sidebar_providers(),
{
    let r = vec![
        ProviderKind::Anthropic,
        ProviderKind::OpenAI,
        ProviderKind::ChatGPT,
        ProviderKind::GitHubCopilot,
        ProviderKind::OpenAICompatible,
        ProviderKind::MiniMax,
        ProviderKind::Moonshot,
        ProviderKind::ZAI,
        ProviderKind::DeepSeek,
        ProviderKind::Groq,
        ProviderKind::Gemini,
        ProviderKind::Ollama,
        ProviderKind::OpenRouter,
        ProviderKind::Mistral,
        ProviderKind::Together,
        ProviderKind::Cohere,
        ProviderKind::Perplexity,
        ProviderKind::XAI,
    ];
    proof {
        assert(r@ =~= sidebar_providers());
    }
    r
}

/// The labels of the sidebar providers.
pub fn provider_options() -> (r: Vec<String>)
    ensures
        r@.map_values(|s: String| s@) == sidebar_providers().map_values(|p: ProviderKind| provider_label_text(p)),
{
    let providers = sidebar_provider_list();
    let mut r: Vec<String> = Vec::new();
    let mut i: usize = 0;
    while i < providers.len()
        invariant
            providers@ == sidebar_providers(),
            i <= providers@.len(),
            r@.map_values(|s: String| s@) == providers@.take(i as int).map_values(|p: ProviderKind| provider_label_text(p)),
        decreases providers@.len() - i,
    {
        let ghost before = r@.map_values(|s: String| s@);
        let label = provider_label(&providers[i]).to_owned();
        r.push(label);
        proof {
            assert(r@.map_values(|s: String| s@) =~= before.push(label@));
            assert(providers@.take(i + 1).map_values(|p: ProviderKind| provider_label_text(p)) =~= providers@.take(i as int).map_values(|p: ProviderKind| provider_label_text(p)).push(provider_label_text(providers@[i as int])));
        }
        i = i + 1;
    }
    proof {
        assert(providers@.take(i as int) =~= providers@);
    }
    r
}

/// The option for following the active provider in suggestions.
pub open spec fn same_as_active() -> Seq<char> {
    "Same as active provider"@
}

/// The choices of provider for inline suggestions: the active provider,
/// then every sidebar provider.
pub fn suggestion_provider_options() -> (r: Vec<String>)
    ensures
        r@.map_values(|s: String| s@) == seq![same_as_active()] + sidebar_providers().map_values(|p: ProviderKind| provider_label_text(p)),
{
    let mut r: Vec<String> = Vec::new();
    r.push("Same as active provider".to_owned());
    let ghost first = r@.map_values(|s: String| s@);
    let rest = provider_options();
    let mut i: usize = 0;
    while i < rest.len()
        invariant
            i <= rest@.len(),
            first == seq![same_as_active()],
            r@.map_values(|s: String| s@) == first + rest@.take(i as int).map_values(|s: String| s@),
        decreases rest@.len() - i,
    {
        let ghost before = r@.map_values(|s: String| s@);
        let item = rest[i].clone();
        r.push(item);
        proof {
            assert(r@.map_values(|s: String| s@) =~= before.push(item@));
            assert(rest@.take(i + 1).map_values(|s: String| s@) =~= rest@.take(i as int).map_values(|s: String| s@).push(rest@[i as int]@));
        }
        i = i + 1;
    }
    proof {
        assert(rest@.take(i as int) =~= rest@);
    }
    r
}

/// The suggestion provider shown for a configured one (its sidebar entry),
/// or the "same as active" choice.
pub fn suggestion_provider_label(provider: Option<&ProviderKind>) -> (r: String)
    ensures
        r@ == match provider {
            Some(p) => provider_label_text(sidebar_kind(*p)),
            None => same_as_active(),
        },
{
    match provider {
        Some(p) => provider_label(&sidebar_provider_kind(p)).to_owned(),
        None => "Same as active provider".to_owned(),
    }
}

/// The first sidebar provider with this label, from `k` on.
pub open spec fn provider_with_label(ps: Seq<ProviderKind>, label: Seq<char>, k: int) -> Option<ProviderKind>
    decreases ps.len() - k,
{
    if k < 0 || k >= ps.len() {
        None
    } else if provider_label_text(ps[k]) == label {
        Some(ps[k])
    } else {
        provider_with_label(ps, label, k + 1)
    }
}

/// The suggestion provider chosen by a label: none for "same as active",
/// else the sidebar provider with that label.
pub fn suggestion_provider_from_label(label: &str) -> (r: Option<ProviderKind>)
    ensures
        r == (if label@ == same_as_active() {
            None
        } else {
            provider_with_label(sidebar_providers(), label@, 0)
        }),
{
    if same_text(label, "Same as active provider") {
        return None;
    }
    let providers = sidebar_provider_list();
    let mut i: usize = 0;
    while i < providers.len()
        invariant
            providers@ == sidebar_providers(),
            i <= providers@.len(),
            !(label@ == same_as_active()),
            provider_with_label(sidebar_providers(), label@, 0) == provider_with_label(providers@, label@, i as int),
        decreases providers@.len() - i,
    {
        if same_text(provider_label(&providers[i]), label) {
            return Some(providers[i]);
        }
        i = i + 1;
    }
    None
}

/// The icon of a provider's sidebar entry.
pub open spec fn provider_icon(p: ProviderKind) -> Seq<char> {
    match sidebar_kind(p) {
        ProviderKind::Anthropic => "providers/anthropic.svg"@,
        ProviderKind::OpenAI => "providers/openai.svg"@,
        ProviderKind::ChatGPT => "providers/openai.svg"@,
        ProviderKind::GitHubCopilot => "providers/githubcopilot.svg"@,
        ProviderKind::OpenAICompatible => "phosphor/plugs-connected.svg"@,
        ProviderKind::MiniMax => "providers/minimax.svg"@,
        ProviderKind::Moonshot => "providers/moonshot.svg"@,
        ProviderKind::ZAI => "providers/zai.svg"@,
        ProviderKind::DeepSeek => "providers/deepseek.svg"@,
        ProviderKind::Groq => "providers/groq.svg"@,
        ProviderKind::Gemini => "providers/gemini.svg"@,
        ProviderKind::Ollama => "providers/ollama.svg"@,
        ProviderKind::OpenRouter => "providers/openrouter.svg"@,
        ProviderKind::Mistral => "providers/mistral.svg"@,
        ProviderKind::Together => "providers/together.svg"@,
        ProviderKind::Cohere => "providers/cohere.svg"@,
        ProviderKind::Perplexity => "providers/perplexity.svg"@,
        ProviderKind::XAI => "providers/xai.svg"@,
        _ => "phosphor/plugs-connected.svg"@,
    }
}

/// The icon of a provider's sidebar entry.
pub fn provider_icon_path(provider: &ProviderKind) -> (r: &'static str)
    ensures
        r@ == provider_icon(*provider),
{
    match sidebar_provider_kind(provider) {
        ProviderKind::Anthropic => "providers/anthropic.svg",
        ProviderKind::OpenAI => "providers/openai.svg",
        ProviderKind::ChatGPT => "providers/openai.svg",
        ProviderKind::GitHubCopilot => "providers/githubcopilot.svg",
        ProviderKind::OpenAICompatible => "phosphor/plugs-connected.svg",
        ProviderKind::MiniMax => "providers/minimax.svg",
        ProviderKind::Moonshot => "providers/moonshot.svg",
        ProviderKind::ZAI => "providers/zai.svg",
        ProviderKind::DeepSeek => "providers/deepseek.svg",
        ProviderKind::Groq => "providers/groq.svg",
        ProviderKind::Gemini => "providers/gemini.svg",
        ProviderKind::Ollama => "providers/ollama.svg",
        ProviderKind::OpenRouter => "providers/openrouter.svg",
        ProviderKind::Mistral => "providers/mistral.svg",
        ProviderKind::Together => "providers/together.svg",
        ProviderKind::Cohere => "providers/cohere.svg",
        ProviderKind::Perplexity => "providers/perplexity.svg",
        ProviderKind::XAI => "providers/xai.svg",
        _ => "phosphor/plugs-connected.svg",
    }
}

/// Placeholder of the API key field.
pub fn provider_api_key_placeholder(provider: &ProviderKind) -> (r: &'static str)
    ensures
        r@ == match *provider {
            ProviderKind::ChatGPT | ProviderKind::GitHubCopilot => "Override for advanced setups"@,
            ProviderKind::OpenAICompatible => "Optional, or OPENAI_API_KEY"@,
            _ => "sk-.. or OPENAI_API_KEY"@,
        },
{
    match provider {
        ProviderKind::ChatGPT | ProviderKind::GitHubCopilot => "Override for advanced setups",
        ProviderKind::OpenAICompatible => "Optional, or OPENAI_API_KEY",
        _ => "sk-.. or OPENAI_API_KEY",
    }
}

/// Label of the API key field.
pub fn provider_api_key_label(provider: &ProviderKind) -> (r: &'static str)
    ensures
        r@ == match *provider {
            ProviderKind::ChatGPT => "Access Token Override"@,
            ProviderKind::GitHubCopilot => "API Key Override"@,
            _ => "API Key"@,
        },
{
    match provider {
        ProviderKind::ChatGPT => "Access Token Override",
        ProviderKind::GitHubCopilot => "API Key Override",
        _ => "API Key",
    }
}

/// Hint under the API key field.
pub fn provider_api_key_hint(provider: &ProviderKind) -> (r: &'static str)
    ensures
        r@ == match *provider {
            ProviderKind::ChatGPT => "Leave blank for ChatGPT OAuth."@,
            ProviderKind::GitHubCopilot => "Leave blank for GitHub OAuth."@,
            ProviderKind::OpenAICompatible => "Optional for local endpoints; use a key or env var when required."@,
            _ => "Key or env var name"@,
        },
{
    match provider {
        ProviderKind::ChatGPT => "Leave blank for ChatGPT OAuth.",
        ProviderKind::GitHubCopilot => "Leave blank for GitHub OAuth.",
        ProviderKind::OpenAICompatible => "Optional for local endpoints; use a key or env var when required.",
        _ => "Key or env var name",
    }
}

/// Hint under the base URL field.
pub fn provider_base_url_hint(provider: &ProviderKind) -> (r: &'static str)
    ensures
        r@ == (if presets_of(*provider).len() == 0 {
            "Blank for the default"@
        } else {
            "Blank for provider default"@
        }),
{
    let presets = provider_endpoint_presets(provider);
    proof {
        assert(presets@.map_values(|p: crate::endpoints::EndpointPreset| preset_view(p)).len() == presets@.len());
    }
    if presets.len() == 0 {
        "Blank for the default"
    } else {
        "Blank for provider default"
    }
}

/// Whether a text field holds something besides whitespace.
pub open spec fn filled(o: Option<String>) -> bool {
    o matches Some(s) && trim_text(s@).len() > 0
}

fn is_filled(o: &Option<String>) -> (r: bool)
    ensures
        r == filled(*o),
{
    match o {
        Some(s) => !trim_str(s.as_str()).is_empty(),
        None => false,
    }
}

/// Whether a provider configuration can authenticate: a key or key
/// variable, or (for an OpenAI-compatible endpoint) a base URL.
pub open spec fn has_auth_signal(p: ProviderKind, c: ProviderConfig) -> bool {
    filled(c.api_key) || filled(c.api_key_env) || (p == ProviderKind::OpenAICompatible && filled(c.base_url))
}

/// Whether a provider configuration can authenticate.
pub fn provider_config_has_auth_signal(provider: &ProviderKind, config: &ProviderConfig) -> (r: bool)
    ensures
        r == has_auth_signal(*provider, *config),
{
    if is_filled(&config.api_key) || is_filled(&config.api_key_env) {
        return true;
    }
    *provider == ProviderKind::OpenAICompatible && is_filled(&config.base_url)
}

/// Whether an OAuth provider is signed in (or signing in): a cached token
/// or a sign-in state that says so.
pub fn provider_oauth_ready(oauth_cache_present: bool, oauth_state: Option<&ProviderOAuthState>) -> (r: bool)
    ensures
        r == (oauth_cache_present || (oauth_state matches Some(s) && (s.connected || s.in_progress))),
{
    oauth_cache_present || match oauth_state {
        Some(s) => s.connected || s.in_progress,
        None => false,
    }
}

/// The configuration given for provider `k`: the first entry for it.
pub open spec fn config_of(configs: Seq<(ProviderKind, ProviderConfig)>, k: ProviderKind, i: int) -> Option<ProviderConfig>
    decreases configs.len() - i,
{
    if i < 0 || i >= configs.len() {
        None
    } else if configs[i].0 == k {
        Some(configs[i].1)
    } else {
        config_of(configs, k, i + 1)
    }
}

/// Whether provider `k` has a configuration that can authenticate.
pub open spec fn configured(configs: Seq<(ProviderKind, ProviderConfig)>, k: ProviderKind) -> bool {
    config_of(configs, k, 0) matches Some(c) && has_auth_signal(k, c)
}

fn has_config(configs: &Vec<(ProviderKind, ProviderConfig)>, kind: ProviderKind) -> (r: bool)
    ensures
        r == configured(configs@, kind),
{
    let mut i: usize = 0;
    while i < configs.len()
        invariant
            i <= configs@.len(),
            config_of(configs@, kind, 0) == config_of(configs@, kind, i as int),
        decreases configs@.len() - i,
    {
        if configs[i].0 == kind {
            return provider_config_has_auth_signal(&kind, &configs[i].1);
        }
        i = i + 1;
    }
    false
}

/// Whether a sidebar entry shows as configured: signed in, or either of
/// its protocol variants has a configuration that can authenticate.
/// `configs` holds each provider's configuration (the one being edited as
/// it stands in the form).
pub fn provider_is_configured(
    provider: &ProviderKind,
    oauth_cache_present: bool,
    oauth_state: Option<&ProviderOAuthState>,
    configs: &Vec<(ProviderKind, ProviderConfig)>,
) -> (r: bool)
    ensures
        r == (oauth_cache_present || (oauth_state matches Some(s) && (s.connected || s.in_progress))
            || configured(configs@, sidebar_kind(*provider)) || match protocol_pair_of(*provider) {
                Some((_, a)) => configured(configs@, a),
                None => false,
            }),
{
    let sidebar = sidebar_provider_kind(provider);
    if provider_oauth_ready(oauth_cache_present, oauth_state) {
        return true;
    }
    has_config(configs, sidebar) || match sidebar {
        ProviderKind::MiniMax => has_config(configs, ProviderKind::MiniMaxAnthropic),
        ProviderKind::Moonshot => has_config(configs, ProviderKind::MoonshotAnthropic),
        ProviderKind::ZAI => has_config(configs, ProviderKind::ZAIAnthropic),
        _ => false,
    }
}

/// The provider selected when a sidebar entry is clicked: its variant for
/// the saved transport (OpenAI when none is saved), else the entry.
pub fn preferred_sidebar_provider(saved_transport: Option<ProviderTransport>, clicked_provider: &ProviderKind) -> (r:
    ProviderKind)
    ensures
        r == match protocol_pair_of(*clicked_provider) {
            Some((o, a)) => match saved_transport {
                Some(ProviderTransport::Anthropic) => a,
                _ => o,
            },
            None => sidebar_kind(*clicked_provider),
        },
{
    let sidebar = sidebar_provider_kind(clicked_provider);
    let transport = match saved_transport {
        Some(t) => t,
        None => ProviderTransport::OpenAI,
    };
    match crate::settings::provider_for_transport(&sidebar, transport) {
        Some(p) => p,
        None => sidebar,
    }
}

/// The provider to use given its sidebar entry's saved transport: the
/// variant for that transport, or the provider itself when none is saved.
pub fn provider_for_saved_transport(saved_transport: Option<ProviderTransport>, provider: &ProviderKind) -> (r:
    ProviderKind)
    ensures
        r == match saved_transport {
            None => *provider,
            Some(t) => match protocol_pair_of(*provider) {
                Some((o, a)) => match t {
                    ProviderTransport::OpenAI => o,
                    ProviderTransport::Anthropic => a,
                },
                None => *provider,
            },
        },
{
    let sidebar = sidebar_provider_kind(provider);
    match saved_transport {
        None => *provider,
        Some(t) => match crate::settings::provider_for_transport(&sidebar, t) {
            Some(p) => p,
            None => *provider,
        },
    }
}

/// The transport saved for sidebar entry `k`: the first entry for it in
/// `transports`.
pub open spec fn transport_of(transports: Seq<(ProviderKind, ProviderTransport)>, k: ProviderKind, i: int) -> Option<
    ProviderTransport,
>
    decreases transports.len() - i,
{
    if i < 0 || i >= transports.len() {
        None
    } else if transports[i].0 == k {
        Some(transports[i].1)
    } else {
        transport_of(transports, k, i + 1)
    }
}

pub(crate) fn saved_transport_for(transports: &Vec<(ProviderKind, ProviderTransport)>, kind: ProviderKind) -> (r: Option<
    ProviderTransport,
>)
    ensures
        r == transport_of(transports@, kind, 0),
{
    let mut i: usize = 0;
    while i < transports.len()
        invariant
            i <= transports@.len(),
            transport_of(transports@, kind, 0) == transport_of(transports@, kind, i as int),
        decreases transports@.len() - i,
    {
        if transports[i].0 == kind {
            return Some(transports[i].1);
        }
        i = i + 1;
    }
    None
}

/// The provider that makes suggestions: the one chosen for suggestions,
/// else the active provider, switched to the variant of the transport
/// saved for its sidebar entry (`transports` holds the saved transport of
/// each sidebar entry).
pub fn effective_suggestion_provider(
    suggestion_provider: Option<ProviderKind>,
    active_provider: ProviderKind,
    transports: &Vec<(ProviderKind, ProviderTransport)>,
) -> (r: ProviderKind)
    ensures
        ({
            let chosen = match suggestion_provider {
                Some(p) => p,
                None => active_provider,
            };
            match transport_of(transports@, sidebar_kind(chosen), 0) {
                None => r == chosen,
                Some(t) => r == match protocol_pair_of(chosen) {
                    Some((o, a)) => match t {
                        ProviderTransport::OpenAI => o,
                        ProviderTransport::Anthropic => a,
                    },
                    None => chosen,
                },
            }
        }),
{
    let chosen = match suggestion_provider {
        Some(p) => p,
        None => active_provider,
    };
    let saved = saved_transport_for(transports, sidebar_provider_kind(&chosen));
    provider_for_saved_transport(saved, &chosen)
}

/// The suggestion provider the settings keep for the choice labelled
/// `label`: none for the active provider's entry, else the chosen sidebar
/// provider switched to the variant of its saved transport.
pub fn suggestion_provider_setting(label: &str, transports: &Vec<(ProviderKind, ProviderTransport)>) -> (r: Option<
    ProviderKind,
>)
    ensures
        r == match (if label@ == same_as_active() {
            None
        } else {
            provider_with_label(sidebar_providers(), label@, 0)
        }) {
            None => None,
            Some(p) => Some(match transport_of(transports@, sidebar_kind(p), 0) {
                None => p,
                Some(t) => match protocol_pair_of(p) {
                    Some((o, a)) => match t {
                        ProviderTransport::OpenAI => o,
                        ProviderTransport::Anthropic => a,
                    },
                    None => p,
                },
            }),
        },
{
    match suggestion_provider_from_label(label) {
        None => None,
        Some(p) => {
            let saved = saved_transport_for(transports, sidebar_provider_kind(&p));
            Some(provider_for_saved_transport(saved, &p))
        },
    }
}

} // verus!
