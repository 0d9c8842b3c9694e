use vstd::prelude::*;
use crate::text::{chars_of, trim_str, trim_text};
use crate::theme::same_text;

verus! {

/// A model provider that the settings know.
#[derive(Clone, Copy, Debug, PartialEq, Eq, Structural)]
pub enum ProviderKind {
    Anthropic,
    OpenAI,
    ChatGPT,
    GitHubCopilot,
    OpenAICompatible,
    MiniMax,
    MiniMaxAnthropic,
    Moonshot,
    MoonshotAnthropic,
    ZAI,
    ZAIAnthropic,
    DeepSeek,
    Groq,
    Cohere,
    Gemini,
    Ollama,
    OpenRouter,
    Perplexity,
    Mistral,
    Together,
    XAI,
}

/// Which API a provider with two protocols is reached through.
#[derive(Clone, Copy, Debug, PartialEq, Eq, Structural)]
pub enum ProviderTransport {
    OpenAI,
    Anthropic,
}

/// The label of a provider.
pub open spec fn provider_label_text(p: ProviderKind) -> Seq<char> {
    match p {
        ProviderKind::Anthropic => "Anthropic"@,
        ProviderKind::OpenAI => "OpenAI"@,
        ProviderKind::ChatGPT => "ChatGPT Subscription"@,
        ProviderKind::GitHubCopilot => "GitHub Copilot"@,
        ProviderKind::OpenAICompatible => "OpenAI Compatible"@,
        ProviderKind::MiniMax => "MiniMax"@,
        ProviderKind::MiniMaxAnthropic => "MiniMax / Anthropic"@,
        ProviderKind::Moonshot => "Moonshot"@,
        ProviderKind::MoonshotAnthropic => "Moonshot / Anthropic"@,
        ProviderKind::ZAI => "Z.AI"@,
        ProviderKind::ZAIAnthropic => "Z.AI / Anthropic"@,
        ProviderKind::DeepSeek => "DeepSeek"@,
        ProviderKind::Groq => "Groq"@,
        ProviderKind::Cohere => "Cohere"@,
        ProviderKind::Gemini => "Gemini"@,
        ProviderKind::Ollama => "Ollama"@,
        ProviderKind::OpenRouter => "OpenRouter"@,
        ProviderKind::Perplexity => "Perplexity"@,
        ProviderKind::Mistral => "Mistral"@,
        ProviderKind::Together => "Together"@,
        ProviderKind::XAI => "xAI"@,
    }
}

/// The label of a provider.
pub fn provider_label(provider: &ProviderKind) -> (r: &'static str)
    ensures
        r@ == provider_label_text(*provider),
{
    match provider {
        ProviderKind::Anthropic => "Anthropic",
        ProviderKind::OpenAI => "OpenAI",
        ProviderKind::ChatGPT => "ChatGPT Subscription",
        ProviderKind::GitHubCopilot => "GitHub Copilot",
        ProviderKind::OpenAICompatible => "OpenAI Compatible",
        ProviderKind::MiniMax => "MiniMax",
        ProviderKind::MiniMaxAnthropic => "MiniMax / Anthropic",
        ProviderKind::Moonshot => "Moonshot",
        ProviderKind::MoonshotAnthropic => "Moonshot / Anthropic",
        ProviderKind::ZAI => "Z.AI",
        ProviderKind::ZAIAnthropic => "Z.AI / Anthropic",
        ProviderKind::DeepSeek => "DeepSeek",
        ProviderKind::Groq => "Groq",
        ProviderKind::Cohere => "Cohere",
        ProviderKind::Gemini => "Gemini",
        ProviderKind::Ollama => "Ollama",
        ProviderKind::OpenRouter => "OpenRouter",
        ProviderKind::Perplexity => "Perplexity",
        ProviderKind::Mistral => "Mistral",
        ProviderKind::Together => "Together",
        ProviderKind::XAI => "xAI",
    }
}

/// Providers that sign in with OAuth rather than a key.
pub open spec fn has_oauth(p: ProviderKind) -> bool {
    p == ProviderKind::ChatGPT || p == ProviderKind::GitHubCopilot
}

/// Whether the provider signs in with OAuth.
pub fn provider_has_oauth(provider: &ProviderKind) -> (r: bool)
    ensures
        r == has_oauth(*provider),
{
    match provider {
        ProviderKind::ChatGPT | ProviderKind::GitHubCopilot => true,
        _ => false,
    }
}

/// The name of the OAuth account, for providers that have one.
pub fn provider_oauth_label(provider: &ProviderKind) -> (r: Option<&'static str>)
    ensures
        r is Some <==> has_oauth(*provider),
        *provider == ProviderKind::ChatGPT ==> (r matches Some(s) && s@ == "ChatGPT Subscription"@),
        *provider == ProviderKind::GitHubCopilot ==> (r matches Some(s) && s@ == "GitHub Copilot"@),
{
    match provider {
        ProviderKind::ChatGPT => Some("ChatGPT Subscription"),
        ProviderKind::GitHubCopilot => Some("GitHub Copilot"),
        _ => None,
    }
}

/// The sign-in button's label, for providers that have OAuth.
pub fn provider_oauth_button_label(provider: &ProviderKind) -> (r: Option<&'static str>)
    ensures
        r is Some <==> has_oauth(*provider),
        *provider == ProviderKind::ChatGPT ==> (r matches Some(s) && s@ == "Auth ChatGPT"@),
        *provider == ProviderKind::GitHubCopilot ==> (r matches Some(s) && s@ == "Auth GitHub"@),
{
    match provider {
        ProviderKind::ChatGPT => Some("Auth ChatGPT"),
        ProviderKind::GitHubCopilot => Some("Auth GitHub"),
        _ => None,
    }
}

/// The sidebar entry of a provider: Anthropic-protocol variants share the
/// entry of their provider.
pub open spec fn sidebar_kind(p: ProviderKind) -> ProviderKind {
    match p {
        ProviderKind::MiniMaxAnthropic => ProviderKind::MiniMax,
        ProviderKind::MoonshotAnthropic => ProviderKind::Moonshot,
        ProviderKind::ZAIAnthropic => ProviderKind::ZAI,
        _ => p,
    }
}

/// The (OpenAI, Anthropic) protocol variants of a provider that has both.
pub open spec fn protocol_pair_of(p: ProviderKind) -> Option<(ProviderKind, ProviderKind)> {
    match sidebar_kind(p) {
        ProviderKind::MiniMax => Some((ProviderKind::MiniMax, ProviderKind::MiniMaxAnthropic)),
        ProviderKind::Moonshot => Some((ProviderKind::Moonshot, ProviderKind::MoonshotAnthropic)),
        ProviderKind::ZAI => Some((ProviderKind::ZAI, ProviderKind::ZAIAnthropic)),
        _ => None,
    }
}

/// Whether the provider is an Anthropic-protocol variant.
pub open spec fn anthropic_protocol(p: ProviderKind) -> bool {
    p == ProviderKind::MiniMaxAnthropic || p == ProviderKind::MoonshotAnthropic || p
        == ProviderKind::ZAIAnthropic
}

/// The sidebar entry of a provider.
pub fn sidebar_provider_kind(provider: &ProviderKind) -> (r: ProviderKind)
    ensures
        r == sidebar_kind(*provider),
{
    match provider {
        ProviderKind::MiniMaxAnthropic => ProviderKind::MiniMax,
        ProviderKind::MoonshotAnthropic => ProviderKind::Moonshot,
        ProviderKind::ZAIAnthropic => ProviderKind::ZAI,
        _ => *provider,
    }
}

/// The two protocol variants of a provider, when it has them.
pub fn protocol_pair(provider: &ProviderKind) -> (r: Option<(ProviderKind, ProviderKind)>)
    ensures
        r == protocol_pair_of(*provider),
{
    match sidebar_provider_kind(provider) {
        ProviderKind::MiniMax => Some((ProviderKind::MiniMax, ProviderKind::MiniMaxAnthropic)),
        ProviderKind::Moonshot => Some((ProviderKind::Moonshot, ProviderKind::MoonshotAnthropic)),
        ProviderKind::ZAI => Some((ProviderKind::ZAI, ProviderKind::ZAIAnthropic)),
        _ => None,
    }
}

/// Whether the provider is reached through the Anthropic protocol.
pub fn uses_anthropic_protocol(provider: &ProviderKind) -> (r: bool)
    ensures
        r == anthropic_protocol(*provider),
{
    match provider {
        ProviderKind::MiniMaxAnthropic | ProviderKind::MoonshotAnthropic | ProviderKind::ZAIAnthropic => true,
        _ => false,
    }
}

/// The label of the protocol switch, shown for providers with two
/// protocols.
pub fn protocol_switch_label(provider: &ProviderKind) -> (r: Option<&'static str>)
    ensures
        match protocol_pair_of(*provider) {
            Some(_) => r matches Some(s) && s@ == "Anthropic API"@,
            None => r is None,
        },
{
    match protocol_pair(provider) {
        Some(_) => Some("Anthropic API"),
        None => None,
    }
}

/// The hint under the protocol switch, shown for providers with two
/// protocols.
pub fn protocol_switch_hint(provider: &ProviderKind) -> (r: Option<&'static str>)
    ensures
        match protocol_pair_of(*provider) {
            Some(_) => r matches Some(s) && s@ == "OpenAI- or Anthropic-compatible API"@,
            None => r is None,
        },
{
    match protocol_pair(provider) {
        Some(_) => Some("OpenAI- or Anthropic-compatible API"),
        None => None,
    }
}

/// Whether the terminal background is blurred: when asked for and the
/// platform (`blur_supported`) can.
pub fn effective_terminal_blur(value: bool, blur_supported: bool) -> (r: bool)
    ensures
        r == (value && blur_supported),
{
    value && blur_supported
}

/// The provider selected by clicking a sidebar entry: the current one when
/// it is the Anthropic variant of that entry, else the entry itself.
pub fn sidebar_selection_target(clicked_provider: &ProviderKind, current_selected: &ProviderKind) -> (r:
    ProviderKind)
    ensures
        r == (if sidebar_kind(*current_selected) == *clicked_provider && anthropic_protocol(
            *current_selected,
        ) {
            *current_selected
        } else {
            *clicked_provider
        }),
{
    if sidebar_provider_kind(current_selected) == *clicked_provider && uses_anthropic_protocol(
        current_selected,
    ) {
        *current_selected
    } else {
        *clicked_provider
    }
}

/// The variant of a two-protocol provider for the chosen protocol.
pub fn protocol_toggled_provider(provider: &ProviderKind, use_anthropic: bool) -> (r: Option<ProviderKind>)
    ensures
        r == match protocol_pair_of(*provider) {
            Some((o, a)) => Some(if use_anthropic { a } else { o }),
            None => None,
        },
{
    match protocol_pair(provider) {
        Some((openai_kind, anthropic_kind)) => Some(if use_anthropic { anthropic_kind } else { openai_kind }),
        None => None,
    }
}

/// The variant of a two-protocol provider for a transport.
pub fn provider_for_transport(provider: &ProviderKind, transport: ProviderTransport) -> (r: Option<ProviderKind>)
    ensures
        r == match protocol_pair_of(*provider) {
            Some((o, a)) => Some(
                match transport {
                    ProviderTransport::OpenAI => o,
                    ProviderTransport::Anthropic => a,
                },
            ),
            None => None,
        },
{
    match protocol_pair(provider) {
        Some((openai_kind, anthropic_kind)) => Some(
            match transport {
                ProviderTransport::OpenAI => openai_kind,
                ProviderTransport::Anthropic => anthropic_kind,
            },
        ),
        None => None,
    }
}

/// What a device sign-in asks the user to do: open the address and type
/// the code.
#[derive(Clone, Debug, Default, PartialEq, Eq)]
pub struct OAuthDevicePrompt {
    pub verification_uri: String,
    pub user_code: String,
}

/// Where an OAuth sign-in stands, with the prompt and the messages shown.
#[derive(Clone, Debug, Default, PartialEq, Eq)]
pub struct ProviderOAuthState {
    pub in_progress: bool,
    pub connected: bool,
    pub prompt: Option<OAuthDevicePrompt>,
    pub status_message: Option<String>,
    pub error_message: Option<String>,
}

/// Whether a provider can be used, and the status shown for it.
pub open spec fn connection_status(
    provider_has_oauth: bool,
    oauth_ready: bool,
    oauth_state: Option<ProviderOAuthState>,
    oauth_cache_present: bool,
    has_key_override: bool,
) -> (bool, Seq<char>) {
    let ready = if provider_has_oauth {
        oauth_ready || has_key_override
    } else {
        has_key_override
    };
    let label = if provider_has_oauth {
        if oauth_state matches Some(s) && s.in_progress {
            "Signing In"@
        } else if oauth_state matches Some(s) && s.connected {
            "Signed In"@
        } else if oauth_cache_present {
            "Signed In"@
        } else if has_key_override {
            "Ready"@
        } else {
            "OAuth"@
        }
    } else if has_key_override {
        "Ready"@
    } else {
        "No key"@
    };
    (ready, label)
}

/// Whether a provider can be used, and the status shown for it: a
/// sign-in in progress or done outranks a key override.
pub fn provider_connection_status(
    provider_has_oauth: bool,
    oauth_ready: bool,
    oauth_state: Option<&ProviderOAuthState>,
    oauth_cache_present: bool,
    has_key_override: bool,
) -> (r: (bool, &'static str))
    ensures
        (r.0, r.1@) == connection_status(
            provider_has_oauth,
            oauth_ready,
            match oauth_state {
                Some(s) => Some(*s),
                None => None,
            },
            oauth_cache_present,
            has_key_override,
        ),
{
    let connection_ready = if provider_has_oauth {
        oauth_ready || has_key_override
    } else {
        has_key_override
    };
    let in_progress = match oauth_state {
        Some(s) => s.in_progress,
        None => false,
    };
    let connected = match oauth_state {
        Some(s) => s.connected,
        None => false,
    };
    let connection_label = if provider_has_oauth {
        if in_progress {
            "Signing In"
        } else if connected {
            "Signed In"
        } else if oauth_cache_present {
            "Signed In"
        } else if has_key_override {
            "Ready"
        } else {
            "OAuth"
        }
    } else if has_key_override {
        "Ready"
    } else {
        "No key"
    };
    (connection_ready, connection_label)
}

/// A page of the settings.
#[derive(Clone, Copy, Debug, PartialEq, Eq, Structural)]
pub enum SettingsSection {
    General,
    Appearance,
    Ai,
    Providers,
    Keys,
    Experimental,
    Configuration,
}

impl SettingsSection {
    /// The page's name in the sidebar.
    pub fn label(&self) -> (r: &'static str)
        ensures
            r@ == match *self {
                SettingsSection::General => "General"@,
                SettingsSection::Appearance => "Appearance"@,
                SettingsSection::Ai => "AI"@,
                SettingsSection::Providers => "Providers"@,
                SettingsSection::Keys => "Keys"@,
                SettingsSection::Experimental => "Experimental"@,
                SettingsSection::Configuration => "Config"@,
            },
    {
        match self {
            SettingsSection::General => "General",
            SettingsSection::Appearance => "Appearance",
            SettingsSection::Ai => "AI",
            SettingsSection::Providers => "Providers",
            SettingsSection::Keys => "Keys",
            SettingsSection::Experimental => "Experimental",
            SettingsSection::Configuration => "Config",
        }
    }

    /// The page's icon.
    pub fn icon(&self) -> (r: &'static str)
        ensures
            r@ == match *self {
                SettingsSection::General => "phosphor/sliders.svg"@,
                SettingsSection::Appearance => "phosphor/sun.svg"@,
                SettingsSection::Ai => "phosphor/robot.svg"@,
                SettingsSection::Providers => "phosphor/plugs-connected.svg"@,
                SettingsSection::Keys => "phosphor/keyboard.svg"@,
                SettingsSection::Experimental => "phosphor/magic-wand-duotone.svg"@,
                SettingsSection::Configuration => "phosphor/file-text.svg"@,
            },
    {
        match self {
            SettingsSection::General => "phosphor/sliders.svg",
            SettingsSection::Appearance => "phosphor/sun.svg",
            SettingsSection::Ai => "phosphor/robot.svg",
            SettingsSection::Providers => "phosphor/plugs-connected.svg",
            SettingsSection::Keys => "phosphor/keyboard.svg",
            SettingsSection::Experimental => "phosphor/magic-wand-duotone.svg",
            SettingsSection::Configuration => "phosphor/file-text.svg",
        }
    }
}

/// `items` joined with `sep`.
pub open spec fn joined(items: Seq<Seq<char>>, sep: Seq<char>) -> Seq<char>
    decreases items.len(),
{
    if items.len() == 0 {
        Seq::empty()
    } else if items.len() == 1 {
        items[0]
    } else {
        joined(items.drop_last(), sep) + sep + items.last()
    }
}

/// A list in prose: "a", "a and b", "a, b, and c".
pub open spec fn human_joined(items: Seq<Seq<char>>) -> Seq<char> {
    if items.len() == 0 {
        Seq::empty()
    } else if items.len() == 1 {
        items[0]
    } else if items.len() == 2 {
        items[0] + " and "@ + items[1]
    } else {
        joined(items.drop_last(), ", "@) + ", and "@ + items.last()
    }
}

/// Joins names as prose, with a serial comma.
pub fn human_join(items: &Vec<String>) -> (r: String)
    ensures
        r@ == human_joined(items@.map_values(|s: String| s@)),
{
    let ghost v = items@.map_values(|s: String| s@);
    let n = items.len();
    if n == 0 {
        return String::new();
    }
    if n == 1 {
        return items[0].clone();
    }
    if n == 2 {
        let mut text = items[0].clone();
        text.append(" and ");
        text.append(items[1].as_str());
        return text;
    }
    let mut text = items[0].clone();
    let mut i: usize = 1;
    while i < n - 1
        invariant
            1 <= i <= n - 1,
            n == items@.len(),
            n >= 3,
            v == items@.map_values(|s: String| s@),
            text@ == joined(v.take(i as int), ", "@),
        decreases n - i,
    {
        text.append(", ");
        text.append(items[i].as_str());
        proof {
            assert(v.take(i + 1).drop_last() =~= v.take(i as int));
            assert(v.take(i + 1).last() == v[i as int]);
        }
        i = i + 1;
    }
    text.append(", and ");
    text.append(items[n - 1].as_str());
    proof {
        assert(v.take(1) =~= seq![v[0]]);
        assert(v.drop_last() =~= v.take(n - 1));
    }
    text
}


/// What `char::to_uppercase` yields for `c`.
pub uninterp spec fn uppercase_of(c: char) -> Seq<char>;

/// Calls `char::to_uppercase` (std) and collects the characters it yields
/// into a string. The contract claims only that they are the text named
/// `uppercase_of` for the argument; the mapping itself is left to std's
/// Unicode tables and not stated.
#[verifier::external_body]
fn char_to_uppercase(c: char) -> (r: String)
    ensures
        r@ == uppercase_of(c),
{
    c.to_uppercase().to_string()
}

/// Index of the first `'-'` at or after `i`, or the length.
pub open spec fn next_dash(s: Seq<char>, i: int) -> int
    decreases s.len() - i,
{
    if i < 0 || i >= s.len() {
        s.len() as int
    } else if s[i] == '-' {
        i
    } else {
        next_dash(s, i + 1)
    }
}

pub proof fn lemma_next_dash_bounds(s: Seq<char>, i: int)
    requires
        0 <= i <= s.len(),
    ensures
        i <= next_dash(s, i) <= s.len(),
    decreases s.len() - i,
{
    if i < s.len() && s[i] != '-' {
        lemma_next_dash_bounds(s, i + 1);
    }
}

/// `s[i..]` split at every `'-'` (as `str::split('-')` does).
pub open spec fn dash_pieces_from(s: Seq<char>, i: int) -> Seq<Seq<char>>
    decreases s.len() + 1 - i,
{
    if i < 0 || i > s.len() {
        Seq::empty()
    } else {
        let d = next_dash(s, i);
        proof {
            lemma_next_dash_bounds(s, i);
        }
        if d < s.len() {
            seq![s.subrange(i, d)] + dash_pieces_from(s, d + 1)
        } else {
            seq![s.subrange(i, s.len() as int)]
        }
    }
}

/// A word with its first character upper-cased.
pub open spec fn capitalized(w: Seq<char>) -> Seq<char> {
    if w.len() == 0 {
        Seq::empty()
    } else {
        uppercase_of(w[0]) + w.drop_first()
    }
}

/// A kebab-case name in Title Case: words split at `'-'`, each capitalized,
/// joined by spaces.
pub open spec fn title_cased(name: Seq<char>) -> Seq<char> {
    joined(dash_pieces_from(name, 0).map_values(|w: Seq<char>| capitalized(w)), " "@)
}

/// The display names of the bundled terminal themes.
pub open spec fn bundled_theme_name(name: Seq<char>) -> Option<Seq<char>> {
    if name == "flexoki-dark"@ { Some("Flexoki Dark"@) }
    else if name == "flexoki-light"@ { Some("Flexoki Light"@) }
    else if name == "catppuccin-mocha"@ { Some("Catppuccin"@) }
    else if name == "tokyonight"@ { Some("Tokyo Night"@) }
    else if name == "rose-pine"@ { Some("Rose Pine"@) }
    else if name == "gruvbox-dark"@ { Some("Gruvbox Dark"@) }
    else if name == "solarized-dark"@ { Some("Solarized Dark"@) }
    else if name == "solarized-light"@ { Some("Solarized Light"@) }
    else if name == "one-half-dark"@ { Some("One Half Dark"@) }
    else if name == "kanagawa-wave"@ { Some("Kanagawa Wave"@) }
    else if name == "everforest-dark"@ { Some("Everforest Dark"@) }
    else if name == "everforest-light"@ { Some("Everforest Light"@) }
    else if name == "paper-light"@ { Some("Paper Light"@) }
    else { None }
}

fn bundled_theme_display_name(name: &str) -> (r: Option<&'static str>)
    ensures
        match r {
            Some(s) => bundled_theme_name(name@) == Some(s@),
            None => bundled_theme_name(name@) is None,
        },
{
    if same_text(name, "flexoki-dark") { Some("Flexoki Dark") }
    else if same_text(name, "flexoki-light") { Some("Flexoki Light") }
    else if same_text(name, "catppuccin-mocha") { Some("Catppuccin") }
    else if same_text(name, "tokyonight") { Some("Tokyo Night") }
    else if same_text(name, "rose-pine") { Some("Rose Pine") }
    else if same_text(name, "gruvbox-dark") { Some("Gruvbox Dark") }
    else if same_text(name, "solarized-dark") { Some("Solarized Dark") }
    else if same_text(name, "solarized-light") { Some("Solarized Light") }
    else if same_text(name, "one-half-dark") { Some("One Half Dark") }
    else if same_text(name, "kanagawa-wave") { Some("Kanagawa Wave") }
    else if same_text(name, "everforest-dark") { Some("Everforest Dark") }
    else if same_text(name, "everforest-light") { Some("Everforest Light") }
    else if same_text(name, "paper-light") { Some("Paper Light") }
    else { None }
}

/// The name shown for a terminal theme: a bundled theme's own display
/// name, or a user theme's kebab-case name in Title Case.
pub fn display_theme_name(name: &str) -> (r: String)
    ensures
        r@ == match bundled_theme_name(name@) {
            Some(d) => d,
            None => title_cased(name@),
        },
{
    match bundled_theme_display_name(name) {
        Some(d) => return d.to_owned(),
        None => {},
    }
    let cs = chars_of(name);
    let n = cs.len();
    let ghost s = name@;
    let ghost all = dash_pieces_from(s, 0).map_values(|w: Seq<char>| capitalized(w));
    let mut out = String::new();
    let mut i: usize = 0;
    let ghost mut done: Seq<Seq<char>> = Seq::empty();
    loop
        invariant
            cs@ == s,
            s == name@,
            n == s.len(),
            i <= n,
            bundled_theme_name(name@) is None,
            all == dash_pieces_from(s, 0).map_values(|w: Seq<char>| capitalized(w)),
            all == done + dash_pieces_from(s, i as int).map_values(|w: Seq<char>| capitalized(w)),
            done.len() > 0 ==> out@ == joined(done, " "@),
            done.len() == 0 ==> out@ == Seq::<char>::empty() && i == 0,
        decreases n + 1 - i,
    {
        let mut d: usize = i;
        while d < n && cs[d] != '-'
            invariant
                cs@ == s,
                n == s.len(),
                i <= d <= n,
                next_dash(s, i as int) == next_dash(s, d as int),
            decreases n - d,
        {
            d = d + 1;
        }
        let word = name.substring_char(i, d);
        let wcs = chars_of(word);
        let mut piece = String::new();
        if wcs.len() > 0 {
            let head = char_to_uppercase(wcs[0]);
            piece.append(head.as_str());
            piece.append(word.substring_char(1, wcs.len()));
            proof {
                assert(Seq::<char>::empty() + head@ + word@.subrange(1, word@.len() as int) =~= capitalized(word@));
            }
        } else {
            proof {
                assert(piece@ =~= capitalized(word@));
            }
        }
        if i > 0 {
            out.append(" ");
        }
        let ghost old_out = out@;
        out.append(piece.as_str());
        proof {
            let rest = dash_pieces_from(s, i as int);
            assert(rest.map_values(|w: Seq<char>| capitalized(w))[0] == capitalized(s.subrange(i as int, d as int)));
            let done2 = done.push(capitalized(s.subrange(i as int, d as int)));
            if done.len() > 0 {
                assert(done2.drop_last() =~= done);
                assert(joined(done2, " "@) == joined(done, " "@) + " "@ + capitalized(s.subrange(i as int, d as int)));
                assert(out@ =~= joined(done2, " "@));
            } else {
                assert(joined(done2, " "@) == capitalized(s.subrange(i as int, d as int)));
                assert(out@ =~= capitalized(s.subrange(i as int, d as int)));
            }
            if d < n {
                assert(rest == seq![s.subrange(i as int, d as int)] + dash_pieces_from(s, d + 1));
                assert(rest.map_values(|w: Seq<char>| capitalized(w)) =~= seq![capitalized(s.subrange(i as int, d as int))]
                    + dash_pieces_from(s, d + 1).map_values(|w: Seq<char>| capitalized(w)));
                assert(done + rest.map_values(|w: Seq<char>| capitalized(w)) =~= done2 + dash_pieces_from(s, d + 1).map_values(|w: Seq<char>| capitalized(w)));
            } else {
                assert(rest == seq![s.subrange(i as int, s.len() as int)]);
                assert(done + rest.map_values(|w: Seq<char>| capitalized(w)) =~= done2);
            }
            done = done2;
        }
        if d >= n {
            return out;
        }
        i = d + 1;
    }
}

/// How a cursor style value is labelled.
pub open spec fn cursor_style_label_of(value: Seq<char>) -> Seq<char> {
    let v = ascii_lowercased(trim_text(value));
    if v == "block"@ {
        "Block"@
    } else if v == "underline"@ {
        "Underline"@
    } else if v == "block_hollow"@ || v == "block-hollow"@ || v == "hollow"@ {
        "Hollow Block"@
    } else {
        "Bar"@
    }
}

/// `c` with ASCII upper-case letters lowered.
pub open spec fn ascii_lower(c: char) -> char {
    if 'A' <= c <= 'Z' {
        ((c as u32) + 32) as char
    } else {
        c
    }
}

/// `str::to_ascii_lowercase`.
pub open spec fn ascii_lowercased(s: Seq<char>) -> Seq<char> {
    s.map_values(|c: char| ascii_lower(c))
}

pub(crate) fn ascii_lower_char(c: char) -> (r: char)
    ensures
        r == ascii_lower(c),
{
    if 'A' <= c && c <= 'Z' {
        let b = (c as u32) as u8;
        (b + 32) as char
    } else {
        c
    }
}

fn ascii_lowercase_equals(value: &str, lower: &str) -> (r: bool)
    ensures
        r == (ascii_lowercased(value@) == lower@),
{
    let a = chars_of(value);
    let b = chars_of(lower);
    if a.len() != b.len() {
        proof {
            assert(ascii_lowercased(value@).len() != lower@.len());
        }
        return false;
    }
    let mut i: usize = 0;
    while i < a.len()
        invariant
            a@ == value@,
            b@ == lower@,
            a@.len() == b@.len(),
            i <= a@.len(),
            forall|j: int| 0 <= j < i ==> ascii_lower(a@[j]) == b@[j],
        decreases a@.len() - i,
    {
        if ascii_lower_char(a[i]) != b[i] {
            proof {
                assert(ascii_lowercased(value@)[i as int] != lower@[i as int]);
            }
            return false;
        }
        i = i + 1;
    }
    proof {
        assert(ascii_lowercased(value@) =~= lower@);
    }
    true
}

/// The label of a cursor style value (case and surrounding spaces ignored).
pub fn cursor_style_label(value: &str) -> (r: &'static str)
    ensures
        r@ == cursor_style_label_of(value@),
{
    let v = trim_str(value);
    if ascii_lowercase_equals(v, "block") {
        "Block"
    } else if ascii_lowercase_equals(v, "underline") {
        "Underline"
    } else if ascii_lowercase_equals(v, "block_hollow") || ascii_lowercase_equals(v, "block-hollow")
        || ascii_lowercase_equals(v, "hollow") {
        "Hollow Block"
    } else {
        "Bar"
    }
}

/// The cursor style value of a label.
pub open spec fn cursor_style_value_of(label: Seq<char>) -> Seq<char> {
    if label == "Block"@ {
        "block"@
    } else if label == "Underline"@ {
        "underline"@
    } else if label == "Hollow Block"@ {
        "block_hollow"@
    } else {
        "bar"@
    }
}

/// The cursor style value of a label.
pub fn cursor_style_from_label(label: &str) -> (r: &'static str)
    ensures
        r@ == cursor_style_value_of(label@),
{
    if same_text(label, "Block") {
        "block"
    } else if same_text(label, "Underline") {
        "underline"
    } else if same_text(label, "Hollow Block") {
        "block_hollow"
    } else {
        "bar"
    }
}

/// What the agent is set up to do.
#[derive(Clone, Copy, Debug, PartialEq, Eq, Structural)]
pub enum AgentPurpose {
    Build,
    Explain,
    Operate,
}

pub open spec fn purpose_label(p: AgentPurpose) -> Seq<char> {
    match p {
        AgentPurpose::Build => "Build"@,
        AgentPurpose::Explain => "Explain"@,
        AgentPurpose::Operate => "Operate"@,
    }
}

/// The agent purposes offered, in order.
pub fn ai_purpose_options() -> (r: Vec<&'static str>)
    ensures
        r@.map_values(|s: &'static str| s@) == seq![
            purpose_label(AgentPurpose::Build),
            purpose_label(AgentPurpose::Explain),
            purpose_label(AgentPurpose::Operate),
        ],
{
    let mut r: Vec<&'static str> = Vec::new();
    r.push("Build");
    r.push("Explain");
    r.push("Operate");
    proof {
        assert(r@.map_values(|s: &'static str| s@) =~= seq![
            purpose_label(AgentPurpose::Build),
            purpose_label(AgentPurpose::Explain),
            purpose_label(AgentPurpose::Operate),
        ]);
    }
    r
}

/// The label of an agent purpose.
pub fn ai_purpose_label(purpose: AgentPurpose) -> (r: &'static str)
    ensures
        r@ == purpose_label(purpose),
{
    match purpose {
        AgentPurpose::Build => "Build",
        AgentPurpose::Explain => "Explain",
        AgentPurpose::Operate => "Operate",
    }
}

/// The agent purpose of a label; anything unknown means Build.
pub fn ai_purpose_from_label(label: &str) -> (r: AgentPurpose)
    ensures
        r == (if label@ == "Explain"@ {
            AgentPurpose::Explain
        } else if label@ == "Operate"@ {
            AgentPurpose::Operate
        } else {
            AgentPurpose::Build
        }),
{
    if same_text(label, "Explain") {
        AgentPurpose::Explain
    } else if same_text(label, "Operate") {
        AgentPurpose::Operate
    } else {
        AgentPurpose::Build
    }
}

} // verus!
