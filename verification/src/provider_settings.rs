use vstd::prelude::*;
use crate::endpoints::{ProviderConfig, is_named_endpoint, mapped_base_url, opt_text, seed_protocol_variant_config};
use crate::text::{decimal, push_decimal, trim_str, trim_text};
use crate::provider_form::{config_view, key_resolution, key_result_view, resolve_provider_api_key, trimmed_setting};
use crate::layout::clone_opt_string;
use crate::providers::{config_of, preferred_sidebar_provider, provider_for_saved_transport, saved_transport_for, transport_of};
use crate::settings::{
    ProviderKind, ProviderTransport, protocol_pair, protocol_pair_of, protocol_toggled_provider, sidebar_kind,
    sidebar_provider_kind, sidebar_selection_target,
};

verus! {

/// A configuration with nothing set.
pub open spec fn empty_config() -> ProviderConfig {
    ProviderConfig { model: None, api_key: None, api_key_env: None, max_tokens: None, base_url: None }
}

/// The values of the other protocol's configuration `target` seeded from
/// `source`: unset values are taken over, and the base URL is mapped when
/// the target has none or the source uses a named endpoint.
pub open spec fn seeded_view(
    source_provider: ProviderKind,
    target_provider: ProviderKind,
    source: ProviderConfig,
    target: ProviderConfig,
) -> (Option<Seq<char>>, Option<Seq<char>>, Option<Seq<char>>, Option<u64>, Option<Seq<char>>) {
    let mapped = mapped_base_url(source_provider, target_provider, opt_text(source.base_url));
    let target_empty = match target.base_url {
        Some(u) => trim_text(u@).len() == 0,
        None => true,
    };
    (
        opt_text(if target.model is Some { target.model } else { source.model }),
        opt_text(if target.api_key is Some { target.api_key } else { source.api_key }),
        opt_text(if target.api_key_env is Some { target.api_key_env } else { source.api_key_env }),
        if target.max_tokens is Some { target.max_tokens } else { source.max_tokens },
        if mapped is Some && (target_empty || is_named_endpoint(source_provider, opt_text(source.base_url))) {
            mapped
        } else {
            opt_text(target.base_url)
        },
    )
}

/// The configuration stored for `k` (the first entry for it), or an empty one.
pub open spec fn config_or_default(entries: Seq<(ProviderKind, ProviderConfig)>, k: ProviderKind) -> ProviderConfig {
    match config_of(entries, k, 0) {
        Some(c) => c,
        None => empty_config(),
    }
}

/// Position of the first entry for `k` at or after `i`.
pub open spec fn entry_index(entries: Seq<(ProviderKind, ProviderConfig)>, k: ProviderKind, i: int) -> Option<int>
    decreases entries.len() - i,
{
    if i < 0 || i >= entries.len() {
        None
    } else if entries[i].0 == k {
        Some(i)
    } else {
        entry_index(entries, k, i + 1)
    }
}

/// The entries once `c` is stored for `k`: it replaces the first entry for
/// `k`, or is added at the end.
pub open spec fn stored(entries: Seq<(ProviderKind, ProviderConfig)>, k: ProviderKind, c: ProviderConfig) -> Seq<
    (ProviderKind, ProviderConfig),
> {
    match entry_index(entries, k, 0) {
        Some(i) => entries.update(i, (k, c)),
        None => entries.push((k, c)),
    }
}

pub proof fn lemma_entry_index(entries: Seq<(ProviderKind, ProviderConfig)>, k: ProviderKind, j: int)
    requires
        0 <= j,
    ensures
        config_of(entries, k, j) == match entry_index(entries, k, j) {
            Some(i) => Some(entries[i].1),
            None => None,
        },
        entry_index(entries, k, j) matches Some(i) ==> j <= i < entries.len() && entries[i].0 == k && forall|m: int|
            j <= m < i ==> entries[m].0 != k,
        entry_index(entries, k, j) is None ==> forall|m: int| j <= m < entries.len() ==> entries[m].0 != k,
    decreases entries.len() - j,
{
    if j < entries.len() && entries[j].0 != k {
        lemma_entry_index(entries, k, j + 1);
    }
}

proof fn lemma_config_of_elsewhere(
    entries: Seq<(ProviderKind, ProviderConfig)>,
    after: Seq<(ProviderKind, ProviderConfig)>,
    k2: ProviderKind,
    j: int,
)
    requires
        0 <= j,
        entries.len() <= after.len(),
        forall|m: int| 0 <= m < entries.len() ==> ((#[trigger] after[m]).0 == k2 <==> entries[m].0 == k2),
        forall|m: int| 0 <= m < entries.len() && entries[m].0 == k2 ==> #[trigger] after[m] == entries[m],
        forall|m: int| entries.len() <= m < after.len() ==> (#[trigger] after[m]).0 != k2,
    ensures
        config_of(after, k2, j) == config_of(entries, k2, j),
    decreases after.len() - j,
{
    if j < after.len() {
        lemma_config_of_elsewhere(entries, after, k2, j + 1);
    }
}

/// What storing a configuration for `k` does: reading `k` gives it back,
/// and every other provider reads as before.
pub proof fn law_store_then_read(entries: Seq<(ProviderKind, ProviderConfig)>, k: ProviderKind, c: ProviderConfig, k2: ProviderKind)
    ensures
        config_of(stored(entries, k, c), k, 0) == Some(c),
        k2 != k ==> config_of(stored(entries, k, c), k2, 0) == config_of(entries, k2, 0),
{
    lemma_entry_index(entries, k, 0);
    let after = stored(entries, k, c);
    lemma_entry_index(after, k, 0);
    match entry_index(entries, k, 0) {
        Some(i) => {
            assert(after[i].0 == k);
            if entry_index(after, k, 0) != Some(i) {
                lemma_entry_index(after, k, 0);
            }
        },
        None => {
            assert(after[entries.len() as int].0 == k);
            if entry_index(after, k, 0) != Some(entries.len() as int) {
                lemma_entry_index(after, k, 0);
            }
        },
    }
    if k2 != k {
        lemma_config_of_elsewhere(entries, after, k2, 0);
    }
}

fn copy_config(c: &ProviderConfig) -> (r: ProviderConfig)
    ensures
        r == *c,
{
    ProviderConfig {
        model: clone_opt_string(&c.model),
        api_key: clone_opt_string(&c.api_key),
        api_key_env: clone_opt_string(&c.api_key_env),
        max_tokens: c.max_tokens,
        base_url: clone_opt_string(&c.base_url),
    }
}

fn same_text_opt(a: &Option<String>, b: &Option<String>) -> (r: bool)
    ensures
        r == (opt_text(*a) == opt_text(*b)),
{
    match (a, b) {
        (Some(x), Some(y)) => *x == *y,
        (None, None) => true,
        _ => false,
    }
}

/// Whether two configurations hold the same values.
pub fn same_config(a: &ProviderConfig, b: &ProviderConfig) -> (r: bool)
    ensures
        r == (config_view(*a) == config_view(*b)),
{
    same_text_opt(&a.model, &b.model) && same_text_opt(&a.api_key, &b.api_key) && same_text_opt(
        &a.api_key_env,
        &b.api_key_env,
    ) && a.max_tokens == b.max_tokens && same_text_opt(&a.base_url, &b.base_url)
}

/// The configuration stored for `provider`, or an empty one.
pub fn provider_config_or_default(entries: &Vec<(ProviderKind, ProviderConfig)>, provider: ProviderKind) -> (r:
    ProviderConfig)
    ensures
        r == config_or_default(entries@, provider),
{
    let mut i: usize = 0;
    while i < entries.len()
        invariant
            i <= entries@.len(),
            config_of(entries@, provider, 0) == config_of(entries@, provider, i as int),
        decreases entries@.len() - i,
    {
        if entries[i].0 == provider {
            return copy_config(&entries[i].1);
        }
        i = i + 1;
    }
    ProviderConfig { model: None, api_key: None, api_key_env: None, max_tokens: None, base_url: None }
}

/// Stores `config` for `provider`.
pub fn store_provider_config(entries: &mut Vec<(ProviderKind, ProviderConfig)>, provider: ProviderKind, config: ProviderConfig)
    ensures
        final(entries)@ == stored(old(entries)@, provider, config),
{
    let mut i: usize = 0;
    while i < entries.len()
        invariant
            i <= entries@.len(),
            entries@ == old(entries)@,
            entry_index(entries@, provider, 0) == entry_index(entries@, provider, i as int),
        decreases entries@.len() - i,
    {
        if entries[i].0 == provider {
            entries.set(i, (provider, config));
            return;
        }
        i = i + 1;
    }
    entries.push((provider, config));
}

/// Stores the transport chosen for the sidebar entry `k`.
pub open spec fn transport_stored(
    transports: Seq<(ProviderKind, ProviderTransport)>,
    k: ProviderKind,
    t: ProviderTransport,
) -> Seq<(ProviderKind, ProviderTransport)> {
    match transport_index(transports, k, 0) {
        Some(i) => transports.update(i, (k, t)),
        None => transports.push((k, t)),
    }
}

/// Position of the first transport saved for `k` at or after `i`.
pub open spec fn transport_index(transports: Seq<(ProviderKind, ProviderTransport)>, k: ProviderKind, i: int) -> Option<
    int,
>
    decreases transports.len() - i,
{
    if i < 0 || i >= transports.len() {
        None
    } else if transports[i].0 == k {
        Some(i)
    } else {
        transport_index(transports, k, i + 1)
    }
}

fn store_transport(transports: &mut Vec<(ProviderKind, ProviderTransport)>, k: ProviderKind, t: ProviderTransport)
    ensures
        final(transports)@ == transport_stored(old(transports)@, k, t),
{
    let mut i: usize = 0;
    while i < transports.len()
        invariant
            i <= transports@.len(),
            transports@ == old(transports)@,
            transport_index(transports@, k, 0) == transport_index(transports@, k, i as int),
        decreases transports@.len() - i,
    {
        if transports[i].0 == k {
            transports.set(i, (k, t));
            return;
        }
        i = i + 1;
    }
    transports.push((k, t));
}

/// What to ask a provider for its list of models.
pub enum ModelFetchRequest {
    /// The models endpoint below `base_url`, with the key if there is one.
    OpenAICompatible { base_url: String, api_key: Option<String> },
    /// The models of the ChatGPT subscription signed in with `config`.
    ChatGPT { config: ProviderConfig },
}

/// How a model list request ended.
pub enum ModelFetchOutcome {
    /// The request failed, with its message.
    Failed(String),
    /// The provider answered with `count` models; `store_error` is the
    /// message when they could not be kept.
    Fetched { count: usize, store_error: Option<String> },
}

/// The status when an OpenAI-compatible provider has no base URL.
pub open spec fn missing_base_url_message() -> Seq<char> {
    "Enter the provider Base URL, usually ending in /v1."@
}

/// The status while the models are requested.
pub open spec fn fetching_message() -> Seq<char> {
    "Fetching models from the provider…"@
}

/// The status when the provider listed no model.
pub open spec fn no_models_message() -> Seq<char> {
    "The endpoint responded, but returned no models. Type the model ID manually."@
}

/// The status when the request failed.
pub open spec fn fetch_failed_message(e: Seq<char>) -> Seq<char> {
    "Could not fetch models: "@ + e + ". Type the model ID manually."@
}

/// The status once `count` models were fetched.
pub open spec fn fetched_message(count: nat) -> Seq<char> {
    "Fetched "@ + decimal(count) + " model"@ + (if count == 1 { Seq::empty() } else { "s"@ }) + "."@
}

/// Whether the models of `p` can be listed from the settings.
pub open spec fn lists_models(p: ProviderKind) -> bool {
    p == ProviderKind::OpenAICompatible || p == ProviderKind::ChatGPT
}

/// The provider part of the settings: the active provider, the one shown
/// in the form, each provider's configuration, the transport saved for
/// each sidebar entry, and the state of a model list request.
pub struct ProviderSettings {
    pub active: ProviderKind,
    pub selected: ProviderKind,
    pub providers: Vec<(ProviderKind, ProviderConfig)>,
    pub transports: Vec<(ProviderKind, ProviderTransport)>,
    pub model_fetching: bool,
    pub model_status: Option<String>,
    pub model_status_error: bool,
}

/// The provider that a click on sidebar entry `clicked` shows: a provider
/// with two protocols keeps the variant on screen, or takes the one of its
/// saved transport; another keeps an Anthropic variant of it on screen.
pub open spec fn selection_target(
    clicked: ProviderKind,
    selected: ProviderKind,
    transports: Seq<(ProviderKind, ProviderTransport)>,
) -> ProviderKind {
    if protocol_pair_of(clicked) is Some {
        if sidebar_kind(selected) == sidebar_kind(clicked) {
            selected
        } else {
            match protocol_pair_of(clicked) {
                Some((o, a)) => match transport_of(transports, sidebar_kind(clicked), 0) {
                    Some(ProviderTransport::Anthropic) => a,
                    _ => o,
                },
                None => sidebar_kind(clicked),
            }
        }
    } else if sidebar_kind(selected) == clicked && crate::settings::anthropic_protocol(selected) {
        selected
    } else {
        clicked
    }
}

/// The active provider switched to the variant of its saved transport.
pub open spec fn normalized_active(active: ProviderKind, transports: Seq<(ProviderKind, ProviderTransport)>) -> ProviderKind {
    match transport_of(transports, sidebar_kind(active), 0) {
        None => active,
        Some(t) => match protocol_pair_of(active) {
            Some((o, a)) => match t {
                ProviderTransport::OpenAI => o,
                ProviderTransport::Anthropic => a,
            },
            None => active,
        },
    }
}

impl ProviderSettings {
    /// The provider settings as the panel opens on a configuration: the
    /// active provider (`active_provider`) follows its saved transport and
    /// is the one on screen; no model request is under way.
    pub fn new(
        active_provider: ProviderKind,
        providers: Vec<(ProviderKind, ProviderConfig)>,
        transports: Vec<(ProviderKind, ProviderTransport)>,
    ) -> (r: Self)
        ensures
            r.active == normalized_active(active_provider, transports@),
            r.selected == normalized_active(r.active, transports@),
            r.providers@ == providers@,
            r.transports@ == transports@,
            !r.model_fetching && r.model_status is None && !r.model_status_error,
    {
        let saved = saved_transport_for(&transports, sidebar_provider_kind(&active_provider));
        let active = provider_for_saved_transport(saved, &active_provider);
        let saved_again = saved_transport_for(&transports, sidebar_provider_kind(&active));
        let selected = provider_for_saved_transport(saved_again, &active);
        ProviderSettings {
            active,
            selected,
            providers,
            transports,
            model_fetching: false,
            model_status: None,
            model_status_error: false,
        }
    }

    /// Keeps the form's values (`form`) for the provider on screen, then
    /// shows `provider`: when it is another one, the model request state
    /// clears and its configuration is returned for the form to load.
    pub fn transition_provider(&mut self, provider: ProviderKind, form: ProviderConfig) -> (r: Option<ProviderConfig>)
        ensures
            final(self).providers@ == stored(old(self).providers@, old(self).selected, form),
            final(self).active == old(self).active,
            final(self).transports@ == old(self).transports@,
            final(self).selected == provider,
            provider == old(self).selected ==> {
                &&& r is None
                &&& final(self).model_fetching == old(self).model_fetching
                &&& final(self).model_status == old(self).model_status
                &&& final(self).model_status_error == old(self).model_status_error
            },
            provider != old(self).selected ==> {
                &&& r == Some(config_or_default(final(self).providers@, provider))
                &&& !final(self).model_fetching && final(self).model_status is None && !final(self).model_status_error
            },
    {
        store_provider_config(&mut self.providers, self.selected, form);
        if provider == self.selected {
            return None;
        }
        self.selected = provider;
        self.model_fetching = false;
        self.model_status = None;
        self.model_status_error = false;
        Some(provider_config_or_default(&self.providers, provider))
    }

    /// A click on sidebar entry `clicked`: the provider shown next (see
    /// `selection_target`) and, when it changes, the configuration to load.
    pub fn select_provider(&mut self, clicked: ProviderKind, form: ProviderConfig) -> (r: (
        ProviderKind,
        Option<ProviderConfig>,
    ))
        ensures
            r.0 == selection_target(clicked, old(self).selected, old(self).transports@),
            final(self).selected == r.0,
            final(self).providers@ == stored(old(self).providers@, old(self).selected, form),
            final(self).active == old(self).active,
            final(self).transports@ == old(self).transports@,
            r.0 == old(self).selected ==> r.1 is None,
            r.0 != old(self).selected ==> r.1 == Some(config_or_default(final(self).providers@, r.0)),
    {
        let target = if protocol_pair(&clicked).is_some() {
            if sidebar_provider_kind(&self.selected) == sidebar_provider_kind(&clicked) {
                self.selected
            } else {
                let saved = saved_transport_for(&self.transports, sidebar_provider_kind(&clicked));
                preferred_sidebar_provider(saved, &clicked)
            }
        } else {
            sidebar_selection_target(&clicked, &self.selected)
        };
        let loaded = self.transition_provider(target, form);
        (target, loaded)
    }

    /// Makes `target` the active provider when the active one belongs to
    /// the same sidebar entry as `source`; whether it did.
    pub fn set_active_provider_if_tracking(&mut self, source: ProviderKind, target: ProviderKind) -> (r: bool)
        ensures
            r == (sidebar_kind(old(self).active) == sidebar_kind(source)),
            final(self).active == (if r { target } else { old(self).active }),
            final(self).selected == old(self).selected,
            final(self).providers@ == old(self).providers@,
            final(self).transports@ == old(self).transports@,
            final(self).model_fetching == old(self).model_fetching,
            final(self).model_status == old(self).model_status,
            final(self).model_status_error == old(self).model_status_error,
    {
        if sidebar_provider_kind(&self.active) != sidebar_provider_kind(&source) {
            return false;
        }
        self.active = target;
        true
    }

    /// Switches the active provider to the variant of its saved transport.
    pub fn normalize_active_provider_for_saved_transport(&mut self)
        ensures
            final(self).active == normalized_active(old(self).active, old(self).transports@),
            final(self).selected == old(self).selected,
            final(self).providers@ == old(self).providers@,
            final(self).transports@ == old(self).transports@,
            final(self).model_fetching == old(self).model_fetching,
            final(self).model_status == old(self).model_status,
            final(self).model_status_error == old(self).model_status_error,
    {
        let saved = saved_transport_for(&self.transports, sidebar_provider_kind(&self.active));
        self.active = provider_for_saved_transport(saved, &self.active);
    }

    /// Before the form is shown again: the active provider follows its
    /// saved transport, and so does the provider on screen; the state of a
    /// model list request is cleared. Returns the configuration to load
    /// into the form.
    pub fn refresh_selection(&mut self) -> (r: ProviderConfig)
        ensures
            final(self).active == normalized_active(old(self).active, old(self).transports@),
            final(self).selected == normalized_active(old(self).selected, old(self).transports@),
            final(self).providers@ == old(self).providers@,
            final(self).transports@ == old(self).transports@,
            !final(self).model_fetching,
            final(self).model_status is None,
            !final(self).model_status_error,
            r == config_or_default(old(self).providers@, final(self).selected),
    {
        self.normalize_active_provider_for_saved_transport();
        let saved = saved_transport_for(&self.transports, sidebar_provider_kind(&self.selected));
        self.selected = provider_for_saved_transport(saved, &self.selected);
        self.model_fetching = false;
        self.model_status = None;
        self.model_status_error = false;
        provider_config_or_default(&self.providers, self.selected)
    }

    /// Takes the form's values into the settings: stored for the provider
    /// on screen only when they differ from what it has (an untouched empty
    /// form adds no entry), then the active provider follows its transport.
    pub fn store_form(&mut self, form: ProviderConfig)
        ensures
            final(self).providers@ == (if config_view(form) == config_view(
                config_or_default(old(self).providers@, old(self).selected),
            ) {
                old(self).providers@
            } else {
                stored(old(self).providers@, old(self).selected, form)
            }),
            final(self).active == normalized_active(old(self).active, old(self).transports@),
            final(self).selected == old(self).selected,
            final(self).transports@ == old(self).transports@,
            final(self).model_fetching == old(self).model_fetching,
            final(self).model_status == old(self).model_status,
            final(self).model_status_error == old(self).model_status_error,
    {
        let current = provider_config_or_default(&self.providers, self.selected);
        if !same_config(&form, &current) {
            store_provider_config(&mut self.providers, self.selected, form);
        }
        self.normalize_active_provider_for_saved_transport();
    }

    /// Switches the provider on screen to its other protocol: the form's
    /// values are kept, the transport is saved for the sidebar entry, the
    /// other variant's configuration is seeded from this one, the active
    /// provider follows when it was this entry, and the form shows the other
    /// variant. `None` when the provider has a single protocol (only the
    /// form's values are kept); else whether the active provider changed and
    /// the configuration to load.
    pub fn toggle_selected_provider_protocol(&mut self, use_anthropic: bool, form: ProviderConfig) -> (r: Option<
        (bool, Option<ProviderConfig>),
    >)
        ensures
            ({
                let source = old(self).selected;
                let kept = stored(old(self).providers@, source, form);
                match protocol_pair_of(source) {
                    None => {
                        &&& r is None
                        &&& final(self).providers@ == kept
                        &&& final(self).selected == source && final(self).active == old(self).active
                        &&& final(self).transports@ == old(self).transports@
                    },
                    Some((o, a)) => {
                        let target = if use_anthropic { a } else { o };
                        &&& r matches Some((follows, loaded))
                        &&& final(self).transports@ == transport_stored(
                            old(self).transports@,
                            sidebar_kind(source),
                            if use_anthropic { ProviderTransport::Anthropic } else { ProviderTransport::OpenAI },
                        )
                        &&& config_or_default(final(self).providers@, source) == form
                        &&& target != source ==> config_view(config_or_default(final(self).providers@, target))
                            == seeded_view(source, target, form, config_or_default(kept, target))
                        &&& forall|k: ProviderKind| k != source && k != target ==> #[trigger] config_of(final(self).providers@, k, 0)
                            == config_of(old(self).providers@, k, 0)
                        &&& follows == (sidebar_kind(old(self).active) == sidebar_kind(source))
                        &&& final(self).active == (if follows { target } else { old(self).active })
                        &&& final(self).selected == target
                        &&& target == source ==> loaded is None
                        &&& target != source ==> loaded == Some(config_or_default(final(self).providers@, target))
                    },
                }
            }),
    {
        let source = self.selected;
        let source_config = copy_config(&form);
        store_provider_config(&mut self.providers, source, form);
        let target = match protocol_toggled_provider(&source, use_anthropic) {
            Some(p) => p,
            None => return None,
        };
        let transport = if use_anthropic { ProviderTransport::Anthropic } else { ProviderTransport::OpenAI };
        store_transport(&mut self.transports, sidebar_provider_kind(&source), transport);
        let target_config = provider_config_or_default(&self.providers, target);
        let seeded = seed_protocol_variant_config(&source, &target, &source_config, &target_config);
        let ghost kept = self.providers@;
        store_provider_config(&mut self.providers, target, seeded);
        let ghost with_target = self.providers@;
        let follows = self.set_active_provider_if_tracking(source, target);
        let loaded = self.transition_provider(target, source_config);
        proof {
            assert forall|k: ProviderKind| k != source && k != target implies #[trigger] config_of(self.providers@, k, 0)
                == config_of(old(self).providers@, k, 0) by {
                law_store_then_read(old(self).providers@, source, form, k);
                law_store_then_read(kept, target, seeded, k);
                law_store_then_read(with_target, source, source_config, k);
            }
            law_store_then_read(with_target, source, source_config, target);
            law_store_then_read(kept, target, seeded, target);
        }
        Some((follows, loaded))
    }
    /// Asks for the model list of the provider on screen (OpenAI-compatible
    /// or ChatGPT, and not already asking): the form's values are kept
    /// first; an OpenAI-compatible provider needs a base URL and a key that
    /// resolves (`env_value` is the value of the variable its key names).
    /// Returns the request to send, or `None` with the status explaining.
    pub fn begin_model_fetch(&mut self, form: ProviderConfig, env_value: Option<String>) -> (r: Option<ModelFetchRequest>)
        ensures
            final(self).active == old(self).active && final(self).selected == old(self).selected,
            final(self).transports@ == old(self).transports@,
            !lists_models(old(self).selected) || old(self).model_fetching ==> *final(self) == *old(self) && r is None,
            lists_models(old(self).selected) && !old(self).model_fetching ==> {
                &&& final(self).providers@ == stored(old(self).providers@, old(self).selected, form)
                &&& if old(self).selected == ProviderKind::ChatGPT {
                    &&& r matches Some(ModelFetchRequest::ChatGPT { config }) && config == form
                    &&& final(self).model_fetching && !final(self).model_status_error
                    &&& final(self).model_status matches Some(m) && m@ == fetching_message()
                } else {
                    match trimmed_setting(form.base_url) {
                        None => {
                            &&& r is None && !final(self).model_fetching && final(self).model_status_error
                            &&& final(self).model_status matches Some(m) && m@ == missing_base_url_message()
                        },
                        Some(base) => match key_resolution(form, env_value) {
                            Err(e) => {
                                &&& r is None && !final(self).model_fetching && final(self).model_status_error
                                &&& final(self).model_status matches Some(m) && m@ == e
                            },
                            Ok(key) => {
                                &&& r matches Some(ModelFetchRequest::OpenAICompatible { base_url, api_key })
                                    && base_url@ == base && opt_text(api_key) == key
                                &&& final(self).model_fetching && !final(self).model_status_error
                                &&& final(self).model_status matches Some(m) && m@ == fetching_message()
                            },
                        },
                    }
                }
            },
    {
        let provider = self.selected;
        if !(provider == ProviderKind::OpenAICompatible || provider == ProviderKind::ChatGPT) || self.model_fetching {
            return None;
        }
        let config = copy_config(&form);
        store_provider_config(&mut self.providers, provider, form);
        let request = if provider == ProviderKind::ChatGPT {
            ModelFetchRequest::ChatGPT { config }
        } else {
            let base_url = match &config.base_url {
                Some(u) => {
                    let t = trim_str(u.as_str());
                    if t.is_empty() {
                        None
                    } else {
                        Some(t.to_owned())
                    }
                },
                None => None,
            };
            let base_url = match base_url {
                Some(b) => b,
                None => {
                    self.model_status = Some("Enter the provider Base URL, usually ending in /v1.".to_owned());
                    self.model_status_error = true;
                    return None;
                },
            };
            match resolve_provider_api_key(&config, env_value) {
                Ok(api_key) => ModelFetchRequest::OpenAICompatible { base_url, api_key },
                Err(message) => {
                    self.model_status = Some(message);
                    self.model_status_error = true;
                    return None;
                },
            }
        };
        self.model_fetching = true;
        self.model_status = Some("Fetching models from the provider…".to_owned());
        self.model_status_error = false;
        Some(request)
    }

    /// Takes the answer to a model list request for `provider`: the status
    /// tells the result. Returns which model lists to rebuild: the form's
    /// (the provider is on screen), the active provider's, and the
    /// suggestion provider's (`suggestion_provider` is the one in use).
    pub fn finish_model_fetch(
        &mut self,
        provider: ProviderKind,
        outcome: ModelFetchOutcome,
        suggestion_provider: ProviderKind,
    ) -> (r: (bool, bool, bool))
        ensures
            !final(self).model_fetching,
            final(self).active == old(self).active && final(self).selected == old(self).selected,
            final(self).providers@ == old(self).providers@ && final(self).transports@ == old(self).transports@,
            match outcome {
                ModelFetchOutcome::Failed(e) => {
                    &&& r == (false, false, false) && final(self).model_status_error
                    &&& final(self).model_status matches Some(m) && m@ == fetch_failed_message(e@)
                },
                ModelFetchOutcome::Fetched { count, store_error } => if count == 0 {
                    &&& r == (false, false, false) && final(self).model_status_error
                    &&& final(self).model_status matches Some(m) && m@ == no_models_message()
                } else {
                    match store_error {
                        Some(e) => {
                            &&& r == (false, false, false) && final(self).model_status_error
                            &&& final(self).model_status == Some(e)
                        },
                        None => {
                            &&& r == (old(self).selected == provider, old(self).active == provider, suggestion_provider == provider)
                            &&& !final(self).model_status_error
                            &&& final(self).model_status matches Some(m) && m@ == fetched_message(count as nat)
                        },
                    }
                },
            },
    {
        self.model_fetching = false;
        match outcome {
            ModelFetchOutcome::Failed(e) => {
                let mut m = String::new();
                m.append("Could not fetch models: ");
                m.append(e.as_str());
                m.append(". Type the model ID manually.");
                proof {
                    assert(m@ =~= fetch_failed_message(e@));
                }
                self.model_status = Some(m);
                self.model_status_error = true;
                (false, false, false)
            },
            ModelFetchOutcome::Fetched { count, store_error } => {
                if count == 0 {
                    self.model_status = Some(
                        "The endpoint responded, but returned no models. Type the model ID manually.".to_owned(),
                    );
                    self.model_status_error = true;
                    return (false, false, false);
                }
                match store_error {
                    Some(e) => {
                        self.model_status = Some(e);
                        self.model_status_error = true;
                        (false, false, false)
                    },
                    None => {
                        let rebuild = (self.selected == provider, self.active == provider, suggestion_provider == provider);
                        let mut m = String::new();
                        m.append("Fetched ");
                        push_decimal(&mut m, count);
                        m.append(" model");
                        if count != 1 {
                            m.append("s");
                        }
                        m.append(".");
                        proof {
                            assert(m@ =~= fetched_message(count as nat));
                        }
                        self.model_status = Some(m);
                        self.model_status_error = false;
                        rebuild
                    },
                }
            },
        }
    }
}

} // verus!
