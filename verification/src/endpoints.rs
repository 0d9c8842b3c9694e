use vstd::prelude::*;
use crate::settings::ProviderKind;
use crate::text::{trim_str, trim_text};
use crate::theme::same_text;
use crate::layout::clone_opt_string;

verus! {

/// A named base URL of a provider.
#[derive(Clone, Copy, Debug, PartialEq, Eq)]
pub struct EndpointPreset {
    pub label: &'static str,
    pub base_url: &'static str,
}

/// The endpoint choice that leaves the base URL to the provider.
pub open spec fn default_label() -> Seq<char> {
    "Provider Default"@
}

/// The endpoint choice of a base URL that matches no preset.
pub open spec fn custom_label() -> Seq<char> {
    "Custom"@
}

pub open spec fn preset_view(p: EndpointPreset) -> (Seq<char>, Seq<char>) {
    (p.label@, p.base_url@)
}

/// The Kimi Coding endpoint (OpenAI-compatible only).
pub open spec fn kimi_coding() -> (Seq<char>, Seq<char>) {
    ("Kimi Coding"@, "https://api.kimi.com/coding/v1"@)
}

/// The named endpoints of a provider, (label, base URL).
pub open spec fn presets_of(p: ProviderKind) -> Seq<(Seq<char>, Seq<char>)> {
    match p {
        ProviderKind::MiniMax => seq![
            ("Global"@, "https://api.minimax.io/v1"@),
            ("China"@, "https://api.minimaxi.com/v1"@),
        ],
        ProviderKind::MiniMaxAnthropic => seq![
            ("Global"@, "https://api.minimax.io/anthropic"@),
            ("China"@, "https://api.minimaxi.com/anthropic"@),
        ],
        ProviderKind::Moonshot => seq![
            ("Global"@, "https://api.moonshot.ai/v1"@),
            ("China"@, "https://api.moonshot.cn/v1"@),
            kimi_coding(),
        ],
        ProviderKind::MoonshotAnthropic => seq![("Global"@, "https://api.moonshot.ai/anthropic"@)],
        ProviderKind::ZAI => seq![
            ("General"@, "https://api.z.ai/api/paas/v4"@),
            ("Coding"@, "https://api.z.ai/api/coding/paas/v4"@),
        ],
        ProviderKind::ZAIAnthropic => seq![("Anthropic"@, "https://api.z.ai/api/anthropic"@)],
        _ => Seq::empty(),
    }
}

/// Endpoints offered for a provider that belong to its other protocol.
pub open spec fn extra_presets_of(p: ProviderKind) -> Seq<(Seq<char>, Seq<char>)> {
    match p {
        ProviderKind::MoonshotAnthropic => seq![kimi_coding()],
        _ => Seq::empty(),
    }
}

fn kimi_coding_endpoint() -> (r: EndpointPreset)
    ensures
        preset_view(r) == kimi_coding(),
{
    EndpointPreset { label: "Kimi Coding", base_url: "https://api.kimi.com/coding/v1" }
}

fn preset(label: &'static str, base_url: &'static str) -> (r: EndpointPreset)
    ensures
        r.label == label && r.base_url == base_url,
{
    EndpointPreset { label, base_url }
}

/// The named endpoints of a provider.
pub fn provider_endpoint_presets(provider: &ProviderKind) -> (r: Vec<EndpointPreset>)
    ensures
        r@.map_values(|p: EndpointPreset| preset_view(p)) == presets_of(*provider),
{
    let mut r: Vec<EndpointPreset> = Vec::new();
    match provider {
        ProviderKind::MiniMax => {
            r.push(preset("Global", "https://api.minimax.io/v1"));
            r.push(preset("China", "https://api.minimaxi.com/v1"));
        },
        ProviderKind::MiniMaxAnthropic => {
            r.push(preset("Global", "https://api.minimax.io/anthropic"));
            r.push(preset("China", "https://api.minimaxi.com/anthropic"));
        },
        ProviderKind::Moonshot => {
            r.push(preset("Global", "https://api.moonshot.ai/v1"));
            r.push(preset("China", "https://api.moonshot.cn/v1"));
            r.push(kimi_coding_endpoint());
        },
        ProviderKind::MoonshotAnthropic => {
            r.push(preset("Global", "https://api.moonshot.ai/anthropic"));
        },
        ProviderKind::ZAI => {
            r.push(preset("General", "https://api.z.ai/api/paas/v4"));
            r.push(preset("Coding", "https://api.z.ai/api/coding/paas/v4"));
        },
        ProviderKind::ZAIAnthropic => {
            r.push(preset("Anthropic", "https://api.z.ai/api/anthropic"));
        },
        _ => {},
    }
    proof {
        assert(r@.map_values(|p: EndpointPreset| preset_view(p)) =~= presets_of(*provider));
    }
    r
}

/// Endpoints offered for a provider that belong to its other protocol.
pub fn extra_endpoint_presets(provider: &ProviderKind) -> (r: Vec<EndpointPreset>)
    ensures
        r@.map_values(|p: EndpointPreset| preset_view(p)) == extra_presets_of(*provider),
{
    let mut r: Vec<EndpointPreset> = Vec::new();
    match provider {
        ProviderKind::MoonshotAnthropic => {
            r.push(kimi_coding_endpoint());
        },
        _ => {},
    }
    proof {
        assert(r@.map_values(|p: EndpointPreset| preset_view(p)) =~= extra_presets_of(*provider));
    }
    r
}

/// The label of the first preset with this base URL.
pub open spec fn label_with_url(ps: Seq<(Seq<char>, Seq<char>)>, url: Seq<char>) -> Option<Seq<char>>
    decreases ps.len(),
{
    if ps.len() == 0 {
        None
    } else if ps[0].1 == url {
        Some(ps[0].0)
    } else {
        label_with_url(ps.drop_first(), url)
    }
}

/// The base URL of the first preset with this label.
pub open spec fn url_with_label(ps: Seq<(Seq<char>, Seq<char>)>, label: Seq<char>) -> Option<Seq<char>>
    decreases ps.len(),
{
    if ps.len() == 0 {
        None
    } else if ps[0].0 == label {
        Some(ps[0].1)
    } else {
        url_with_label(ps.drop_first(), label)
    }
}

/// The endpoint choice that a base URL stands for: the provider default
/// when blank, a preset's label when it is a preset's URL, else custom.
pub open spec fn endpoint_label_of(p: ProviderKind, base_url: Option<Seq<char>>) -> Seq<char> {
    match base_url {
        None => default_label(),
        Some(u) => {
            let t = trim_text(u);
            if t.len() == 0 {
                default_label()
            } else {
                match label_with_url(presets_of(p), t) {
                    Some(l) => l,
                    None => match label_with_url(extra_presets_of(p), t) {
                        Some(l) => l,
                        None => custom_label(),
                    },
                }
            }
        },
    }
}

fn find_label_with_url(ps: &Vec<EndpointPreset>, url: &str) -> (r: Option<&'static str>)
    ensures
        match r {
            Some(l) => label_with_url(ps@.map_values(|p: EndpointPreset| preset_view(p)), url@) == Some(l@),
            None => label_with_url(ps@.map_values(|p: EndpointPreset| preset_view(p)), url@) is None,
        },
{
    let ghost pv = ps@.map_values(|p: EndpointPreset| preset_view(p));
    let mut i: usize = 0;
    proof {
        assert(pv.subrange(0, pv.len() as int) =~= pv);
    }
    while i < ps.len()
        invariant
            i <= ps@.len(),
            pv == ps@.map_values(|p: EndpointPreset| preset_view(p)),
            label_with_url(pv, url@) == label_with_url(pv.subrange(i as int, pv.len() as int), url@),
        decreases ps@.len() - i,
    {
        proof {
            let rest = pv.subrange(i as int, pv.len() as int);
            assert(rest.drop_first() =~= pv.subrange(i + 1, pv.len() as int));
            assert(rest[0] == preset_view(ps@[i as int]));
        }
        if same_text(ps[i].base_url, url) {
            return Some(ps[i].label);
        }
        i = i + 1;
    }
    None
}

fn find_url_with_label(ps: &Vec<EndpointPreset>, label: &str) -> (r: Option<&'static str>)
    ensures
        match r {
            Some(u) => url_with_label(ps@.map_values(|p: EndpointPreset| preset_view(p)), label@) == Some(u@),
            None => url_with_label(ps@.map_values(|p: EndpointPreset| preset_view(p)), label@) is None,
        },
{
    let ghost pv = ps@.map_values(|p: EndpointPreset| preset_view(p));
    let mut i: usize = 0;
    proof {
        assert(pv.subrange(0, pv.len() as int) =~= pv);
    }
    while i < ps.len()
        invariant
            i <= ps@.len(),
            pv == ps@.map_values(|p: EndpointPreset| preset_view(p)),
            url_with_label(pv, label@) == url_with_label(pv.subrange(i as int, pv.len() as int), label@),
        decreases ps@.len() - i,
    {
        proof {
            let rest = pv.subrange(i as int, pv.len() as int);
            assert(rest.drop_first() =~= pv.subrange(i + 1, pv.len() as int));
            assert(rest[0] == preset_view(ps@[i as int]));
        }
        if same_text(ps[i].label, label) {
            return Some(ps[i].base_url);
        }
        i = i + 1;
    }
    None
}

/// The endpoint choice that `base_url` stands for.
pub fn endpoint_label_for_base_url(provider: &ProviderKind, base_url: Option<&str>) -> (r: &'static str)
    ensures
        r@ == endpoint_label_of(*provider, match base_url {
            Some(u) => Some(u@),
            None => None,
        }),
{
    let url = match base_url {
        Some(u) => trim_str(u),
        None => return "Provider Default",
    };
    if url.is_empty() {
        return "Provider Default";
    }
    match find_label_with_url(&provider_endpoint_presets(provider), url) {
        Some(l) => return l,
        None => {},
    }
    match find_label_with_url(&extra_endpoint_presets(provider), url) {
        Some(l) => l,
        None => "Custom",
    }
}

/// Whether the base URL is one of the provider's named presets.
pub open spec fn is_named_endpoint(p: ProviderKind, base_url: Option<Seq<char>>) -> bool {
    let l = endpoint_label_of(p, base_url);
    l != default_label() && l != custom_label()
}

/// The base URL to use after switching a provider to its other protocol:
/// the target's preset of the same name, else the target's only preset.
pub open spec fn mapped_base_url(source: ProviderKind, target: ProviderKind, source_url: Option<Seq<char>>) -> Option<Seq<char>> {
    let tp = presets_of(target);
    let only = if tp.len() == 1 { Some(tp[0].1) } else { None };
    if !is_named_endpoint(source, source_url) {
        only
    } else {
        match url_with_label(tp, endpoint_label_of(source, source_url)) {
            Some(u) => Some(u),
            None => only,
        }
    }
}

/// Whether the source's base URL is a named preset.
pub fn source_endpoint_is_named_preset(source_provider: &ProviderKind, source_base_url: Option<&str>) -> (r: bool)
    ensures
        r == is_named_endpoint(*source_provider, match source_base_url {
            Some(u) => Some(u@),
            None => None,
        }),
{
    let l = endpoint_label_for_base_url(source_provider, source_base_url);
    !same_text(l, "Provider Default") && !same_text(l, "Custom")
}

/// The target protocol's base URL for the source's endpoint.
pub fn mapped_protocol_base_url(source_provider: &ProviderKind, target_provider: &ProviderKind, source_base_url: Option<&str>) -> (r:
    Option<String>)
    ensures
        match r {
            Some(s) => mapped_base_url(*source_provider, *target_provider, match source_base_url {
                Some(u) => Some(u@),
                None => None,
            }) == Some(s@),
            None => mapped_base_url(*source_provider, *target_provider, match source_base_url {
                Some(u) => Some(u@),
                None => None,
            }) is None,
        },
{
    let source_label = endpoint_label_for_base_url(source_provider, source_base_url);
    let target_presets = provider_endpoint_presets(target_provider);
    proof {
        assert(target_presets@.map_values(|p: EndpointPreset| preset_view(p)).len() == target_presets@.len());
    }
    let only = if target_presets.len() == 1 {
        proof {
            assert(target_presets@.map_values(|p: EndpointPreset| preset_view(p))[0] == preset_view(target_presets@[0]));
        }
        Some(target_presets[0].base_url.to_owned())
    } else {
        None
    };
    if same_text(source_label, "Provider Default") || same_text(source_label, "Custom") {
        return only;
    }
    match find_url_with_label(&target_presets, source_label) {
        Some(u) => Some(u.to_owned()),
        None => only,
    }
}

/// The labels offered for choosing an endpoint.
pub open spec fn endpoint_options_of(p: ProviderKind) -> Seq<Seq<char>> {
    let ps = presets_of(p);
    let extra = extra_presets_of(p);
    if ps.len() == 0 && extra.len() == 0 {
        seq![default_label()]
    } else {
        let base = seq![default_label()] + ps.map_values(|x: (Seq<char>, Seq<char>)| x.0);
        let with_extra = if extra.len() > 0 && !base.contains(extra[0].0) {
            base.push(extra[0].0)
        } else {
            base
        };
        with_extra.push(custom_label())
    }
}

/// The labels offered for choosing a provider's endpoint: the default, its
/// presets, the other protocol's extra presets not already listed, and
/// custom.
pub fn endpoint_options(provider: &ProviderKind) -> (r: Vec<String>)
    ensures
        r@.map_values(|s: String| s@) == endpoint_options_of(*provider),
{
    let presets = provider_endpoint_presets(provider);
    let extra = extra_endpoint_presets(provider);
    let ghost pv = presets@.map_values(|p: EndpointPreset| preset_view(p));
    let ghost ev = extra@.map_values(|p: EndpointPreset| preset_view(p));
    proof {
        assert(pv.len() == presets@.len());
        assert(ev.len() == extra@.len());
        assert(ev.len() <= 1);
    }
    let mut options: Vec<String> = Vec::new();
    options.push("Provider Default".to_owned());
    if presets.len() == 0 && extra.len() == 0 {
        proof {
            assert(options@.map_values(|s: String| s@) =~= seq![default_label()]);
        }
        return options;
    }
    let mut i: usize = 0;
    while i < presets.len()
        invariant
            i <= presets@.len(),
            pv == presets@.map_values(|p: EndpointPreset| preset_view(p)),
            options@.map_values(|s: String| s@) == seq![default_label()] + pv.take(i as int).map_values(|x: (Seq<char>, Seq<char>)| x.0),
        decreases presets@.len() - i,
    {
        let ghost before = options@.map_values(|s: String| s@);
        let text = presets[i].label.to_owned();
        options.push(text);
        proof {
            assert(pv[i as int] == preset_view(presets@[i as int]));
            assert(options@.map_values(|s: String| s@) =~= before.push(text@));
            assert(pv.take(i + 1).map_values(|x: (Seq<char>, Seq<char>)| x.0) =~= pv.take(i as int).map_values(|x: (Seq<char>, Seq<char>)| x.0).push(pv[i as int].0));
            assert(options@.map_values(|s: String| s@) =~= seq![default_label()] + pv.take(i + 1).map_values(|x: (Seq<char>, Seq<char>)| x.0));
        }
        i = i + 1;
    }
    proof {
        assert(pv.take(i as int) =~= pv);
    }
    let ghost base = options@.map_values(|s: String| s@);
    if extra.len() > 0 {
        let label = extra[0].label;
        proof {
            assert(ev[0] == preset_view(extra@[0]));
        }
        let mut present = false;
        let mut j: usize = 0;
        while j < options.len()
            invariant
                j <= options@.len(),
                base == options@.map_values(|s: String| s@),
                present == (exists|k: int| 0 <= k < j && base[k] == label@),
            decreases options@.len() - j,
        {
            proof {
                assert(base[j as int] == options@[j as int]@);
            }
            if same_text(options[j].as_str(), label) {
                present = true;
            }
            j = j + 1;
        }
        if !present {
            let ghost before = options@.map_values(|s: String| s@);
            let text = label.to_owned();
            options.push(text);
            proof {
                assert(options@.map_values(|s: String| s@) =~= before.push(text@));
                assert(!base.contains(label@));
                assert(options@.map_values(|s: String| s@) =~= base.push(label@));
            }
        } else {
            proof {
                let k = choose|k: int| 0 <= k < j && base[k] == label@;
                assert(base.contains(label@));
            }
        }
    }
    let ghost with_extra = options@.map_values(|s: String| s@);
    let custom = "Custom".to_owned();
    options.push(custom);
    proof {
        assert(options@.map_values(|s: String| s@) =~= with_extra.push(custom@));
    }
    options
}

/// The endpoint for a chosen label, with the provider it belongs to (an
/// extra preset of the Anthropic Moonshot variant belongs to Moonshot).
pub fn endpoint_preset_for_label(provider: &ProviderKind, label: &str) -> (r: Option<(ProviderKind, EndpointPreset)>)
    ensures
        match r {
            Some((owner, p)) => {
                &&& p.label@ == label@
                &&& match url_with_label(presets_of(*provider), label@) {
                    Some(u) => owner == *provider && p.base_url@ == u,
                    None => *provider == ProviderKind::MoonshotAnthropic && owner == ProviderKind::Moonshot
                        && url_with_label(extra_presets_of(*provider), label@) == Some(p.base_url@),
                }
            },
            None => url_with_label(presets_of(*provider), label@) is None && (*provider != ProviderKind::MoonshotAnthropic
                || url_with_label(extra_presets_of(*provider), label@) is None),
        },
{
    let presets = provider_endpoint_presets(provider);
    match find_url_with_label(&presets, label) {
        Some(u) => {
            return Some((*provider, EndpointPreset { label: find_label_text(&presets, label), base_url: u }));
        },
        None => {},
    }
    let extra = extra_endpoint_presets(provider);
    match find_url_with_label(&extra, label) {
        Some(u) => match provider {
            ProviderKind::MoonshotAnthropic => Some((ProviderKind::Moonshot, EndpointPreset { label: find_label_text(&extra, label), base_url: u })),
            _ => None,
        },
        None => None,
    }
}

/// The stored label text equal to `label` (a preset with that label exists).
fn find_label_text(ps: &Vec<EndpointPreset>, label: &str) -> (r: &'static str)
    requires
        url_with_label(ps@.map_values(|p: EndpointPreset| preset_view(p)), label@) is Some,
    ensures
        r@ == label@,
{
    let ghost pv = ps@.map_values(|p: EndpointPreset| preset_view(p));
    let mut i: usize = 0;
    proof {
        assert(pv.subrange(0, pv.len() as int) =~= pv);
    }
    while i < ps.len()
        invariant
            i <= ps@.len(),
            pv == ps@.map_values(|p: EndpointPreset| preset_view(p)),
            url_with_label(pv.subrange(i as int, pv.len() as int), label@) is Some,
        decreases ps@.len() - i,
    {
        proof {
            let rest = pv.subrange(i as int, pv.len() as int);
            assert(rest.drop_first() =~= pv.subrange(i + 1, pv.len() as int));
            assert(rest[0] == preset_view(ps@[i as int]));
        }
        if same_text(ps[i].label, label) {
            return ps[i].label;
        }
        i = i + 1;
    }
    proof {
        assert(pv.subrange(i as int, pv.len() as int).len() == 0);
    }
    ps[0].label
}

/// The part of a provider's configuration that switching protocols carries over.
pub struct ProviderConfig {
    pub model: Option<String>,
    pub api_key: Option<String>,
    pub api_key_env: Option<String>,
    pub max_tokens: Option<u64>,
    pub base_url: Option<String>,
}

pub open spec fn opt_text(o: Option<String>) -> Option<Seq<char>> {
    match o {
        Some(s) => Some(s@),
        None => None,
    }
}

/// The target protocol's configuration seeded from the source's: unset
/// fields are copied over, and the base URL is mapped when the target has
/// none or the source uses a named preset.
pub fn seed_protocol_variant_config(
    source_provider: &ProviderKind,
    target_provider: &ProviderKind,
    source: &ProviderConfig,
    target: &ProviderConfig,
) -> (r: ProviderConfig)
    ensures
        r.model == (if target.model is Some { target.model } else { source.model }),
        r.api_key == (if target.api_key is Some { target.api_key } else { source.api_key }),
        r.api_key_env == (if target.api_key_env is Some { target.api_key_env } else { source.api_key_env }),
        r.max_tokens == (if target.max_tokens is Some { target.max_tokens } else { source.max_tokens }),
        ({
            let mapped = mapped_base_url(*source_provider, *target_provider, opt_text(source.base_url));
            let target_empty = match target.base_url {
                Some(u) => trim_text(u@).len() == 0,
                None => true,
            };
            if mapped is Some && (target_empty || is_named_endpoint(*source_provider, opt_text(source.base_url))) {
                opt_text(r.base_url) == mapped
            } else {
                r.base_url == target.base_url
            }
        }),
{
    let model = if target.model.is_some() { clone_opt_string(&target.model) } else { clone_opt_string(&source.model) };
    let api_key = if target.api_key.is_some() { clone_opt_string(&target.api_key) } else { clone_opt_string(&source.api_key) };
    let api_key_env = if target.api_key_env.is_some() {
        clone_opt_string(&target.api_key_env)
    } else {
        clone_opt_string(&source.api_key_env)
    };
    let max_tokens = if target.max_tokens.is_some() { target.max_tokens } else { source.max_tokens };
    let target_base_url_is_empty = match &target.base_url {
        Some(u) => trim_str(u.as_str()).is_empty(),
        None => true,
    };
    let source_url: Option<&str> = match &source.base_url {
        Some(u) => Some(u.as_str()),
        None => None,
    };
    let mapped = mapped_protocol_base_url(source_provider, target_provider, source_url);
    let base_url = match mapped {
        Some(m) => {
            if target_base_url_is_empty || source_endpoint_is_named_preset(source_provider, source_url) {
                Some(m)
            } else {
                clone_opt_string(&target.base_url)
            }
        },
        None => clone_opt_string(&target.base_url),
    };
    ProviderConfig { model, api_key, api_key_env, max_tokens, base_url }
}

} // verus!
