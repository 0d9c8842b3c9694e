use vstd::prelude::*;
use crate::endpoints::{ProviderConfig, opt_text};
use crate::text::{chars_of, decimal, digit_char, push_decimal_u64, trim_str, trim_text};
use crate::settings::ProviderKind;
use crate::endpoints::{endpoint_label_for_base_url, endpoint_label_of};

verus! {

/// A character allowed in the name of an environment variable typed into
/// the key field: an ASCII capital, a digit or `_`.
pub open spec fn is_env_name_char(c: char) -> bool {
    ('A' <= c && c <= 'Z') || ('0' <= c && c <= '9') || c == '_'
}

/// Whether the key field holds the name of an environment variable rather
/// than a key.
pub open spec fn is_env_var_name(t: Seq<char>) -> bool {
    t.len() > 0 && forall|i: int| 0 <= i < t.len() ==> is_env_name_char(#[trigger] t[i])
}

/// Whether `text` names an environment variable.
pub fn is_env_var_text(text: &str) -> (r: bool)
    ensures
        r == is_env_var_name(text@),
{
    let cs = chars_of(text);
    if cs.len() == 0 {
        return false;
    }
    let mut i: usize = 0;
    while i < cs.len()
        invariant
            cs@ == text@,
            i <= cs@.len(),
            forall|k: int| 0 <= k < i ==> is_env_name_char(#[trigger] cs@[k]),
        decreases cs@.len() - i,
    {
        let c = cs[i];
        if !(('A' <= c && c <= 'Z') || ('0' <= c && c <= '9') || c == '_') {
            return false;
        }
        i = i + 1;
    }
    true
}

/// Whether every character is an ASCII digit.
pub open spec fn all_digits(s: Seq<char>) -> bool {
    forall|i: int| 0 <= i < s.len() ==> '0' <= #[trigger] s[i] && s[i] <= '9'
}

/// The number written by the decimal digits `s`.
pub open spec fn digits_value(s: Seq<char>) -> nat
    decreases s.len(),
{
    if s.len() == 0 {
        0
    } else {
        digits_value(s.drop_last()) * 10 + ((s.last() as int) - ('0' as int)) as nat
    }
}

/// The digits of a decimal number: `s` without a leading `+`.
pub open spec fn unsigned_digits(s: Seq<char>) -> Seq<char> {
    if s.len() > 0 && s[0] == '+' {
        s.subrange(1, s.len() as int)
    } else {
        s
    }
}

/// The value of `s` read as an unsigned 64-bit decimal number (an optional
/// `+`, then at least one digit, and no more than fits); `None` otherwise.
pub open spec fn parsed_u64(s: Seq<char>) -> Option<u64> {
    let d = unsigned_digits(s);
    if d.len() > 0 && all_digits(d) && digits_value(d) <= u64::MAX {
        Some(digits_value(d) as u64)
    } else {
        None
    }
}

proof fn lemma_digits_value_grows(d: Seq<char>, i: int)
    requires
        0 <= i <= d.len(),
        all_digits(d),
    ensures
        digits_value(d.take(i)) <= digits_value(d),
    decreases d.len() - i,
{
    if i < d.len() {
        lemma_digits_value_grows(d, i + 1);
        assert(d.take(i + 1).drop_last() =~= d.take(i));
    } else {
        assert(d.take(i) =~= d);
    }
}

/// Reads an unsigned 64-bit decimal number, as `str::parse` does.
pub fn parse_u64(text: &str) -> (r: Option<u64>)
    ensures
        r == parsed_u64(text@),
{
    let cs = chars_of(text);
    let start: usize = if cs.len() > 0 && cs[0] == '+' { 1 } else { 0 };
    let ghost d = unsigned_digits(text@);
    proof {
        assert(d =~= cs@.subrange(start as int, cs@.len() as int));
    }
    if start >= cs.len() {
        return None;
    }
    let mut value: u64 = 0;
    let mut i: usize = start;
    while i < cs.len()
        invariant
            cs@ == text@,
            start <= i <= cs@.len(),
            d == cs@.subrange(start as int, cs@.len() as int),
            d == unsigned_digits(text@),
            all_digits(d.take(i - start)),
            value as nat == digits_value(d.take(i - start)),
        decreases cs@.len() - i,
    {
        let c = cs[i];
        if !('0' <= c && c <= '9') {
            proof {
                assert(d[i - start] == c);
                assert(!all_digits(d));
            }
            return None;
        }
        let digit = (c as u32 - '0' as u32) as u64;
        proof {
            assert(d.take(i - start + 1).drop_last() =~= d.take(i - start));
            assert(d.take(i - start + 1).last() == c);
            assert(all_digits(d.take(i - start + 1)));
            assert(digits_value(d.take(i - start + 1)) == value * 10 + digit);
        }
        let scaled = value.checked_mul(10);
        match scaled {
            None => {
                proof {
                    if all_digits(d) {
                        lemma_digits_value_grows(d, i - start + 1);
                    }
                }
                return None;
            },
            Some(m) => {
                match m.checked_add(digit) {
                    None => {
                        proof {
                            if all_digits(d) {
                                lemma_digits_value_grows(d, i - start + 1);
                            }
                        }
                        return None;
                    },
                    Some(v) => {
                        value = v;
                    },
                }
            },
        }
        i = i + 1;
    }
    proof {
        assert(d.take(i - start) =~= d);
    }
    Some(value)
}

/// A text field's value as an optional setting: `None` when empty.
pub open spec fn nonempty_text(t: Seq<char>) -> Option<Seq<char>> {
    if t.len() == 0 {
        None
    } else {
        Some(t)
    }
}

/// The values of a configuration.
pub open spec fn config_view(c: ProviderConfig) -> (
    Option<Seq<char>>,
    Option<Seq<char>>,
    Option<Seq<char>>,
    Option<u64>,
    Option<Seq<char>>,
) {
    (opt_text(c.model), opt_text(c.api_key), opt_text(c.api_key_env), c.max_tokens, opt_text(c.base_url))
}

/// The configuration values the form's texts stand for (model, key, key
/// variable, token limit, base URL): the key text is a variable name or a
/// key; an empty text leaves its value unset; the token limit is unset
/// unless it reads as a number.
pub open spec fn read_view(key: Seq<char>, model: Seq<char>, base_url: Seq<char>, max_tokens: Seq<char>) -> (
    Option<Seq<char>>,
    Option<Seq<char>>,
    Option<Seq<char>>,
    Option<u64>,
    Option<Seq<char>>,
) {
    (
        nonempty_text(model),
        if key.len() == 0 || is_env_var_name(key) { None } else { Some(key) },
        if is_env_var_name(key) { Some(key) } else { None },
        if max_tokens.len() == 0 { None } else { parsed_u64(max_tokens) },
        nonempty_text(base_url),
    )
}

fn nonempty_string(t: String) -> (r: Option<String>)
    ensures
        opt_text(r) == nonempty_text(t@),
{
    if t.as_str().is_empty() {
        None
    } else {
        Some(t)
    }
}

/// A provider's configuration as the form shows it: the key field holds a
/// key or the name of a variable that holds one; empty fields are unset;
/// the token limit is unset unless it reads as a number.
pub fn provider_config_from_inputs(
    key_text: String,
    model_text: String,
    base_url_text: String,
    max_tokens_text: &str,
) -> (r: ProviderConfig)
    ensures
        config_view(r) == read_view(key_text@, model_text@, base_url_text@, max_tokens_text@),
{
    let is_env_var = is_env_var_text(key_text.as_str());
    let (api_key, api_key_env) = if key_text.as_str().is_empty() {
        (None, None)
    } else if is_env_var {
        (None, Some(key_text))
    } else {
        (Some(key_text), None)
    };
    let max_tokens = if max_tokens_text.is_empty() {
        None
    } else {
        parse_u64(max_tokens_text)
    };
    ProviderConfig {
        model: nonempty_string(model_text),
        api_key,
        api_key_env,
        max_tokens,
        base_url: nonempty_string(base_url_text),
    }
}

/// A setting with its surrounding whitespace removed, when anything is left.
pub open spec fn trimmed_setting(o: Option<String>) -> Option<Seq<char>> {
    match o {
        Some(s) => if trim_text(s@).len() > 0 {
            Some(trim_text(s@))
        } else {
            None
        },
        None => None,
    }
}

fn trimmed_string(o: &Option<String>) -> (r: Option<String>)
    ensures
        opt_text(r) == trimmed_setting(*o),
{
    match o {
        Some(s) => {
            let t = trim_str(s.as_str());
            if t.is_empty() {
                None
            } else {
                Some(t.to_owned())
            }
        },
        None => None,
    }
}

/// Where a provider's key comes from.
pub enum ApiKeySource {
    /// The key itself.
    Key(String),
    /// The environment variable of that name.
    EnvVar(String),
    /// No key is given.
    Missing,
}

/// Where the key of `c` comes from: its key (trimmed) when it has one,
/// else its variable (trimmed), else nowhere.
pub open spec fn key_source_matches(c: ProviderConfig, r: ApiKeySource) -> bool {
    match trimmed_setting(c.api_key) {
        Some(k) => r matches ApiKeySource::Key(s) && s@ == k,
        None => match trimmed_setting(c.api_key_env) {
            Some(n) => r matches ApiKeySource::EnvVar(s) && s@ == n,
            None => r is Missing,
        },
    }
}

/// Where the key of `config` comes from.
pub fn api_key_source(config: &ProviderConfig) -> (r: ApiKeySource)
    ensures
        key_source_matches(*config, r),
{
    match trimmed_string(&config.api_key) {
        Some(k) => ApiKeySource::Key(k),
        None => match trimmed_string(&config.api_key_env) {
            Some(n) => ApiKeySource::EnvVar(n),
            None => ApiKeySource::Missing,
        },
    }
}

/// The message for a key variable that is not set.
pub open spec fn env_unset_message(name: Seq<char>) -> Seq<char> {
    "Environment variable "@ + name + " is not set."@
}

/// The message for a key variable that holds only whitespace.
pub open spec fn env_empty_message(name: Seq<char>) -> Seq<char> {
    "Environment variable "@ + name + " is empty."@
}

/// The key to send for a configuration, or the error: its key when it has
/// one; else the value of its variable (`env`, `None` when not set), which
/// must hold more than whitespace; else no key.
pub open spec fn key_resolution(config: ProviderConfig, env: Option<String>) -> Result<Option<Seq<char>>, Seq<char>> {
    match trimmed_setting(config.api_key) {
        Some(k) => Ok(Some(k)),
        None => match trimmed_setting(config.api_key_env) {
            None => Ok(None),
            Some(n) => match trimmed_setting(env) {
                Some(v) => Ok(Some(v)),
                None => match env {
                    None => Err(env_unset_message(n)),
                    Some(_) => Err(env_empty_message(n)),
                },
            },
        },
    }
}

/// A key result by its text.
pub open spec fn key_result_view(r: Result<Option<String>, String>) -> Result<Option<Seq<char>>, Seq<char>> {
    match r {
        Ok(o) => Ok(opt_text(o)),
        Err(m) => Err(m@),
    }
}

/// The key to send for `config`. `env_value` is the value of the variable
/// that `api_key_source` names (`None` when it is not set); it is read only
/// when the key comes from that variable.
pub fn resolve_provider_api_key(config: &ProviderConfig, env_value: Option<String>) -> (r: Result<Option<String>, String>)
    ensures
        key_result_view(r) == key_resolution(*config, env_value),
{
    match api_key_source(config) {
        ApiKeySource::Key(k) => Ok(Some(k)),
        ApiKeySource::Missing => Ok(None),
        ApiKeySource::EnvVar(name) => {
            let mut m = String::new();
            m.append("Environment variable ");
            m.append(name.as_str());
            match &env_value {
                None => {
                    m.append(" is not set.");
                    proof {
                        assert(m@ =~= env_unset_message(name@));
                    }
                    Err(m)
                },
                Some(_) => match trimmed_string(&env_value) {
                    Some(v) => Ok(Some(v)),
                    None => {
                        m.append(" is empty.");
                        proof {
                            assert(m@ =~= env_empty_message(name@));
                        }
                        Err(m)
                    },
                },
            }
        },
    }
}

/// What the provider form shows.
pub struct ProviderFormInputs {
    pub key_text: String,
    pub model_text: String,
    pub base_url_text: String,
    pub endpoint_label: &'static str,
    pub max_tokens_text: String,
}

/// The text of an optional setting: empty when unset.
pub open spec fn setting_text(o: Option<String>) -> Seq<char> {
    match o {
        Some(s) => s@,
        None => Seq::empty(),
    }
}

fn setting_string(o: &Option<String>) -> (r: String)
    ensures
        r@ == setting_text(*o),
{
    match o {
        Some(s) => s.clone(),
        None => String::new(),
    }
}

/// The form's texts for a configuration (key, model, base URL, token
/// limit): the key, or else the key variable; unset values as empty text;
/// the token limit in decimal.
pub open spec fn shown_view(c: ProviderConfig) -> (Seq<char>, Seq<char>, Seq<char>, Seq<char>) {
    (
        if c.api_key is Some { setting_text(c.api_key) } else { setting_text(c.api_key_env) },
        setting_text(c.model),
        setting_text(c.base_url),
        match c.max_tokens {
            Some(n) => decimal(n as nat),
            None => Seq::empty(),
        },
    )
}

/// A configuration that the form can show as it is: a key that does not
/// read as a variable name, or a variable name, not both; no setting set
/// to empty text.
pub open spec fn form_representable(c: ProviderConfig) -> bool {
    &&& match (c.api_key, c.api_key_env) {
        (Some(k), None) => k@.len() > 0 && !is_env_var_name(k@),
        (None, Some(e)) => is_env_var_name(e@),
        (None, None) => true,
        (Some(_), Some(_)) => false,
    }
    &&& c.model matches Some(m) ==> m@.len() > 0
    &&& c.base_url matches Some(u) ==> u@.len() > 0
}

/// The form's texts for `config` of `provider`: the key, or else the key
/// variable; the model; the base URL and the name of its endpoint; the
/// token limit in decimal. Unset values show as empty text.
pub fn provider_form_inputs(provider: &ProviderKind, config: &ProviderConfig) -> (r: ProviderFormInputs)
    ensures
        (r.key_text@, r.model_text@, r.base_url_text@, r.max_tokens_text@) == shown_view(*config),
        r.endpoint_label@ == endpoint_label_of(*provider, opt_text(config.base_url)),
{
    let key_text = if config.api_key.is_some() {
        setting_string(&config.api_key)
    } else {
        setting_string(&config.api_key_env)
    };
    let base_url: Option<&str> = match &config.base_url {
        Some(u) => Some(u.as_str()),
        None => None,
    };
    let endpoint_label = endpoint_label_for_base_url(provider, base_url);
    let mut max_tokens_text = String::new();
    match config.max_tokens {
        Some(n) => {
            push_decimal_u64(&mut max_tokens_text, n);
            proof {
                assert(Seq::<char>::empty() + decimal(n as nat) =~= decimal(n as nat));
            }
        },
        None => {},
    }
    ProviderFormInputs {
        key_text,
        model_text: setting_string(&config.model),
        base_url_text: setting_string(&config.base_url),
        endpoint_label,
        max_tokens_text,
    }
}

/// `n` in decimal reads back as `n`.
pub proof fn lemma_decimal_digits(n: nat)
    ensures
        decimal(n).len() > 0,
        all_digits(decimal(n)),
        digits_value(decimal(n)) == n,
    decreases n,
{
    assert(forall|d: int| 0 <= d < 10 ==> '0' <= #[trigger] digit_char(d) <= '9' && (digit_char(d) as int) - ('0' as int) == d);
    if n >= 10 {
        lemma_decimal_digits(n / 10);
        let s = decimal(n);
        assert(s.drop_last() =~= decimal(n / 10));
        assert(s.last() == digit_char((n % 10) as int));
        assert(all_digits(s)) by {
            assert forall|i: int| 0 <= i < s.len() implies '0' <= #[trigger] s[i] && s[i] <= '9' by {
                if i < s.len() - 1 {
                    assert(s[i] == decimal(n / 10)[i]);
                }
            }
        }
        let d = (n % 10) as int;
        assert(0 <= d < 10);
        assert((digit_char(d) as int) - ('0' as int) == d);
        assert(digits_value(s) == digits_value(s.drop_last()) * 10 + ((s.last() as int) - ('0' as int)) as nat);
        assert(digits_value(s.drop_last()) == n / 10);
        assert((n / 10) * 10 + n % 10 == n);
    } else {
        let s = decimal(n);
        assert(s.drop_last() =~= Seq::<char>::empty());
        assert((digit_char(n as int) as int) - ('0' as int) == n);
        assert(digits_value(s) == digits_value(s.drop_last()) * 10 + ((s.last() as int) - ('0' as int)) as nat);
    }
}

/// A token limit written in decimal parses back to itself.
pub proof fn lemma_decimal_parses(n: u64)
    ensures
        parsed_u64(decimal(n as nat)) == Some(n),
{
    lemma_decimal_digits(n as nat);
    let s = decimal(n as nat);
    assert('0' <= s[0] && s[0] <= '9');
    assert(unsigned_digits(s) == s);
}

} // verus!
