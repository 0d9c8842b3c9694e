use vstd::prelude::*;
use crate::settings::{OAuthDevicePrompt, ProviderKind, ProviderOAuthState};

verus! {

/// The OAuth sign-in state of each provider that started one (the first
/// entry for a provider counts).
pub struct OAuthStates {
    pub states: Vec<(ProviderKind, ProviderOAuthState)>,
}

/// The state recorded for `k` at or after entry `i`.
pub open spec fn state_of(states: Seq<(ProviderKind, ProviderOAuthState)>, k: ProviderKind, i: int) -> Option<
    ProviderOAuthState,
>
    decreases states.len() - i,
{
    if i < 0 || i >= states.len() {
        None
    } else if states[i].0 == k {
        Some(states[i].1)
    } else {
        state_of(states, k, i + 1)
    }
}

/// Position of the first entry for `k` at or after `i`.
pub open spec fn state_index(states: Seq<(ProviderKind, ProviderOAuthState)>, k: ProviderKind, i: int) -> Option<int>
    decreases states.len() - i,
{
    if i < 0 || i >= states.len() {
        None
    } else if states[i].0 == k {
        Some(i)
    } else {
        state_index(states, k, i + 1)
    }
}

/// A sign-in that has not started.
pub open spec fn idle_state() -> ProviderOAuthState {
    ProviderOAuthState { in_progress: false, connected: false, prompt: None, status_message: None, error_message: None }
}

/// The entries once `k`'s state is `f` of its current one (the idle state
/// when it has none): the first entry for `k` changes, or one is added.
pub open spec fn updated_states(
    states: Seq<(ProviderKind, ProviderOAuthState)>,
    k: ProviderKind,
    new_state: ProviderOAuthState,
) -> Seq<(ProviderKind, ProviderOAuthState)> {
    match state_index(states, k, 0) {
        Some(i) => states.update(i, (k, new_state)),
        None => states.push((k, new_state)),
    }
}

/// The state of `k` before an update: its entry, or the idle state.
pub open spec fn current_state(states: Seq<(ProviderKind, ProviderOAuthState)>, k: ProviderKind) -> ProviderOAuthState {
    match state_of(states, k, 0) {
        Some(s) => s,
        None => idle_state(),
    }
}

proof fn lemma_state_index(states: Seq<(ProviderKind, ProviderOAuthState)>, k: ProviderKind, j: int)
    requires
        0 <= j,
    ensures
        state_of(states, k, j) == match state_index(states, k, j) {
            Some(i) => Some(states[i].1),
            None => None,
        },
        state_index(states, k, j) matches Some(i) ==> j <= i < states.len() && states[i].0 == k,
    decreases states.len() - j,
{
    if j < states.len() && states[j].0 != k {
        lemma_state_index(states, k, j + 1);
    }
}

/// How a sign-in ended.
pub enum OAuthOutcome {
    /// The provider authorized the app; the token is cached.
    Authorized,
    /// The provider refused, with its message.
    Failed(String),
    /// The sign-in task went away without an answer.
    Ended,
}

/// The status while waiting for the device code.
pub open spec fn waiting_message() -> Seq<char> {
    "Waiting for device authorization…"@
}

/// The status once the user has been sent to the browser.
pub open spec fn browser_message() -> Seq<char> {
    "Finish sign-in in your browser. Con will continue automatically."@
}

/// The status once the sign-in succeeded.
pub open spec fn authorized_message() -> Seq<char> {
    "Authorized and stored in Con’s auth cache."@
}

/// The error when the sign-in task went away.
pub open spec fn ended_message() -> Seq<char> {
    "OAuth flow ended unexpectedly."@
}

impl OAuthStates {
    /// The sign-in state of `provider`, if it started one.
    pub fn oauth_state(&self, provider: ProviderKind) -> (r: Option<&ProviderOAuthState>)
        ensures
            match state_of(self.states@, provider, 0) {
                Some(s) => r matches Some(x) && *x == s,
                None => r is None,
            },
    {
        let mut i: usize = 0;
        while i < self.states.len()
            invariant
                i <= self.states@.len(),
                state_of(self.states@, provider, 0) == state_of(self.states@, provider, i as int),
            decreases self.states@.len() - i,
        {
            if self.states[i].0 == provider {
                return Some(&self.states[i].1);
            }
            i = i + 1;
        }
        None
    }

    /// Replaces the sign-in state of `provider`.
    fn set_state(&mut self, provider: ProviderKind, state: ProviderOAuthState)
        ensures
            final(self).states@ == updated_states(old(self).states@, provider, state),
    {
        let mut i: usize = 0;
        while i < self.states.len()
            invariant
                i <= self.states@.len(),
                self.states@ == old(self).states@,
                state_index(self.states@, provider, 0) == state_index(self.states@, provider, i as int),
            decreases self.states@.len() - i,
        {
            if self.states[i].0 == provider {
                self.states.set(i, (provider, state));
                return;
            }
            i = i + 1;
        }
        self.states.push((provider, state));
    }

    fn current(&self, provider: ProviderKind) -> (r: ProviderOAuthState)
        ensures
            r == current_state(self.states@, provider),
    {
        match self.oauth_state(provider) {
            Some(s) => ProviderOAuthState {
                in_progress: s.in_progress,
                connected: s.connected,
                prompt: match &s.prompt {
                    Some(p) => Some(
                        OAuthDevicePrompt { verification_uri: p.verification_uri.clone(), user_code: p.user_code.clone() },
                    ),
                    None => None,
                },
                status_message: match &s.status_message {
                    Some(m) => Some(m.clone()),
                    None => None,
                },
                error_message: match &s.error_message {
                    Some(m) => Some(m.clone()),
                    None => None,
                },
            },
            None => ProviderOAuthState {
                in_progress: false,
                connected: false,
                prompt: None,
                status_message: None,
                error_message: None,
            },
        }
    }

    /// Starts a device sign-in for `provider`: in progress, not connected,
    /// no prompt yet, waiting.
    pub fn start_provider_oauth(&mut self, provider: ProviderKind)
        ensures
            ({
                let s = current_state(final(self).states@, provider);
                &&& s.in_progress && !s.connected && s.prompt is None && s.error_message is None
                &&& s.status_message matches Some(m) && m@ == waiting_message()
            }),
            final(self).states@ == updated_states(
                old(self).states@,
                provider,
                current_state(final(self).states@, provider),
            ),
    {
        let state = ProviderOAuthState {
            in_progress: true,
            connected: false,
            prompt: None,
            status_message: Some("Waiting for device authorization…".to_owned()),
            error_message: None,
        };
        let ghost expected = state;
        self.set_state(provider, state);
        proof {
            lemma_first_index_after_update(old(self).states@, provider, expected);
        }
    }

    /// The provider sent its device prompt: it is shown with the browser
    /// message, and the address to open is returned.
    pub fn oauth_prompt_received(&mut self, provider: ProviderKind, prompt: OAuthDevicePrompt) -> (r: String)
        ensures
            r@ == prompt.verification_uri@,
            ({
                let before = current_state(old(self).states@, provider);
                let s = current_state(final(self).states@, provider);
                &&& s.in_progress == before.in_progress && s.connected == before.connected
                &&& s.prompt == Some(prompt) && s.error_message is None
                &&& s.status_message matches Some(m) && m@ == browser_message()
            }),
            final(self).states@ == updated_states(
                old(self).states@,
                provider,
                current_state(final(self).states@, provider),
            ),
    {
        let uri = prompt.verification_uri.clone();
        let mut state = self.current(provider);
        state.prompt = Some(prompt);
        state.status_message = Some("Finish sign-in in your browser. Con will continue automatically.".to_owned());
        state.error_message = None;
        let ghost expected = state;
        self.set_state(provider, state);
        proof {
            lemma_first_index_after_update(old(self).states@, provider, expected);
        }
        uri
    }

    /// The sign-in ended: no longer in progress; on success connected with
    /// the authorized message, else not connected with the error. Returns
    /// whether the models should be fetched now (a ChatGPT sign-in while
    /// ChatGPT is on screen).
    pub fn oauth_finished(&mut self, provider: ProviderKind, outcome: OAuthOutcome, selected: ProviderKind) -> (r: bool)
        ensures
            r == (outcome is Authorized && provider == ProviderKind::ChatGPT && selected == provider),
            ({
                let before = current_state(old(self).states@, provider);
                let s = current_state(final(self).states@, provider);
                &&& !s.in_progress
                &&& match outcome {
                    OAuthOutcome::Authorized => {
                        &&& s.connected && s.prompt is None && s.error_message is None
                        &&& s.status_message matches Some(m) && m@ == authorized_message()
                    },
                    OAuthOutcome::Failed(e) => {
                        &&& !s.connected && s.prompt == before.prompt && s.status_message is None
                        &&& s.error_message == Some(e)
                    },
                    OAuthOutcome::Ended => {
                        &&& !s.connected && s.prompt == before.prompt && s.status_message is None
                        &&& s.error_message matches Some(m) && m@ == ended_message()
                    },
                }
            }),
            final(self).states@ == updated_states(
                old(self).states@,
                provider,
                current_state(final(self).states@, provider),
            ),
    {
        let mut state = self.current(provider);
        state.in_progress = false;
        let fetch = match outcome {
            OAuthOutcome::Authorized => {
                state.connected = true;
                state.prompt = None;
                state.status_message = Some("Authorized and stored in Con’s auth cache.".to_owned());
                state.error_message = None;
                provider == ProviderKind::ChatGPT && selected == provider
            },
            OAuthOutcome::Failed(e) => {
                state.connected = false;
                state.error_message = Some(e);
                state.status_message = None;
                false
            },
            OAuthOutcome::Ended => {
                state.connected = false;
                state.error_message = Some("OAuth flow ended unexpectedly.".to_owned());
                state.status_message = None;
                false
            },
        };
        let ghost expected = state;
        self.set_state(provider, state);
        proof {
            lemma_first_index_after_update(old(self).states@, provider, expected);
        }
        fetch
    }
}

/// After `k`'s state is replaced, reading `k` gives the new state.
pub proof fn lemma_first_index_after_update(
    states: Seq<(ProviderKind, ProviderOAuthState)>,
    k: ProviderKind,
    new_state: ProviderOAuthState,
)
    ensures
        current_state(updated_states(states, k, new_state), k) == new_state,
{
    let after = updated_states(states, k, new_state);
    lemma_state_index(states, k, 0);
    lemma_first_after(states, after, k, new_state, 0);
}

proof fn lemma_first_after(
    states: Seq<(ProviderKind, ProviderOAuthState)>,
    after: Seq<(ProviderKind, ProviderOAuthState)>,
    k: ProviderKind,
    new_state: ProviderOAuthState,
    j: int,
)
    requires
        0 <= j <= states.len(),
        after == updated_states(states, k, new_state),
        state_index(states, k, j) == state_index(states, k, 0),
    ensures
        state_of(after, k, j) == Some(new_state),
    decreases states.len() - j,
{
    lemma_state_index(states, k, 0);
    lemma_state_index(states, k, j);
    match state_index(states, k, 0) {
        Some(i) => {
            if j < i {
                assert(states[j].0 != k);
                assert(after[j] == states[j]);
                lemma_first_after(states, after, k, new_state, j + 1);
            } else {
                assert(j == i);
                assert(after[i] == (k, new_state));
            }
        },
        None => {
            if j < states.len() {
                assert(states[j].0 != k);
                assert(after[j] == states[j]);
                lemma_first_after(states, after, k, new_state, j + 1);
            } else {
                assert(after[j] == (k, new_state));
            }
        },
    }
}

} // verus!
