use vstd::prelude::*;
use crate::theme::same_text;
use crate::settings::{human_join, human_joined};

verus! {

/// The names of the configurable keybindings, in settings order.
pub open spec fn keybinding_field_names() -> Seq<Seq<char>> {
    seq![
        "global_summon"@,
        "quick_terminal"@,
        "new_window"@,
        "new_tab"@,
        "close_tab"@,
        "close_pane"@,
        "toggle_pane_zoom"@,
        "next_tab"@,
        "previous_tab"@,
        "settings"@,
        "command_palette"@,
        "toggle_agent"@,
        "toggle_input_bar"@,
        "focus_input"@,
        "ask_ai"@,
        "cycle_input_mode"@,
        "split_right"@,
        "split_down"@,
        "toggle_pane_scope"@,
        "toggle_left_panel"@,
        "focus_files"@,
        "search_files"@,
        "find_in_terminal"@,
        "collapse_sidebar"@,
        "new_surface"@,
        "new_surface_split_right"@,
        "new_surface_split_down"@,
        "next_surface"@,
        "previous_surface"@,
        "rename_surface"@,
        "close_surface"@,
        "quit"@
    ]
}

/// The configurable keybindings, one binding string per name of
/// `keybinding_field_names`, in that order.
pub struct KeybindingConfig {
    pub bindings: Vec<String>,
}

impl KeybindingConfig {
    /// One binding per configurable keybinding.
    pub open spec fn wf(&self) -> bool {
        self.bindings@.len() == keybinding_field_names().len()
    }

    /// A copy with the same bindings.
    pub fn duplicate(&self) -> (r: KeybindingConfig)
        ensures
            r.bindings@ == self.bindings@,
    {
        let mut bindings: Vec<String> = Vec::new();
        let mut i: usize = 0;
        while i < self.bindings.len()
            invariant
                i <= self.bindings@.len(),
                bindings@ == self.bindings@.take(i as int),
            decreases self.bindings@.len() - i,
        {
            bindings.push(self.bindings[i].clone());
            proof {
                assert(self.bindings@.take(i + 1) =~= self.bindings@.take(i as int).push(self.bindings@[i as int]));
            }
            i = i + 1;
        }
        proof {
            assert(self.bindings@.take(i as int) =~= self.bindings@);
        }
        KeybindingConfig { bindings }
    }
}

fn field_names() -> (r: Vec<&'static str>)
    ensures
        r@.map_values(|s: &'static str| s@) == keybinding_field_names(),
{
    let mut r: Vec<&'static str> = Vec::new();
    r.push("global_summon");
    r.push("quick_terminal");
    r.push("new_window");
    r.push("new_tab");
    r.push("close_tab");
    r.push("close_pane");
    r.push("toggle_pane_zoom");
    r.push("next_tab");
    r.push("previous_tab");
    r.push("settings");
    r.push("command_palette");
    r.push("toggle_agent");
    r.push("toggle_input_bar");
    r.push("focus_input");
    r.push("ask_ai");
    r.push("cycle_input_mode");
    r.push("split_right");
    r.push("split_down");
    r.push("toggle_pane_scope");
    r.push("toggle_left_panel");
    r.push("focus_files");
    r.push("search_files");
    r.push("find_in_terminal");
    r.push("collapse_sidebar");
    r.push("new_surface");
    r.push("new_surface_split_right");
    r.push("new_surface_split_down");
    r.push("next_surface");
    r.push("previous_surface");
    r.push("rename_surface");
    r.push("close_surface");
    r.push("quit");
    proof {
        assert(r@.map_values(|s: &'static str| s@) =~= keybinding_field_names());
    }
    r
}

/// Position of the first name equal to `field` at or after `k`.
pub open spec fn field_index_from(names: Seq<Seq<char>>, field: Seq<char>, k: int) -> Option<int>
    decreases names.len() - k,
{
    if k < 0 || k >= names.len() {
        None
    } else if names[k] == field {
        Some(k)
    } else {
        field_index_from(names, field, k + 1)
    }
}

/// Position of the keybinding named `field`, if there is one.
pub open spec fn keybinding_index(field: Seq<char>) -> Option<int> {
    field_index_from(keybinding_field_names(), field, 0)
}

pub proof fn lemma_field_index_bounds(names: Seq<Seq<char>>, field: Seq<char>, k: int)
    requires
        0 <= k,
    ensures
        field_index_from(names, field, k) matches Some(i) ==> k <= i < names.len() && names[i] == field,
    decreases names.len() - k,
{
    if k < names.len() && names[k] != field {
        lemma_field_index_bounds(names, field, k + 1);
    }
}

/// Position of the keybinding named `field`.
pub fn keybinding_field_index(field: &str) -> (r: Option<usize>)
    ensures
        match r {
            Some(i) => keybinding_index(field@) == Some(i as int),
            None => keybinding_index(field@) is None,
        },
{
    let names = field_names();
    let ghost nv = names@.map_values(|s: &'static str| s@);
    let mut i: usize = 0;
    while i < names.len()
        invariant
            i <= names@.len(),
            nv == names@.map_values(|s: &'static str| s@),
            nv == keybinding_field_names(),
            keybinding_index(field@) == field_index_from(nv, field@, i as int),
        decreases names@.len() - i,
    {
        proof {
            assert(nv[i as int] == names@[i as int]@);
        }
        if same_text(names[i], field) {
            return Some(i);
        }
        i = i + 1;
    }
    None
}

/// The binding of the keybinding named `field`.
pub fn keybinding_field<'a>(kb: &'a KeybindingConfig, field: &str) -> (r: Option<&'a str>)
    requires
        kb.wf(),
    ensures
        match keybinding_index(field@) {
            Some(i) => r matches Some(s) && s@ == kb.bindings@[i]@,
            None => r is None,
        },
{
    match keybinding_field_index(field) {
        Some(i) => {
            proof {
                lemma_field_index_bounds(keybinding_field_names(), field@, 0);
            }
            Some(kb.bindings[i].as_str())
        },
        None => None,
    }
}

/// The shipped binding of the keybinding named `field`, read from the
/// shipped keybindings `defaults`.
pub fn keybinding_default(defaults: &KeybindingConfig, field: &str) -> (r: Option<String>)
    requires
        defaults.wf(),
    ensures
        match keybinding_index(field@) {
            Some(i) => r matches Some(s) && s@ == defaults.bindings@[i]@,
            None => r is None,
        },
{
    match keybinding_field(defaults, field) {
        Some(b) => Some(b.to_owned()),
        None => None,
    }
}

/// Replaces the binding of the keybinding named `field`: whether it exists.
pub fn set_keybinding_field(kb: &mut KeybindingConfig, field: &str, binding: String) -> (r: bool)
    requires
        old(kb).wf(),
    ensures
        final(kb).wf(),
        r == keybinding_index(field@) is Some,
        match keybinding_index(field@) {
            Some(i) => final(kb).bindings@ == old(kb).bindings@.update(i, binding),
            None => final(kb).bindings@ == old(kb).bindings@,
        },
{
    match keybinding_field_index(field) {
        Some(i) => {
            proof {
                lemma_field_index_bounds(keybinding_field_names(), field@, 0);
            }
            kb.bindings.set(i, binding);
            true
        },
        None => false,
    }
}

/// The modifiers and key of a key press.
pub struct Keystroke {
    pub platform: bool,
    pub control: bool,
    pub alt: bool,
    pub shift: bool,
    pub key: String,
}

/// A key press as a binding: the pressed modifiers (cmd, ctrl, alt,
/// shift, in that order) and the key, joined by `-`.
pub open spec fn binding_of(ks: Keystroke) -> Seq<char> {
    (if ks.platform { "cmd-"@ } else { Seq::empty() }) + (if ks.control { "ctrl-"@ } else { Seq::empty() })
        + (if ks.alt { "alt-"@ } else { Seq::empty() }) + (if ks.shift { "shift-"@ } else { Seq::empty() }) + ks.key@
}

/// A key press in the binding format (for example `cmd-shift-d`).
pub fn keystroke_to_binding(ks: &Keystroke) -> (r: String)
    ensures
        r@ == binding_of(*ks),
        ({
            let o1: int = if ks.platform { 4 } else { 0 };
            let o2: int = o1 + if ks.control { 5int } else { 0int };
            let o3: int = o2 + if ks.alt { 4int } else { 0int };
            let o4: int = o3 + if ks.shift { 6int } else { 0int };
            &&& r@.len() == o4 + ks.key@.len()
            &&& ks.platform ==> r@.subrange(0, 4) == "cmd-"@
            &&& ks.control ==> r@.subrange(o1, o1 + 5) == "ctrl-"@
            &&& ks.alt ==> r@.subrange(o2, o2 + 4) == "alt-"@
            &&& ks.shift ==> r@.subrange(o3, o3 + 6) == "shift-"@
            &&& r@.subrange(o4, r@.len() as int) == ks.key@
        }),
{
    let mut s = String::new();
    let ghost e = s@;
    if ks.platform {
        s.append("cmd-");
    }
    let ghost a = s@;
    if ks.control {
        s.append("ctrl-");
    }
    let ghost b = s@;
    if ks.alt {
        s.append("alt-");
    }
    let ghost c = s@;
    if ks.shift {
        s.append("shift-");
    }
    let ghost d = s@;
    s.append(ks.key.as_str());
    proof {
        assert(e =~= Seq::<char>::empty());
        assert(s@ =~= binding_of(*ks));
        lemma_binding_spells_modifiers(*ks);
    }
    s
}

/// Where each pressed modifier and the key stand in a binding: `cmd-`,
/// `ctrl-`, `alt-`, `shift-` for the pressed ones, in that order, then the
/// key.
pub proof fn lemma_binding_spells_modifiers(ks: Keystroke)
    ensures
        ({
            let b = binding_of(ks);
            let o1: int = if ks.platform { 4 } else { 0 };
            let o2: int = o1 + if ks.control { 5int } else { 0int };
            let o3: int = o2 + if ks.alt { 4int } else { 0int };
            let o4: int = o3 + if ks.shift { 6int } else { 0int };
            &&& b.len() == o4 + ks.key@.len()
            &&& ks.platform ==> b.subrange(0, 4) == "cmd-"@
            &&& ks.control ==> b.subrange(o1, o1 + 5) == "ctrl-"@
            &&& ks.alt ==> b.subrange(o2, o2 + 4) == "alt-"@
            &&& ks.shift ==> b.subrange(o3, o3 + 6) == "shift-"@
            &&& b.subrange(o4, b.len() as int) == ks.key@
        }),
{
    reveal_strlit("cmd-");
    reveal_strlit("ctrl-");
    reveal_strlit("alt-");
    reveal_strlit("shift-");
    let p = if ks.platform { "cmd-"@ } else { Seq::<char>::empty() };
    let c = if ks.control { "ctrl-"@ } else { Seq::<char>::empty() };
    let a = if ks.alt { "alt-"@ } else { Seq::<char>::empty() };
    let sh = if ks.shift { "shift-"@ } else { Seq::<char>::empty() };
    let b = binding_of(ks);
    assert(b == p + c + a + sh + ks.key@);
    let o1 = p.len() as int;
    let o2 = o1 + c.len();
    let o3 = o2 + a.len();
    let o4 = o3 + sh.len();
    assert(b.subrange(0, o1) =~= p);
    assert(b.subrange(o1, o2) =~= c);
    assert(b.subrange(o2, o3) =~= a);
    assert(b.subrange(o3, o4) =~= sh);
    assert(b.subrange(o4, b.len() as int) =~= ks.key@);
}

/// Why saving the settings failed.
#[derive(Clone, Copy, Debug, PartialEq, Eq, Structural)]
pub enum SettingsSaveErrorKind {
    KeybindingConflict,
    Other,
}

/// The message for a binding claimed by several actions.
pub open spec fn conflict_message_of(binding: Seq<char>, actions: Seq<Seq<char>>) -> Seq<char> {
    "Shortcut conflict: "@ + binding + " is assigned to "@ + human_joined(actions)
        + ". Pick a different shortcut before saving."@
}

/// The message for a binding claimed by several actions.
pub fn keybinding_conflict_message(binding: &str, actions: &Vec<String>) -> (r: String)
    ensures
        r@ == conflict_message_of(binding@, actions@.map_values(|s: String| s@)),
{
    let mut s = String::new();
    s.append("Shortcut conflict: ");
    s.append(binding);
    s.append(" is assigned to ");
    let joined = human_join(actions);
    s.append(joined.as_str());
    s.append(". Pick a different shortcut before saving.");
    proof {
        assert(s@ =~= conflict_message_of(binding@, actions@.map_values(|s: String| s@)));
    }
    s
}

/// Shows a keybinding conflict (`message`) as the save error, or clears a
/// conflict error once there is none; other save errors stay.
pub fn sync_keybinding_conflict_error(
    save_error: &mut Option<String>,
    save_error_kind: &mut Option<SettingsSaveErrorKind>,
    message: Option<String>,
)
    ensures
        match message {
            Some(m) => *final(save_error) == Some(m) && *final(save_error_kind) == Some(SettingsSaveErrorKind::KeybindingConflict),
            None => if *old(save_error_kind) == Some(SettingsSaveErrorKind::KeybindingConflict) {
                *final(save_error) is None && *final(save_error_kind) is None
            } else {
                *final(save_error) == *old(save_error) && *final(save_error_kind) == *old(save_error_kind)
            },
        },
{
    match message {
        Some(m) => {
            *save_error = Some(m);
            *save_error_kind = Some(SettingsSaveErrorKind::KeybindingConflict);
        },
        None => {
            let is_conflict = match save_error_kind {
                Some(SettingsSaveErrorKind::KeybindingConflict) => true,
                _ => false,
            };
            if is_conflict {
                *save_error = None;
                *save_error_kind = None;
            }
        },
    }
}

} // verus!
