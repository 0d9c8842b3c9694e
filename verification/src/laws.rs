use vstd::prelude::*;
use crate::pane_node::{
    lemma_extract_absent, NodeView, PaneId, PaneSurface, SplitDirection, SplitId, SplitPlacement,
    SurfaceId, TerminalId,
};
use crate::node_lemmas::{
    disjoint, id_range, lemma_extract_keeps_others, lemma_extract_shape, lemma_has_leaf_unfold,
    lemma_max_leaf, lemma_nodup_concat, lemma_normalize_shape, lemma_range_nodup, lemma_remap_shape,
    lemma_remove_shape, lemma_split_shape,
};
use crate::settings::{
    AgentPurpose, ProviderKind, anthropic_protocol, cursor_style_label_of, cursor_style_value_of,
    protocol_pair_of, purpose_label, sidebar_kind,
};
use crate::keybindings::{keybinding_field_names, keybinding_index};
use crate::sidebar_search::{SearchJob, SidebarSearchView, after_request, is_current};
use crate::provider_settings::{normalized_active, selection_target};
use crate::settings_lists::{moved_fallbacks, with_path};
use crate::provider_form::{config_view, form_representable, lemma_decimal_parses, read_view, shown_view};
use crate::settings_panel::{SettingsPanel, draft_restore_flags, persisted_restore_flags, reverted_restore_flag};
use crate::workspace::{
    ConWorkspace, agent_panel_focus, input_bar_focus, agent_panel_toggled, input_bar_toggled, left_panel_toggled, scope_picker_closed,
    scope_picker_toggled, sidebar_collapsed, tab_rail_revealed,
};
use crate::pane_tree::{
    focus_after_close, merged_root, moved_root, split_result, surface_from, terminal_leaf, toggled_zoom, zoom_after_close,
    SurfaceCreateOptions,
};

verus! {

broadcast use vstd::seq_lib::lemma_seq_concat_contains_all_elements;

/// Splitting an existing pane with a pane whose id is new adds exactly that
/// pane: every other pane stays, the count grows by one, and pane ids stay
/// unique.
pub proof fn law_split_adds_one_pane(
    root: NodeView,
    target: PaneId,
    direction: SplitDirection,
    placement: SplitPlacement,
    new_id: PaneId,
    new_surface_id: SurfaceId,
    terminal: TerminalId,
    options: SurfaceCreateOptions,
    split_id: SplitId,
)
    requires
        root.leaf_ids().no_duplicates(),
        root.has_leaf(target),
        !root.has_leaf(new_id),
    ensures
        ({
            let after = split_result(root, target, direction, placement, new_id, new_surface_id, terminal, options, split_id);
            &&& after.leaf_ids().len() == root.leaf_ids().len() + 1
            &&& after.leaf_ids().no_duplicates()
            &&& forall|x: PaneId| #![trigger after.has_leaf(x)] after.has_leaf(x) <==> (root.has_leaf(x) || x == new_id)
        }),
{
    let leaf = terminal_leaf(new_id, surface_from(new_surface_id, terminal, options));
    lemma_split_shape(root, target, leaf, direction, placement, split_id);
    assert(leaf.leaf_ids() =~= seq![new_id]);
    assert forall|x: PaneId| #![trigger leaf.has_leaf(x)] leaf.has_leaf(x) <==> x == new_id by {
        lemma_has_leaf_unfold(leaf, x);
    }
    assert(seq![new_id].no_duplicates());
    assert(disjoint(root.leaf_ids(), leaf.leaf_ids()));
}

/// Closing the pane that a split just created gives back the layout that
/// was there before the split, node for node.
pub proof fn law_close_undoes_split(
    root: NodeView,
    target: PaneId,
    direction: SplitDirection,
    placement: SplitPlacement,
    new_id: PaneId,
    new_surface_id: SurfaceId,
    terminal: TerminalId,
    options: SurfaceCreateOptions,
    split_id: SplitId,
)
    requires
        root.has_leaf(target),
        !root.has_leaf(new_id),
    ensures
        split_result(root, target, direction, placement, new_id, new_surface_id, terminal, options, split_id).remove_spec(new_id) == root,
    decreases root,
{
    let leaf = terminal_leaf(new_id, surface_from(new_surface_id, terminal, options));
    lemma_has_leaf_unfold(root, target);
    lemma_has_leaf_unfold(root, new_id);
    match root {
        NodeView::Leaf { id, .. } => {},
        NodeView::Split { first, second, .. } => {
            lemma_has_leaf_unfold(*first, new_id);
            lemma_has_leaf_unfold(*second, new_id);
            lemma_remove_shape(*first, new_id);
            lemma_remove_shape(*second, new_id);
            if first.has_leaf(target) {
                law_close_undoes_split(*first, target, direction, placement, new_id, new_surface_id, terminal, options, split_id);
                lemma_split_is_split(*first, target, leaf, direction, placement, split_id);
            } else {
                law_close_undoes_split(*second, target, direction, placement, new_id, new_surface_id, terminal, options, split_id);
                lemma_split_is_split(*second, target, leaf, direction, placement, split_id);
            }
        },
    }
}

/// Splitting a tree that holds the target gives a split node.
proof fn lemma_split_is_split(n: NodeView, t: PaneId, leaf: NodeView, d: SplitDirection, p: SplitPlacement, sid: SplitId)
    ensures
        n.has_leaf(t) ==> n.split_spec(t, leaf, d, p, sid) is Split,
{
    lemma_has_leaf_unfold(n, t);
}

/// Moving a pane keeps exactly the same panes, their number, and the
/// uniqueness of their ids, and numbers the splits from 0 without gaps.
pub proof fn law_move_keeps_panes(
    root: NodeView,
    source: PaneId,
    target: PaneId,
    direction: SplitDirection,
    placement: SplitPlacement,
    split_id: SplitId,
)
    requires
        root.leaf_ids().no_duplicates(),
        root.has_leaf(source),
        root.has_leaf(target),
        source != target,
        !root.split_ids().contains(split_id),
        root.split_count() <= usize::MAX,
    ensures
        ({
            let after = moved_root(root, source, target, direction, placement, split_id);
            &&& after.leaf_ids().len() == root.leaf_ids().len()
            &&& after.leaf_ids().no_duplicates()
            &&& forall|x: PaneId| #![trigger after.has_leaf(x)] after.has_leaf(x) <==> root.has_leaf(x)
            &&& after.split_ids() == id_range(root.split_count(), 0)
        }),
{
    lemma_extract_absent(root, source);
    lemma_extract_shape(root, source);
    lemma_extract_keeps_others(root, source, target);
    crate::node_lemmas::lemma_extract_split_count(root, source);
    lemma_has_leaf_unfold(root, source);
    lemma_has_leaf_unfold(root, target);
    let (rest, leaf) = root.extract_spec(source);
    let rest_v = rest->0;
    let leaf_v = leaf->0;
    lemma_split_shape(rest_v, target, leaf_v, direction, placement, split_id);
    crate::node_lemmas::lemma_split_split_count(rest_v, target, leaf_v, direction, placement, split_id);
    let joined = rest_v.split_spec(target, leaf_v, direction, placement, split_id);
    lemma_normalize_shape(joined, 0);
    assert(leaf_v.leaf_ids() =~= seq![source]);
    assert(leaf_v.split_count() == 0);
    assert forall|x: PaneId| #![trigger leaf_v.has_leaf(x)] leaf_v.has_leaf(x) <==> x == source by {
        lemma_has_leaf_unfold(leaf_v, x);
    }
    assert(seq![source].no_duplicates());
    assert(disjoint(rest_v.leaf_ids(), leaf_v.leaf_ids()));
    assert forall|x: PaneId| #![trigger joined.has_leaf(x)] joined.has_leaf(x) <==> root.has_leaf(x) by {
        lemma_extract_keeps_others(root, source, x);
    }
    assert(rest is Some);
    assert(rest_v.leaf_ids().len() + 1 == root.leaf_ids().len());
    assert(rest_v.has_leaf(target));
    assert(joined.leaf_ids().len() == root.leaf_ids().len());
    assert(rest_v.split_count() + 1 == root.split_count());
    assert(joined.split_count() == root.split_count());
    let after = moved_root(root, source, target, direction, placement, split_id);
    assert(after == joined.normalize_spec(0));
    assert(after.leaf_ids() == joined.leaf_ids());
    assert(rest_v.leaf_ids().no_duplicates());
    assert(joined.leaf_ids().no_duplicates());
    assert(after.split_ids() == id_range(joined.split_count(), 0));
    assert forall|x: PaneId| #![trigger after.has_leaf(x)] after.has_leaf(x) <==> root.has_leaf(x) by {
        assert(after.has_leaf(x) == joined.has_leaf(x));
    }
}

/// Merging places the incoming panes after every existing id: all pane ids
/// stay unique, the pane count is the sum, and the splits are numbered from
/// 0 without gaps.
pub proof fn law_merge_keeps_ids_unique(
    root: NodeView,
    incoming: NodeView,
    incoming_focus: PaneId,
    direction: SplitDirection,
    placement: SplitPlacement,
    split_id: SplitId,
)
    requires
        root.leaf_ids().no_duplicates(),
        root.max_leaf() + 1 + incoming.leaf_ids().len() <= usize::MAX,
        root.split_count() + incoming.split_count() < usize::MAX,
    ensures
        ({
            let after = merged_root(root, incoming, root.max_leaf() + 1, incoming_focus, direction, placement, split_id);
            &&& after.leaf_ids().no_duplicates()
            &&& after.leaf_ids().len() == root.leaf_ids().len() + incoming.leaf_ids().len()
            &&& after.split_ids() == id_range(root.split_count() + incoming.split_count() + 1, 0)
        }),
{
    let start = root.max_leaf() + 1;
    lemma_remap_shape(incoming, start, incoming_focus);
    let moved = incoming.remap_spec(start, incoming_focus).0;
    lemma_range_nodup(incoming.leaf_ids().len(), start);
    crate::pane_node::lemma_split_count_ids(incoming);
    crate::pane_node::lemma_split_count_ids(moved);
    crate::pane_node::lemma_split_count_ids(root);
    assert forall|x: PaneId| root.leaf_ids().contains(x) implies !moved.leaf_ids().contains(x) by {
        lemma_max_leaf(root, x);
    }
    assert forall|x: PaneId| moved.leaf_ids().contains(x) implies !root.leaf_ids().contains(x) by {
        lemma_max_leaf(root, x);
    }
    lemma_nodup_concat(root.leaf_ids(), moved.leaf_ids());
    lemma_nodup_concat(moved.leaf_ids(), root.leaf_ids());
    let joined = match placement {
        SplitPlacement::Before => NodeView::Split {
            split_id,
            direction,
            first: Box::new(moved),
            second: Box::new(root),
            ratio: crate::pane_node::HALF_RATIO,
        },
        SplitPlacement::After => NodeView::Split {
            split_id,
            direction,
            first: Box::new(root),
            second: Box::new(moved),
            ratio: crate::pane_node::HALF_RATIO,
        },
    };
    lemma_normalize_shape(joined, 0);
}

/// Toggling the zoom twice from an unzoomed tree leaves it unzoomed.
pub proof fn law_zoom_toggle_twice(leaf_count: nat, focused: PaneId)
    ensures
        toggled_zoom(leaf_count, focused, toggled_zoom(leaf_count, focused, None)) is None,
{
}

/// A surface created in a tree whose counters are intact gets an id that no
/// surface had before.
pub proof fn law_new_surface_is_fresh(tree: crate::pane_tree::PaneTree)
    requires
        tree.wf(),
        tree.next_surface() < usize::MAX,
    ensures
        !tree.root_view().surface_ids().contains(tree.next_surface()),
{
}

/// Renaming a surface changes its title and nothing the close lookup sees
/// about it otherwise.
pub proof fn law_rename_then_lookup(root: NodeView, sid: SurfaceId, title: Option<String>)
    ensures
        match root.close_candidate_spec(sid) {
            Some((p, s, last)) => {
                &&& root.rename_spec(sid, title).1
                &&& root.rename_spec(sid, title).0.close_candidate_spec(sid) == Some((p, crate::pane_node::surface_retitled(s, title), last))
            },
            None => !root.rename_spec(sid, title).1 && root.rename_spec(sid, title).0 == root,
        },
    decreases root,
{
    match root {
        NodeView::Leaf { content, .. } => {
            match content {
                crate::pane_node::ContentView::Terminal { surfaces, .. } => {
                    let k = crate::pane_node::surface_index(surfaces, sid);
                    crate::pane_node::lemma_surface_index_from_bounds(surfaces, sid, 0);
                    if k >= 0 {
                        let s2 = surfaces.update(k, crate::pane_node::surface_retitled(surfaces[k], title));
                        crate::pane_node::lemma_surface_index_from_bounds(s2, sid, 0);
                        lemma_index_same_ids(surfaces, s2, sid);
                    }
                },
                crate::pane_node::ContentView::Editor { .. } => {},
            }
        },
        NodeView::Split { first, second, .. } => {
            law_rename_then_lookup(*first, sid, title);
            law_rename_then_lookup(*second, sid, title);
        },
    }
}

/// Sequences with the same ids find a surface at the same index.
proof fn lemma_index_same_ids(a: Seq<PaneSurface>, b: Seq<PaneSurface>, sid: SurfaceId)
    requires
        a.len() == b.len(),
        forall|i: int| 0 <= i < a.len() ==> a[i].id == b[i].id,
    ensures
        crate::pane_node::surface_index(a, sid) == crate::pane_node::surface_index(b, sid),
{
    lemma_index_from_same_ids(a, b, sid, 0);
}

proof fn lemma_index_from_same_ids(a: Seq<PaneSurface>, b: Seq<PaneSurface>, sid: SurfaceId, k: int)
    requires
        a.len() == b.len(),
        forall|i: int| 0 <= i < a.len() ==> a[i].id == b[i].id,
    ensures
        crate::pane_node::surface_index_from(a, sid, k) == crate::pane_node::surface_index_from(b, sid, k),
    decreases a.len() - k,
{
    if k >= 0 && k < a.len() {
        lemma_index_from_same_ids(a, b, sid, k + 1);
    }
}

/// Opening and then closing the agent panel (or the reverse) leaves the
/// workspace as it was.
pub proof fn law_agent_panel_toggle_twice(w: ConWorkspace)
    ensures
        agent_panel_toggled(agent_panel_toggled(w)) == w,
{
}

/// Toggling the input bar twice leaves the workspace as it was, except
/// that the pane-scope picker ends up closed.
pub proof fn law_input_bar_toggle_twice(w: ConWorkspace)
    ensures
        input_bar_toggled(input_bar_toggled(w)) == scope_picker_closed(w),
{
}

/// Toggling the left panel twice restores it; without vertical tabs the
/// sidebar tools then match the panel again.
pub proof fn law_left_panel_toggle_twice(w: ConWorkspace)
    ensures
        left_panel_toggled(left_panel_toggled(w)) == (if w.vertical_tabs {
            w
        } else {
            ConWorkspace { sidebar_tools_open: w.left_panel_open, ..w }
        }),
{
}

/// Collapsing the sidebar a second time changes nothing.
pub proof fn law_collapse_sidebar_idempotent(w: ConWorkspace)
    ensures
        sidebar_collapsed(sidebar_collapsed(w)) == sidebar_collapsed(w),
{
}

/// Revealing the tab rail for a second new tab changes nothing more.
pub proof fn law_tab_rail_reveal_idempotent(w: ConWorkspace)
    ensures
        tab_rail_revealed(tab_rail_revealed(w)) == tab_rail_revealed(w),
{
}

/// Toggling the pane-scope picker twice leaves it as it was, with the
/// input bar shown.
pub proof fn law_scope_picker_toggle_twice(w: ConWorkspace, agent_mode: bool, pane_count: usize)
    ensures
        scope_picker_toggled(scope_picker_toggled(w, agent_mode, pane_count), agent_mode, pane_count) == (
        if agent_mode || pane_count <= 1 {
            w
        } else {
            ConWorkspace { input_bar_visible: true, ..w }
        }),
{
}

/// Choosing a protocol for a two-protocol provider gives the variant of
/// that protocol, under the same sidebar entry.
pub proof fn law_protocol_choice_round_trip(p: ProviderKind, use_anthropic: bool)
    ensures
        protocol_pair_of(p) matches Some((o, a)) ==> {
            let chosen = if use_anthropic { a } else { o };
            &&& anthropic_protocol(chosen) == use_anthropic
            &&& sidebar_kind(chosen) == sidebar_kind(p)
            &&& protocol_pair_of(chosen) == protocol_pair_of(p)
        },
{
}

/// A sidebar entry is its own entry.
pub proof fn law_sidebar_kind_idempotent(p: ProviderKind)
    ensures
        sidebar_kind(sidebar_kind(p)) == sidebar_kind(p),
{
}

/// Each cursor style label names a value that is labelled the same again.
pub proof fn law_cursor_style_label_round_trip(label: Seq<char>)
    requires
        label == "Block"@ || label == "Underline"@ || label == "Hollow Block"@ || label == "Bar"@,
    ensures
        cursor_style_label_of(cursor_style_value_of(label)) == label,
{
    reveal_strlit("Block");
    reveal_strlit("block");
    reveal_strlit("Underline");
    reveal_strlit("underline");
    reveal_strlit("Hollow Block");
    reveal_strlit("block_hollow");
    reveal_strlit("block-hollow");
    reveal_strlit("hollow");
    reveal_strlit("Bar");
    reveal_strlit("bar");
    let v = cursor_style_value_of(label);
    assert(crate::text::trim_text(v) =~= v) by {
        crate::text::lemma_trim_ascii_word(v);
    }
    assert(crate::settings::ascii_lowercased(v) =~= v);
}

/// An agent purpose survives being written as its label and read back.
pub proof fn law_ai_purpose_label_round_trip(p: AgentPurpose)
    ensures
        (if purpose_label(p) == "Explain"@ {
            AgentPurpose::Explain
        } else if purpose_label(p) == "Operate"@ {
            AgentPurpose::Operate
        } else {
            AgentPurpose::Build
        }) == p,
{
    reveal_strlit("Build");
    reveal_strlit("Explain");
    reveal_strlit("Operate");
    assert("Build"@.len() == 5 && "Explain"@.len() == 7 && "Operate"@.len() == 7);
    assert("Explain"@[0] != "Operate"@[0]);
}

/// A restore-text value that is already saved survives a revert of the
/// settings.
pub proof fn law_persisted_restore_survives_revert<C>(p: SettingsPanel<C>, enabled: bool)
    ensures
        reverted_restore_flag(persisted_restore_flags(p, enabled)) == enabled,
{
}

/// A restore-text value set in the draft only is undone by a revert, back
/// to the value the panel opened with.
pub proof fn law_draft_restore_undone_by_revert<C>(p: SettingsPanel<C>, enabled: bool)
    ensures
        reverted_restore_flag(draft_restore_flags(p, enabled)) == match p.preview_snapshot {
            Some(s) => s.restore_terminal_text,
            None => p.config.restore_terminal_text,
        },
{
}

/// A binding written through a keybinding's name is what reading that
/// name gives back; every other binding is unchanged.
pub proof fn law_keybinding_write_then_read(bindings: Seq<String>, field: Seq<char>, binding: String, other: Seq<char>)
    requires
        bindings.len() == keybinding_field_names().len(),
        keybinding_index(field) is Some,
    ensures
        ({
            let i = keybinding_index(field)->0;
            let after = bindings.update(i, binding);
            &&& after[i] == binding
            &&& (keybinding_index(other) matches Some(j) && j != i) ==> after[keybinding_index(other)->0] == bindings[keybinding_index(other)->0]
        }),
{
    crate::keybindings::lemma_field_index_bounds(keybinding_field_names(), field, 0);
    crate::keybindings::lemma_field_index_bounds(keybinding_field_names(), other, 0);
}

/// Once the sidebar asks for a new search, the results of a search it was
/// waiting for before are no longer accepted: every request moves the view
/// to a new generation.
pub proof fn law_new_request_supersedes_running_search<R>(
    before: SidebarSearchView<R>,
    after: SidebarSearchView<R>,
    started: Option<SearchJob>,
    running: SearchJob,
)
    requires
        is_current(before, running),
        after_request(before, after, started),
    ensures
        !is_current(after, running),
{
}

/// Clicking the sidebar entry of the provider on screen keeps that
/// provider on screen, whichever protocol variant it is.
pub proof fn law_clicking_own_entry_keeps_selection(
    selected: ProviderKind,
    transports: Seq<(ProviderKind, crate::settings::ProviderTransport)>,
)
    ensures
        selection_target(crate::settings::sidebar_kind(selected), selected, transports) == selected,
{
}

/// Adding a skill folder never lists a folder twice.
pub proof fn law_skill_paths_stay_unique(paths: Seq<String>, path: Seq<char>)
    requires
        paths.map_values(|p: String| p@).no_duplicates(),
    ensures
        with_path(paths, path).no_duplicates(),
        with_path(paths, path).contains(path),
{
    let texts = paths.map_values(|p: String| p@);
    if !texts.contains(path) {
        let after = texts.push(path);
        assert(after[texts.len() as int] == path);
        assert forall|i: int, j: int| 0 <= i < after.len() && 0 <= j < after.len() && i != j implies after[i] != after[j] by {
            if i < texts.len() && j < texts.len() {
            } else if i < texts.len() {
                assert(texts[i] != path);
            } else {
                assert(texts[j] != path);
            }
        }
    }
}

/// Moving a fallback font down one place and then back up restores the
/// list.
pub proof fn law_fallback_move_down_then_up(fallbacks: Seq<String>, index: int)
    requires
        0 <= index,
    ensures
        moved_fallbacks(moved_fallbacks(fallbacks, index, 1), index + 1, -1) == fallbacks,
{
    if index + 1 < fallbacks.len() {
        assert(moved_fallbacks(moved_fallbacks(fallbacks, index, 1), index + 1, -1) =~= fallbacks);
    }
}

/// The provider form reads back the configuration it shows, for every
/// configuration it can show as it is.
pub proof fn law_form_reads_back_what_it_shows(c: crate::endpoints::ProviderConfig)
    requires
        form_representable(c),
    ensures
        ({
            let (key, model, base_url, max_tokens) = shown_view(c);
            read_view(key, model, base_url, max_tokens) == config_view(c)
        }),
{
    match c.max_tokens {
        Some(n) => {
            lemma_decimal_parses(n);
            crate::provider_form::lemma_decimal_digits(n as nat);
        },
        None => {},
    }
}

/// Following the saved transport a second time changes nothing: the
/// settings open showing the active provider.
pub proof fn law_transport_normalization_idempotent(
    p: ProviderKind,
    transports: Seq<(ProviderKind, crate::settings::ProviderTransport)>,
)
    ensures
        normalized_active(normalized_active(p, transports), transports) == normalized_active(p, transports),
{
}

/// Closing a pane other than the focused one leaves focus where it was:
/// the focused pane survives the close.
pub proof fn law_close_keeps_surviving_focus(root: NodeView, target: PaneId, focused: PaneId)
    requires
        root.has_leaf(focused),
        focused != target,
    ensures
        root.remove_spec(target).has_leaf(focused),
        focus_after_close(root.remove_spec(target), focused) == focused,
{
    crate::node_lemmas::lemma_remove_keeps_others(root, target, focused);
}

/// Closing a pane other than the zoomed one keeps the zoom while more than
/// one pane remains; once a single pane is left, nothing stays zoomed.
pub proof fn law_close_keeps_surviving_zoom(root: NodeView, target: PaneId, zoomed: Option<PaneId>)
    requires
        zoomed matches Some(z) ==> root.has_leaf(z) && z != target,
    ensures
        root.remove_spec(target).leaf_ids().len() > 1 ==> zoom_after_close(root.remove_spec(target), zoomed) == zoomed,
        root.remove_spec(target).leaf_ids().len() <= 1 ==> zoom_after_close(root.remove_spec(target), zoomed) is None,
{
    if let Some(z) = zoomed {
        crate::node_lemmas::lemma_remove_keeps_others(root, target, z);
    }
}

/// Focus sync picks a pane whose shown terminal has window focus, and it
/// finds one whenever some pane shows such a terminal (pane ids distinct).
pub proof fn law_focus_sync_picks_a_focused_terminal(root: NodeView, focused: Seq<TerminalId>, x: PaneId)
    requires
        root.leaf_ids().no_duplicates(),
    ensures
        root.focused_pane_spec(focused) matches Some(p) ==> crate::node_lemmas::shows_focused_terminal(root, p, focused),
        crate::node_lemmas::shows_focused_terminal(root, x, focused) ==> root.focused_pane_spec(focused) is Some,
{
    crate::node_lemmas::lemma_focused_pane_shows_focused(root, focused);
    if crate::node_lemmas::shows_focused_terminal(root, x, focused) {
        crate::node_lemmas::lemma_focused_pane_found(root, focused, x);
    }
}

/// In regex mode the search compiles the trimmed query, case-insensitive
/// exactly when the search is not case-sensitive, and finds what that
/// expression finds.
pub proof fn law_regex_search_follows_case_option(
    query: Seq<char>,
    options: crate::search::SearchOptions,
    line: Seq<char>,
)
    requires
        options.regex,
        crate::text::trim_text(query).len() > 0,
    ensures
        crate::search::matcher_for(query, options) is Some <==> crate::search::regex_compiles(
            crate::text::trim_text(query),
            !options.case_sensitive,
        ),
        crate::search::matcher_for(query, options) matches Some(m) ==> crate::search::matcher_find(m, line) == match crate::search::regex_first_match(
            crate::text::trim_text(query),
            !options.case_sensitive,
            line,
        ) {
            Some((s, e)) => Some((s, (e - s) as usize)),
            None => None,
        },
{
}

/// A recorded shortcut spells every pressed modifier, in the order `cmd-`,
/// `ctrl-`, `alt-`, `shift-`, followed by the key, and nothing else.
pub proof fn law_recorded_binding_spells_modifiers(ks: crate::keybindings::Keystroke)
    ensures
        ({
            let b = crate::keybindings::binding_of(ks);
            let o1: int = if ks.platform { 4 } else { 0 };
            let o2: int = o1 + if ks.control { 5int } else { 0int };
            let o3: int = o2 + if ks.alt { 4int } else { 0int };
            let o4: int = o3 + if ks.shift { 6int } else { 0int };
            &&& b.len() == o4 + ks.key@.len()
            &&& ks.platform ==> b.subrange(0, 4) == "cmd-"@
            &&& ks.control ==> b.subrange(o1, o1 + 5) == "ctrl-"@
            &&& ks.alt ==> b.subrange(o2, o2 + 4) == "alt-"@
            &&& ks.shift ==> b.subrange(o3, o3 + 6) == "shift-"@
            &&& b.subrange(o4, b.len() as int) == ks.key@
        }),
{
    crate::keybindings::lemma_binding_spells_modifiers(ks);
}

/// Focus never goes to a hidden input bar: opening the agent panel with
/// the bar hidden focuses the panel's own input, closing it focuses the
/// terminal; showing or hiding the bar focuses the bar only when shown and
/// the panel's input only when the panel is open.
pub proof fn law_focus_never_goes_to_hidden_input_bar(open: bool, visible: bool)
    ensures
        agent_panel_focus(open, visible) == crate::workspace::WorkspaceEffect::FocusInputBar ==> open && visible,
        open && !visible ==> agent_panel_focus(open, visible) == crate::workspace::WorkspaceEffect::FocusAgentInlineInput,
        !open ==> agent_panel_focus(open, visible) == crate::workspace::WorkspaceEffect::FocusTerminal,
        input_bar_focus(visible, open) == crate::workspace::WorkspaceEffect::FocusInputBar ==> visible,
        input_bar_focus(visible, open) == crate::workspace::WorkspaceEffect::FocusAgentInlineInput ==> open && !visible,
{
}

} // verus!
