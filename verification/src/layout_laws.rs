use vstd::prelude::*;
use crate::pane_node::{ContentView, NodeView, PaneId, PaneSurface, SurfaceId, TerminalId, surface_index, surface_index_from, lemma_surface_index_from_bounds};
use crate::node_lemmas::{lemma_normalize_shape, lemma_surface_ids_renumbered};
use crate::layout::{
    LayoutView, RESTORED_SCREEN_TEXT_MAX_BYTES, SurfaceStateView, TerminalCapture, kept_from, line_cost, node_state,
    surface_states_of, persisted_direction,
    skip_blank_from, trim_end_from, trimmed_screen_text,
};
use crate::restore::{
    MAX_RESTORED_RATIO, MIN_RESTORED_RATIO, allocated_id, clamped_ratio, f32_is_nan, f32_order_key,
    first_free_offset, is_first_free, restore_requests_of, restore_slots, restored_node, live_direction,
    restored_root, restored_surfaces, wrap_add,
};
use crate::text::is_blank;

verus! {

/// Pane ids of a persisted layout, left to right.
pub open spec fn layout_pane_ids(l: LayoutView) -> Seq<PaneId>
    decreases l,
{
    match l {
        LayoutView::Leaf { pane_id, .. } => seq![pane_id],
        LayoutView::Split { first, second, .. } => layout_pane_ids(*first) + layout_pane_ids(*second),
    }
}

/// Bytes that a run of lines costs against the screen-text budget.
pub open spec fn text_cost(lines: Seq<String>) -> int
    decreases lines.len(),
{
    if lines.len() == 0 {
        0
    } else {
        text_cost(lines.drop_last()) + line_cost(lines.last())
    }
}

/// Restoring asks for exactly as many terminals as it uses.
pub proof fn law_restore_requests_match_slots(l: LayoutView, restore_terminal_text: bool, error_owner: Seq<char>)
    ensures
        restore_requests_of(l, restore_terminal_text, error_owner).len() == restore_slots(l),
    decreases l,
{
    match l {
        LayoutView::Leaf { .. } => {},
        LayoutView::Split { first, second, .. } => {
            law_restore_requests_match_slots(*first, restore_terminal_text, error_owner);
            law_restore_requests_match_slots(*second, restore_terminal_text, error_owner);
        },
    }
}

proof fn lemma_surface_terminals(
    ss: Seq<SurfaceStateView>,
    i: int,
    terms: Seq<TerminalId>,
    ti: int,
    next: usize,
    used: Seq<usize>,
    req: Option<SurfaceId>,
    act: Option<SurfaceId>,
)
    requires
        0 <= i <= ss.len(),
        0 <= ti,
        ti + ss.len() - i <= terms.len(),
    ensures
        restored_surfaces(ss, i, terms, ti, next, used, req, act).0.map_values(|s: PaneSurface| s.terminal)
            == terms.subrange(ti, ti + ss.len() - i),
        restored_surfaces(ss, i, terms, ti, next, used, req, act).2 == ti + ss.len() - i,
    decreases ss.len() - i,
{
    if i < ss.len() {
        let (sid, next2) = allocated_id(Some(ss[i].surface_id), next, used);
        let act2 = if req == Some(ss[i].surface_id) {
            Some(sid)
        } else {
            act
        };
        lemma_surface_terminals(ss, i + 1, terms, ti + 1, next2, used.push(sid), req, act2);
        let r = restored_surfaces(ss, i, terms, ti, next, used, req, act);
        let rest = restored_surfaces(ss, i + 1, terms, ti + 1, next2, used.push(sid), req, act2);
        assert(r.0.map_values(|s: PaneSurface| s.terminal) =~= seq![terms[ti]] + rest.0.map_values(
            |s: PaneSurface| s.terminal,
        ));
        assert(terms.subrange(ti, ti + ss.len() - i) =~= seq![terms[ti]] + terms.subrange(
            ti + 1,
            ti + ss.len() - i,
        ));
    } else {
        assert(terms.subrange(ti, ti) =~= Seq::<TerminalId>::empty());
    }
}

proof fn lemma_node_terminals(l: LayoutView, terms: Seq<TerminalId>, ti: int, next: usize, used: Seq<usize>)
    requires
        0 <= ti,
        ti + restore_slots(l) <= terms.len(),
    ensures
        restored_node(l, terms, ti, next, used).0.all_surface_terminals() == terms.subrange(
            ti,
            ti + restore_slots(l),
        ),
        restored_node(l, terms, ti, next, used).1 == ti + restore_slots(l),
    decreases l,
{
    match l {
        LayoutView::Leaf { surfaces, active_surface_id, .. } => {
            if surfaces.len() == 0 {
                let r = restored_node(l, terms, ti, next, used);
                assert(r.0.all_surface_terminals() =~= terms.subrange(ti, ti + 1));
            } else {
                lemma_surface_terminals(surfaces, 0, terms, ti, next, used, active_surface_id, None);
            }
        },
        LayoutView::Split { first, second, .. } => {
            lemma_node_terminals(*first, terms, ti, next, used);
            let a = restored_node(*first, terms, ti, next, used);
            lemma_node_terminals(*second, terms, a.1, a.2, a.3);
            assert(terms.subrange(ti, ti + restore_slots(l)) =~= terms.subrange(ti, a.1) + terms.subrange(
                a.1,
                ti + restore_slots(l),
            ));
        },
    }
}

proof fn lemma_normalize_terminals(n: NodeView, k: int)
    ensures
        n.normalize_spec(k).all_surface_terminals() == n.all_surface_terminals(),
        n.normalize_spec(k).first_leaf() == n.first_leaf(),
    decreases n,
{
    match n {
        NodeView::Leaf { .. } => {},
        NodeView::Split { first, second, .. } => {
            lemma_normalize_terminals(*first, k + 1);
            lemma_normalize_terminals(*second, k + 1 + first.split_count());
        },
    }
}

/// Restoring a layout puts every created terminal into the tree exactly
/// once, in the order the restore requests listed them.
pub proof fn law_restore_uses_terminals_in_order(l: LayoutView, terms: Seq<TerminalId>)
    requires
        terms.len() == restore_slots(l),
    ensures
        restored_root(l, terms).all_surface_terminals() == terms,
{
    lemma_node_terminals(l, terms, 0, 0, Seq::empty());
    lemma_normalize_terminals(restored_node(l, terms, 0, 0, Seq::empty()).0, 0);
    assert(terms.subrange(0, terms.len() as int) =~= terms);
}

proof fn lemma_node_pane_ids(l: LayoutView, terms: Seq<TerminalId>, ti: int, next: usize, used: Seq<usize>)
    ensures
        restored_node(l, terms, ti, next, used).0.leaf_ids() == layout_pane_ids(l),
    decreases l,
{
    match l {
        LayoutView::Leaf { .. } => {},
        LayoutView::Split { first, second, .. } => {
            lemma_node_pane_ids(*first, terms, ti, next, used);
            let a = restored_node(*first, terms, ti, next, used);
            lemma_node_pane_ids(*second, terms, a.1, a.2, a.3);
        },
    }
}

/// Restoring keeps every pane of the layout, with its id, in order.
pub proof fn law_restore_keeps_pane_ids(l: LayoutView, terms: Seq<TerminalId>)
    ensures
        restored_root(l, terms).leaf_ids() == layout_pane_ids(l),
{
    lemma_node_pane_ids(l, terms, 0, 0, Seq::empty());
    lemma_normalize_shape(restored_node(l, terms, 0, 0, Seq::empty()).0, 0);
}

proof fn lemma_free_search(used: Seq<usize>, next: usize, k: int)
    requires
        used.no_duplicates(),
        used.len() <= usize::MAX,
        0 <= k <= used.len(),
        forall|j: int| 0 <= j < k ==> used.contains(#[trigger] wrap_add(next, j)),
    ensures
        exists|m: int| is_first_free(used, next, m),
    decreases used.len() - k,
{
    if !used.contains(wrap_add(next, k)) {
        assert(is_first_free(used, next, k));
    } else {
        crate::restore::lemma_run_fits(used, next, k);
        lemma_free_search(used, next, k + 1);
    }
}

/// Restoring never hands out an id that is already taken.
pub proof fn law_allocated_id_is_fresh(requested: Option<usize>, next: usize, used: Seq<usize>)
    requires
        used.no_duplicates(),
        used.len() <= usize::MAX,
    ensures
        !used.contains(allocated_id(requested, next, used).0),
{
    if !(requested is Some && !used.contains(requested->0)) {
        lemma_free_search(used, next, 0);
        let k = first_free_offset(used, next);
        assert(is_first_free(used, next, k));
    }
}

proof fn lemma_surface_ids_fresh(
    ss: Seq<SurfaceStateView>,
    i: int,
    terms: Seq<TerminalId>,
    ti: int,
    next: usize,
    used: Seq<usize>,
    req: Option<SurfaceId>,
    act: Option<SurfaceId>,
)
    requires
        0 <= i <= ss.len(),
        used.no_duplicates(),
        used.len() + ss.len() - i <= usize::MAX,
    ensures
        ({
            let r = restored_surfaces(ss, i, terms, ti, next, used, req, act);
            &&& r.4 == used + r.0.map_values(|s: PaneSurface| s.id)
            &&& r.4.no_duplicates()
        }),
    decreases ss.len() - i,
{
    if i < ss.len() {
        let (sid, next2) = allocated_id(Some(ss[i].surface_id), next, used);
        let act2 = if req == Some(ss[i].surface_id) {
            Some(sid)
        } else {
            act
        };
        law_allocated_id_is_fresh(Some(ss[i].surface_id), next, used);
        lemma_surface_ids_fresh(ss, i + 1, terms, ti + 1, next2, used.push(sid), req, act2);
        let r = restored_surfaces(ss, i, terms, ti, next, used, req, act);
        let rest = restored_surfaces(ss, i + 1, terms, ti + 1, next2, used.push(sid), req, act2);
        assert(r.0.map_values(|s: PaneSurface| s.id) =~= seq![sid] + rest.0.map_values(|s: PaneSurface| s.id));
        assert(used.push(sid) + rest.0.map_values(|s: PaneSurface| s.id) =~= used + r.0.map_values(|s: PaneSurface| s.id));
    } else {
        let r = restored_surfaces(ss, i, terms, ti, next, used, req, act);
        assert(used + r.0.map_values(|s: PaneSurface| s.id) =~= used);
    }
}

proof fn lemma_node_ids_fresh(l: LayoutView, terms: Seq<TerminalId>, ti: int, next: usize, used: Seq<usize>)
    requires
        used.no_duplicates(),
        used.len() + restore_slots(l) <= usize::MAX,
    ensures
        ({
            let r = restored_node(l, terms, ti, next, used);
            &&& r.3 == used + r.0.surface_ids()
            &&& r.3.no_duplicates()
        }),
    decreases l,
{
    match l {
        LayoutView::Leaf { surfaces, active_surface_id, .. } => {
            if surfaces.len() == 0 {
                law_allocated_id_is_fresh(None, next, used);
                let r = restored_node(l, terms, ti, next, used);
                assert(r.0.surface_ids() =~= seq![allocated_id(None, next, used).0]);
            } else {
                lemma_surface_ids_fresh(surfaces, 0, terms, ti, next, used, active_surface_id, None);
            }
        },
        LayoutView::Split { first, second, .. } => {
            lemma_node_ids_fresh(*first, terms, ti, next, used);
            let a = restored_node(*first, terms, ti, next, used);
            assert(a.3.len() == used.len() + a.0.surface_ids().len());
            crate::layout_laws::lemma_surface_count_bound(*first, terms, ti, next, used);
            lemma_node_ids_fresh(*second, terms, a.1, a.2, a.3);
            let b = restored_node(*second, terms, a.1, a.2, a.3);
            assert(b.3 =~= used + (a.0.surface_ids() + b.0.surface_ids()));
        },
    }
}

proof fn lemma_surface_count_bound(l: LayoutView, terms: Seq<TerminalId>, ti: int, next: usize, used: Seq<usize>)
    ensures
        restored_node(l, terms, ti, next, used).0.surface_ids().len() == restore_slots(l),
    decreases l,
{
    match l {
        LayoutView::Leaf { surfaces, active_surface_id, .. } => {
            if surfaces.len() > 0 {
                lemma_surface_terminals_len(surfaces, 0, terms, ti, next, used, active_surface_id, None);
            }
        },
        LayoutView::Split { first, second, .. } => {
            lemma_surface_count_bound(*first, terms, ti, next, used);
            let a = restored_node(*first, terms, ti, next, used);
            lemma_surface_count_bound(*second, terms, a.1, a.2, a.3);
        },
    }
}

proof fn lemma_surface_terminals_len(
    ss: Seq<SurfaceStateView>,
    i: int,
    terms: Seq<TerminalId>,
    ti: int,
    next: usize,
    used: Seq<usize>,
    req: Option<SurfaceId>,
    act: Option<SurfaceId>,
)
    requires
        0 <= i <= ss.len(),
    ensures
        restored_surfaces(ss, i, terms, ti, next, used, req, act).0.len() == ss.len() - i,
    decreases ss.len() - i,
{
    if i < ss.len() {
        let (sid, next2) = allocated_id(Some(ss[i].surface_id), next, used);
        let act2 = if req == Some(ss[i].surface_id) {
            Some(sid)
        } else {
            act
        };
        lemma_surface_terminals_len(ss, i + 1, terms, ti + 1, next2, used.push(sid), req, act2);
    }
}

/// No two surfaces of a restored tree share an id.
pub proof fn law_restored_surface_ids_distinct(l: LayoutView, terms: Seq<TerminalId>)
    requires
        restore_slots(l) <= usize::MAX,
    ensures
        restored_root(l, terms).surface_ids().no_duplicates(),
{
    lemma_node_ids_fresh(l, terms, 0, 0, Seq::empty());
    let r = restored_node(l, terms, 0, 0, Seq::empty());
    assert(Seq::<usize>::empty() + r.0.surface_ids() =~= r.0.surface_ids());
    lemma_surface_ids_renumbered(r.0, 0, 0);
}

proof fn lemma_kept_cost(lines: Seq<String>, lo: int, j: int, total: int)
    requires
        0 <= lo <= j <= lines.len(),
        total <= RESTORED_SCREEN_TEXT_MAX_BYTES,
    ensures
        0 <= kept_from(lines, lo, j, total) <= j - lo,
        total + text_cost(lines.subrange(j - kept_from(lines, lo, j, total), j))
            <= RESTORED_SCREEN_TEXT_MAX_BYTES,
    decreases j - lo,
{
    let k = kept_from(lines, lo, j, total);
    if j > lo {
        let cost = line_cost(lines[j - 1]);
        if !(cost > RESTORED_SCREEN_TEXT_MAX_BYTES || total + cost > RESTORED_SCREEN_TEXT_MAX_BYTES) {
            lemma_kept_cost(lines, lo, j - 1, total + cost);
            let s = lines.subrange(j - k, j);
            assert(s.drop_last() =~= lines.subrange(j - 1 - (k - 1), j - 1));
        } else {
            assert(lines.subrange(j, j).len() == 0);
        }
    } else {
        assert(lines.subrange(j, j).len() == 0);
    }
}

proof fn lemma_trim_end_nonblank(lines: Seq<String>, j: int)
    ensures
        trim_end_from(lines, j) > 0 ==> !is_blank(lines[trim_end_from(lines, j) - 1]@),
        0 <= trim_end_from(lines, j),
        0 < j <= lines.len() ==> trim_end_from(lines, j) <= j,
    decreases j,
{
    if j > 0 && j <= lines.len() && is_blank(lines[j - 1]@) {
        lemma_trim_end_nonblank(lines, j - 1);
    }
}

/// Stored screen text fits the byte budget, is the most recent run of the
/// captured lines, and (when there is any) ends with a non-blank line.
pub proof fn law_trimmed_text_fits(lines: Seq<String>)
    ensures
        text_cost(trimmed_screen_text(lines)) <= RESTORED_SCREEN_TEXT_MAX_BYTES,
        trimmed_screen_text(lines).len() > 0 ==> !is_blank(trimmed_screen_text(lines).last()@),
        trimmed_screen_text(lines).len() > 0 ==> exists|a: int, b: int|
            0 <= a <= b <= lines.len() && #[trigger] lines.subrange(a, b) == trimmed_screen_text(lines),
{
    let s = skip_blank_from(lines, 0);
    if s < lines.len() {
        let e = trim_end_from(lines, lines.len() as int);
        lemma_trim_end_nonblank(lines, lines.len() as int);
        crate::layout::lemma_skip_blank_bounds(lines, 0);
        crate::layout::lemma_trim_end_after(lines, lines.len() as int, s);
        lemma_kept_cost(lines, s, e, 0);
        let k = kept_from(lines, s, e, 0);
        let t = lines.subrange(e - k, e);
        if t.len() > 0 {
            assert(t.last() == lines[e - 1]);
        }
    } else {
        assert(text_cost(Seq::<String>::empty()) == 0);
    }
}

/// A clamped ratio lies in [0.05, 0.95] (a NaN stays NaN), and clamping
/// again changes nothing.
pub proof fn law_clamp_ratio(bits: u32)
    ensures
        !f32_is_nan(bits) ==> !f32_is_nan(clamped_ratio(bits)) && f32_order_key(MIN_RESTORED_RATIO)
            <= f32_order_key(clamped_ratio(bits)) <= f32_order_key(MAX_RESTORED_RATIO),
        clamped_ratio(clamped_ratio(bits)) == clamped_ratio(bits),
{
}

/// Ids of the terminal panes of a subtree, left to right (editor panes are
/// not saved).
pub open spec fn terminal_pane_ids(n: NodeView) -> Seq<PaneId>
    decreases n,
{
    match n {
        NodeView::Leaf { id, content } => match content {
            ContentView::Terminal { .. } => seq![id],
            ContentView::Editor { .. } => Seq::empty(),
        },
        NodeView::Split { first, second, .. } => terminal_pane_ids(*first) + terminal_pane_ids(*second),
    }
}

proof fn lemma_saved_pane_ids(n: NodeView, caps: Seq<TerminalCapture>, capture_screen_text: bool)
    ensures
        node_state(n, caps, capture_screen_text) is Some <==> terminal_pane_ids(n).len() > 0,
        node_state(n, caps, capture_screen_text) matches Some(l) ==> layout_pane_ids(l) == terminal_pane_ids(n),
    decreases n,
{
    match n {
        NodeView::Leaf { .. } => {},
        NodeView::Split { first, second, .. } => {
            lemma_saved_pane_ids(*first, caps, capture_screen_text);
            lemma_saved_pane_ids(*second, caps, capture_screen_text);
            if terminal_pane_ids(*first).len() == 0 {
                assert(terminal_pane_ids(n) =~= terminal_pane_ids(*second));
            }
            if terminal_pane_ids(*second).len() == 0 {
                assert(terminal_pane_ids(n) =~= terminal_pane_ids(*first));
            }
        },
    }
}

/// Saving a tab's layout and restoring it brings back its terminal panes,
/// with their ids, in order: a layout is saved exactly when the tab has a
/// terminal pane.
pub proof fn law_save_then_restore_keeps_panes(
    n: NodeView,
    caps: Seq<TerminalCapture>,
    capture_screen_text: bool,
    terms: Seq<TerminalId>,
)
    ensures
        node_state(n, caps, capture_screen_text) is Some <==> terminal_pane_ids(n).len() > 0,
        node_state(n, caps, capture_screen_text) matches Some(l) ==> restored_root(l, terms).leaf_ids()
            == terminal_pane_ids(n),
{
    lemma_saved_pane_ids(n, caps, capture_screen_text);
    match node_state(n, caps, capture_screen_text) {
        Some(l) => law_restore_keeps_pane_ids(l, terms),
        None => {},
    }
}

/// The surfaces `ss[i..]` showing the terminals `terms[ti..]` in order.
pub open spec fn fresh_surfaces(ss: Seq<PaneSurface>, i: int, terms: Seq<TerminalId>, ti: int) -> Seq<PaneSurface> {
    Seq::new(
        (ss.len() - i) as nat,
        |j: int|
            PaneSurface {
                id: ss[i + j].id,
                terminal: terms[ti + j],
                title: ss[i + j].title,
                owner: ss[i + j].owner,
                close_pane_when_last: ss[i + j].close_pane_when_last,
            },
    )
}

/// A subtree with its surfaces showing the terminals `terms[ti..]` in
/// order and its splits numbered 0; also the position after the terminals
/// it took.
pub open spec fn fresh_copy(n: NodeView, terms: Seq<TerminalId>, ti: int) -> (NodeView, int)
    decreases n,
{
    match n {
        NodeView::Leaf { id, content } => match content {
            ContentView::Terminal { surfaces, active_surface_id } => (
                NodeView::Leaf {
                    id,
                    content: ContentView::Terminal {
                        surfaces: fresh_surfaces(surfaces, 0, terms, ti),
                        active_surface_id,
                    },
                },
                ti + surfaces.len(),
            ),
            ContentView::Editor { .. } => (n, ti),
        },
        NodeView::Split { direction, ratio, first, second, .. } => {
            let a = fresh_copy(*first, terms, ti);
            let b = fresh_copy(*second, terms, a.1);
            (
                NodeView::Split { split_id: 0, direction, first: Box::new(a.0), second: Box::new(b.0), ratio },
                b.1,
            )
        },
    }
}

/// A subtree that a save and restore brings back as it is: terminal panes
/// only, each with a surface and showing one of its surfaces, and split
/// ratios that restoring does not clamp.
pub open spec fn restorable(n: NodeView) -> bool
    decreases n,
{
    match n {
        NodeView::Leaf { content, .. } => match content {
            ContentView::Terminal { surfaces, active_surface_id } => surfaces.len() > 0 && surface_index(
                surfaces,
                active_surface_id,
            ) >= 0,
            ContentView::Editor { .. } => false,
        },
        NodeView::Split { ratio, first, second, .. } => clamped_ratio(ratio) == ratio && restorable(*first)
            && restorable(*second),
    }
}

proof fn lemma_restore_saved_surfaces(
    surfaces: Seq<PaneSurface>,
    caps: Seq<TerminalCapture>,
    capture_screen_text: bool,
    i: int,
    terms: Seq<TerminalId>,
    ti: int,
    next: usize,
    used: Seq<usize>,
    active: SurfaceId,
    act: Option<SurfaceId>,
)
    requires
        0 <= i <= surfaces.len(),
        surfaces.map_values(|s: PaneSurface| s.id).no_duplicates(),
        forall|j: int| i <= j < surfaces.len() ==> !used.contains(#[trigger] surfaces[j].id),
    ensures
        ({
            let r = restored_surfaces(
                surface_states_of(surfaces, caps, capture_screen_text),
                i,
                terms,
                ti,
                next,
                used,
                Some(active),
                act,
            );
            &&& r.0 == fresh_surfaces(surfaces, i, terms, ti)
            &&& r.1 == (if surface_index_from(surfaces, active, i) >= 0 { Some(active) } else { act })
            &&& r.2 == ti + surfaces.len() - i
            &&& r.4 == used + surfaces.map_values(|s: PaneSurface| s.id).subrange(i, surfaces.len() as int)
        }),
    decreases surfaces.len() - i,
{
    let ss = surface_states_of(surfaces, caps, capture_screen_text);
    let ids = surfaces.map_values(|s: PaneSurface| s.id);
    if i < surfaces.len() {
        let sid = surfaces[i].id;
        assert(ss[i].surface_id == sid);
        let (a, next2) = allocated_id(Some(ss[i].surface_id), next, used);
        assert(a == sid);
        let act2 = if Some(active) == Some(sid) { Some(sid) } else { act };
        assert forall|j: int| i + 1 <= j < surfaces.len() implies !used.push(sid).contains(#[trigger] surfaces[j].id) by {
            assert(ids[j] != ids[i]);
            if used.push(sid).contains(surfaces[j].id) {
                let k = choose|k: int| 0 <= k < used.push(sid).len() && used.push(sid)[k] == surfaces[j].id;
                if k < used.len() {
                    assert(used.contains(surfaces[j].id));
                }
            }
        }
        lemma_restore_saved_surfaces(surfaces, caps, capture_screen_text, i + 1, terms, ti + 1, next2, used.push(sid), active, act2);
        let rest = restored_surfaces(ss, i + 1, terms, ti + 1, next2, used.push(sid), Some(active), act2);
        let r = restored_surfaces(ss, i, terms, ti, next, used, Some(active), act);
        assert(r.0 =~= fresh_surfaces(surfaces, i, terms, ti)) by {
            assert(r.0 == seq![PaneSurface {
                id: sid,
                terminal: terms[ti],
                title: ss[i].title,
                owner: ss[i].owner,
                close_pane_when_last: ss[i].close_pane_when_last,
            }] + rest.0);
        }
        assert(r.4 =~= used + ids.subrange(i, surfaces.len() as int)) by {
            assert(rest.4 == used.push(sid) + ids.subrange(i + 1, surfaces.len() as int));
        }
        lemma_surface_index_from_bounds(surfaces, active, i);
    } else {
        assert(fresh_surfaces(surfaces, i, terms, ti) =~= Seq::<PaneSurface>::empty());
        assert(used + ids.subrange(i, surfaces.len() as int) =~= used);
    }
}

proof fn lemma_restore_saved_node(
    n: NodeView,
    caps: Seq<TerminalCapture>,
    capture_screen_text: bool,
    terms: Seq<TerminalId>,
    ti: int,
    next: usize,
    used: Seq<usize>,
)
    requires
        restorable(n),
        n.surface_ids().no_duplicates(),
        forall|j: int| 0 <= j < n.surface_ids().len() ==> !used.contains(#[trigger] n.surface_ids()[j]),
    ensures
        node_state(n, caps, capture_screen_text) is Some,
        ({
            let r = restored_node(node_state(n, caps, capture_screen_text)->0, terms, ti, next, used);
            &&& r.0 == fresh_copy(n, terms, ti).0
            &&& r.1 == fresh_copy(n, terms, ti).1
            &&& r.3 == used + n.surface_ids()
        }),
    decreases n,
{
    match n {
        NodeView::Leaf { id, content } => match content {
            ContentView::Terminal { surfaces, active_surface_id } => {
                let ids = surfaces.map_values(|s: PaneSurface| s.id);
                assert(n.surface_ids() == ids);
                assert forall|j: int| 0 <= j < surfaces.len() implies !used.contains(#[trigger] surfaces[j].id) by {
                    assert(n.surface_ids()[j] == surfaces[j].id);
                }
                lemma_restore_saved_surfaces(surfaces, caps, capture_screen_text, 0, terms, ti, next, used, active_surface_id, None);
                assert(ids.subrange(0, surfaces.len() as int) =~= ids);
                assert(surface_index(surfaces, active_surface_id) == surface_index_from(surfaces, active_surface_id, 0));
            },
            ContentView::Editor { .. } => {},
        },
        NodeView::Split { direction, ratio, first, second, .. } => {
            let a_ids = first.surface_ids();
            let b_ids = second.surface_ids();
            assert(n.surface_ids() == a_ids + b_ids);
            assert(a_ids.no_duplicates()) by {
                assert forall|x: int, y: int| 0 <= x < a_ids.len() && 0 <= y < a_ids.len() && x != y implies a_ids[x] != a_ids[y] by {
                    assert(n.surface_ids()[x] == a_ids[x] && n.surface_ids()[y] == a_ids[y]);
                }
            }
            assert(b_ids.no_duplicates()) by {
                assert forall|x: int, y: int| 0 <= x < b_ids.len() && 0 <= y < b_ids.len() && x != y implies b_ids[x] != b_ids[y] by {
                    assert(n.surface_ids()[a_ids.len() + x] == b_ids[x] && n.surface_ids()[a_ids.len() + y] == b_ids[y]);
                }
            }
            assert forall|j: int| 0 <= j < a_ids.len() implies !used.contains(#[trigger] a_ids[j]) by {
                assert(n.surface_ids()[j] == a_ids[j]);
            }
            lemma_restore_saved_node(*first, caps, capture_screen_text, terms, ti, next, used);
            let a = restored_node(node_state(*first, caps, capture_screen_text)->0, terms, ti, next, used);
            assert forall|j: int| 0 <= j < b_ids.len() implies !a.3.contains(#[trigger] b_ids[j]) by {
                assert(n.surface_ids()[a_ids.len() + j] == b_ids[j]);
                assert(!used.contains(b_ids[j]));
                if a.3.contains(b_ids[j]) {
                    let k = choose|k: int| 0 <= k < a.3.len() && a.3[k] == b_ids[j];
                    if k >= used.len() {
                        assert(a.3[k] == a_ids[k - used.len()]);
                        assert(n.surface_ids()[k - used.len()] == a_ids[k - used.len()]);
                    }
                }
            }
            lemma_restore_saved_node(*second, caps, capture_screen_text, terms, a.1, a.2, a.3);
            assert(live_direction(persisted_direction(direction)) == direction);
            assert(a.3 + b_ids =~= used + n.surface_ids());
        },
    }
}

/// Saving a tab's pane tree and restoring it gives back the same tree:
/// the same splits (directions and ratios), panes, surfaces (ids, titles,
/// owners, close flags) and shown surfaces; only the terminals are the new
/// ones, taken in order, and the splits are numbered afresh. This holds for
/// trees whose surface ids are distinct, that hold terminal panes only,
/// each with a surface and showing one of them, and whose ratios lie in the
/// restored range.
pub proof fn law_save_then_restore_gives_back_the_tree(
    n: NodeView,
    caps: Seq<TerminalCapture>,
    capture_screen_text: bool,
    terms: Seq<TerminalId>,
)
    requires
        restorable(n),
        n.surface_ids().no_duplicates(),
    ensures
        node_state(n, caps, capture_screen_text) matches Some(l) && restored_root(l, terms) == fresh_copy(
            n,
            terms,
            0,
        ).0.normalize_spec(0),
{
    lemma_restore_saved_node(n, caps, capture_screen_text, terms, 0, 0, Seq::empty());
}

} // verus!
