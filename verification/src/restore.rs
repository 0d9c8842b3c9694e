use vstd::prelude::*;
use crate::pane_node::{
    ContentView, NodeView, PaneContent, PaneId, PaneNode, PaneSurface, SplitDirection, SurfaceId,
    TerminalId,
};
use crate::layout::{
    LayoutView, PaneLayoutState, PaneSplitDirection, SurfaceState, SurfaceStateView,
    trimmed_screen_text, trim_restored_screen_text, clone_opt_string, clone_lines,
};
use crate::pane_tree::{PaneTree, sat_succ, counters_ok};
use crate::node_lemmas::{lemma_normalize_shape, lemma_range_nodup, lemma_max_leaf, lemma_max_surface, lemma_first_leaf_in};

verus! {

/// Bit pattern of the `f32` 0.05, the smallest ratio a restored split keeps.
pub const MIN_RESTORED_RATIO: u32 = 0x3D4C_CCCDu32;

/// Bit pattern of the `f32` 0.95, the largest ratio a restored split keeps.
pub const MAX_RESTORED_RATIO: u32 = 0x3F73_3333u32;

/// Whether the `f32` with these bits is a NaN.
pub open spec fn f32_is_nan(bits: u32) -> bool {
    bits % 0x8000_0000 > 0x7F80_0000
}

/// A key that orders non-NaN `f32` bit patterns as the numbers they
/// encode (IEEE-754 keeps the magnitude in the low 31 bits and the sign in
/// the top one; both zeros get the key 0).
pub open spec fn f32_order_key(bits: u32) -> int {
    if bits < 0x8000_0000 {
        bits as int
    } else {
        -((bits - 0x8000_0000) as int)
    }
}

/// `f32::clamp(ratio, 0.05, 0.95)` on bit patterns: a NaN stays a NaN.
pub open spec fn clamped_ratio(bits: u32) -> u32 {
    if f32_is_nan(bits) {
        bits
    } else if f32_order_key(bits) < f32_order_key(MIN_RESTORED_RATIO) {
        MIN_RESTORED_RATIO
    } else if f32_order_key(bits) > f32_order_key(MAX_RESTORED_RATIO) {
        MAX_RESTORED_RATIO
    } else {
        bits
    }
}

/// Clamps a split ratio (the bits of an `f32`) into `[0.05, 0.95]`.
pub fn clamp_ratio_bits(bits: u32) -> (r: u32)
    ensures
        r == clamped_ratio(bits),
{
    let magnitude = bits % 0x8000_0000;
    if magnitude > 0x7F80_0000 {
        bits
    } else if bits >= 0x8000_0000 {
        MIN_RESTORED_RATIO
    } else if bits < MIN_RESTORED_RATIO {
        MIN_RESTORED_RATIO
    } else if bits > MAX_RESTORED_RATIO {
        MAX_RESTORED_RATIO
    } else {
        bits
    }
}

/// `a + k`, wrapping past `usize::MAX` back to zero.
pub open spec fn wrap_add(a: usize, k: int) -> usize {
    if a + k <= usize::MAX {
        (a + k) as usize
    } else {
        (a + k - usize::MAX - 1) as usize
    }
}

/// The successor of `c`, wrapping to zero after `usize::MAX`.
pub open spec fn succ_wrap(c: usize) -> usize {
    if c < usize::MAX {
        (c + 1) as usize
    } else {
        0
    }
}

/// `next + k` (wrapping) is the first value at or after `next` not in `used`.
pub open spec fn is_first_free(used: Seq<usize>, next: usize, k: int) -> bool {
    &&& 0 <= k <= used.len()
    &&& !used.contains(wrap_add(next, k))
    &&& forall|j: int| 0 <= j < k ==> used.contains(#[trigger] wrap_add(next, j))
}

/// Offset from `next` of the first free value.
pub open spec fn first_free_offset(used: Seq<usize>, next: usize) -> int {
    choose|k: int| is_first_free(used, next, k)
}

/// The surface id that restoring hands out, and the counter after it: the
/// requested id when it is still free (the counter then moves past it),
/// else the first free id from the counter on, wrapping past the top.
pub open spec fn allocated_id(requested: Option<usize>, next: usize, used: Seq<usize>) -> (usize, usize) {
    if requested is Some && !used.contains(requested->0) {
        let r = requested->0;
        (r, if r < usize::MAX && next < r + 1 { (r + 1) as usize } else { next })
    } else {
        let c = wrap_add(next, first_free_offset(used, next));
        (c, succ_wrap(c))
    }
}

proof fn lemma_wrap_distinct(a: usize, i: int, j: int)
    requires
        0 <= i < j <= usize::MAX,
    ensures
        wrap_add(a, i) != wrap_add(a, j),
{
}

/// `k + 1` distinct values from `next` on, all in `used`, need `k + 1`
/// places in it.
pub proof fn lemma_run_fits(used: Seq<usize>, next: usize, k: int)
    requires
        used.no_duplicates(),
        0 <= k <= usize::MAX,
        forall|j: int| 0 <= j <= k ==> used.contains(#[trigger] wrap_add(next, j)),
    ensures
        k + 1 <= used.len(),
{
    let run = Seq::new((k + 1) as nat, |j: int| wrap_add(next, j));
    assert forall|i: int, j: int| 0 <= i < run.len() && 0 <= j < run.len() && i != j implies run[i]
        != run[j] by {
        if i < j {
            lemma_wrap_distinct(next, i, j);
        } else {
            lemma_wrap_distinct(next, j, i);
        }
    }
    run.unique_seq_to_set();
    used.unique_seq_to_set();
    assert forall|x: usize| run.to_set().contains(x) implies used.to_set().contains(x) by {
        let j = choose|j: int| 0 <= j < run.len() && run[j] == x;
        assert(used.contains(wrap_add(next, j)));
    }
    vstd::set_lib::lemma_len_subset(run.to_set(), used.to_set());
}

fn vec_contains_usize(v: &Vec<usize>, x: usize) -> (r: bool)
    ensures
        r == v@.contains(x),
{
    let mut i: usize = 0;
    while i < v.len()
        invariant
            i <= v@.len(),
            forall|j: int| 0 <= j < i ==> v@[j] != x,
        decreases v@.len() - i,
    {
        if v[i] == x {
            return true;
        }
        i = i + 1;
    }
    false
}

/// Hands out the id of a restored surface: the requested one when no
/// restored surface has it yet, else the first unused id from the counter
/// on. The id joins `used`.
pub fn allocate_restored_surface_id(
    requested: Option<SurfaceId>,
    next_surface_id: &mut SurfaceId,
    used: &mut Vec<SurfaceId>,
) -> (r: SurfaceId)
    requires
        old(used)@.no_duplicates(),
    ensures
        (r, *final(next_surface_id)) == allocated_id(requested, *old(next_surface_id), old(used)@),
        final(used)@ == old(used)@.push(r),
        final(used)@.no_duplicates(),
        !old(used)@.contains(r),
{
    match requested {
        Some(req) => {
            if !vec_contains_usize(used, req) {
                used.push(req);
                match req.checked_add(1) {
                    Some(n) => {
                        if *next_surface_id < n {
                            *next_surface_id = n;
                        }
                    },
                    None => {},
                }
                return req;
            }
        },
        None => {},
    }
    let ghost next0 = *next_surface_id;
    let ghost used0 = used@;
    let ghost mut k: int = 0;
    loop
        invariant
            used@ == used0,
            used0 == old(used)@,
            next0 == *old(next_surface_id),
            used0.no_duplicates(),
            0 <= k <= used0.len(),
            *next_surface_id == wrap_add(next0, k),
            forall|j: int| 0 <= j < k ==> used0.contains(#[trigger] wrap_add(next0, j)),
            requested is Some ==> used0.contains(requested->0),
        decreases used0.len() - k,
    {
        let used_len = used.len();
        let candidate = *next_surface_id;
        *next_surface_id = match candidate.checked_add(1) {
            Some(n) => n,
            None => 0,
        };
        if !vec_contains_usize(used, candidate) {
            used.push(candidate);
            proof {
                assert(is_first_free(used0, next0, k));
                let k2 = first_free_offset(used0, next0);
                assert(is_first_free(used0, next0, k2));
                if k2 < k {
                    assert(used0.contains(wrap_add(next0, k2)));
                } else if k < k2 {
                    assert(used0.contains(wrap_add(next0, k)));
                }
            }
            return candidate;
        }
        proof {
            assert(used0.len() == used_len);
            lemma_run_fits(used0, next0, k);
            k = k + 1;
        }
    }
}


/// How many terminals restoring a layout creates: one per persisted
/// surface, and one for a pane that lists none.
pub open spec fn restore_slots(l: LayoutView) -> nat
    decreases l,
{
    match l {
        LayoutView::Leaf { surfaces, .. } => if surfaces.len() == 0 {
            1
        } else {
            surfaces.len()
        },
        LayoutView::Split { first, second, .. } => restore_slots(*first) + restore_slots(*second),
    }
}

/// Number of splits in a persisted layout.
pub open spec fn layout_split_count(l: LayoutView) -> nat
    decreases l,
{
    match l {
        LayoutView::Leaf { .. } => 0,
        LayoutView::Split { first, second, .. } => 1 + layout_split_count(*first) + layout_split_count(
            *second,
        ),
    }
}

pub open spec fn live_direction(d: PaneSplitDirection) -> SplitDirection {
    match d {
        PaneSplitDirection::Horizontal => SplitDirection::Horizontal,
        PaneSplitDirection::Vertical => SplitDirection::Vertical,
    }
}

/// Restores the surfaces `ss[i..]` of one pane, taking terminals from
/// `terms[ti..]` and ids from the counter `next` and the set `used`; `req`
/// is the persisted active surface and `act` the restored id of it so far.
/// Gives the surfaces, the restored active id, and the state after.
pub open spec fn restored_surfaces(
    ss: Seq<SurfaceStateView>,
    i: int,
    terms: Seq<TerminalId>,
    ti: int,
    next: usize,
    used: Seq<usize>,
    req: Option<SurfaceId>,
    act: Option<SurfaceId>,
) -> (Seq<PaneSurface>, Option<SurfaceId>, int, usize, Seq<usize>)
    decreases ss.len() - i,
{
    if i < 0 || i >= ss.len() {
        (Seq::empty(), act, ti, next, used)
    } else {
        let (sid, next2) = allocated_id(Some(ss[i].surface_id), next, used);
        let surface = PaneSurface {
            id: sid,
            terminal: terms[ti],
            title: ss[i].title,
            owner: ss[i].owner,
            close_pane_when_last: ss[i].close_pane_when_last,
        };
        let act2 = if req == Some(ss[i].surface_id) {
            Some(sid)
        } else {
            act
        };
        let rest = restored_surfaces(ss, i + 1, terms, ti + 1, next2, used.push(sid), req, act2);
        (seq![surface] + rest.0, rest.1, rest.2, rest.3, rest.4)
    }
}

/// Restores a persisted subtree (splits numbered 0, ratios clamped), with
/// the same threading of terminals and ids as `restored_surfaces`.
pub open spec fn restored_node(
    l: LayoutView,
    terms: Seq<TerminalId>,
    ti: int,
    next: usize,
    used: Seq<usize>,
) -> (NodeView, int, usize, Seq<usize>)
    decreases l,
{
    match l {
        LayoutView::Leaf { pane_id, active_surface_id, surfaces, .. } => if surfaces.len() == 0 {
            let (sid, next2) = allocated_id(None, next, used);
            let surface = PaneSurface {
                id: sid,
                terminal: terms[ti],
                title: None,
                owner: None,
                close_pane_when_last: false,
            };
            (
                NodeView::Leaf {
                    id: pane_id,
                    content: ContentView::Terminal { surfaces: seq![surface], active_surface_id: sid },
                },
                ti + 1,
                next2,
                used.push(sid),
            )
        } else {
            let r = restored_surfaces(surfaces, 0, terms, ti, next, used, active_surface_id, None);
            let active = match r.1 {
                Some(a) => a,
                None => r.0[0].id,
            };
            (
                NodeView::Leaf {
                    id: pane_id,
                    content: ContentView::Terminal { surfaces: r.0, active_surface_id: active },
                },
                r.2,
                r.3,
                r.4,
            )
        },
        LayoutView::Split { direction, ratio, first, second } => {
            let a = restored_node(*first, terms, ti, next, used);
            let b = restored_node(*second, terms, a.1, a.2, a.3);
            (
                NodeView::Split {
                    split_id: 0,
                    direction: live_direction(direction),
                    first: Box::new(a.0),
                    second: Box::new(b.0),
                    ratio: clamped_ratio(ratio),
                },
                b.1,
                b.2,
                b.3,
            )
        },
    }
}

/// The pane tree restored from a layout, with `terms` as the terminals in
/// the order `restore_requests` asked for them, its splits numbered from 0.
pub open spec fn restored_root(l: LayoutView, terms: Seq<TerminalId>) -> NodeView {
    restored_node(l, terms, 0, 0, Seq::empty()).0.normalize_spec(0)
}

/// The focus of a restored tree: the requested pane (else the first one)
/// when it shows a terminal, else the first pane.
pub open spec fn restored_focus(root: NodeView, requested: Option<PaneId>) -> PaneId {
    let want = match requested {
        Some(p) => p,
        None => root.first_leaf(),
    };
    if root.terminal_of(want) is Some {
        want
    } else {
        root.first_leaf()
    }
}

proof fn lemma_restored_surfaces_len(
    ss: Seq<SurfaceStateView>,
    i: int,
    terms: Seq<TerminalId>,
    ti: int,
    next: usize,
    used: Seq<usize>,
    req: Option<SurfaceId>,
    act: Option<SurfaceId>,
)
    requires
        0 <= i <= ss.len(),
    ensures
        restored_surfaces(ss, i, terms, ti, next, used, req, act).0.len() == ss.len() - i,
        restored_surfaces(ss, i, terms, ti, next, used, req, act).2 == ti + ss.len() - i,
    decreases ss.len() - i,
{
    if i < ss.len() {
        let (sid, next2) = allocated_id(Some(ss[i].surface_id), next, used);
        let act2 = if req == Some(ss[i].surface_id) {
            Some(sid)
        } else {
            act
        };
        lemma_restored_surfaces_len(ss, i + 1, terms, ti + 1, next2, used.push(sid), req, act2);
    }
}

proof fn lemma_restored_split_count(l: LayoutView, terms: Seq<TerminalId>, ti: int, next: usize, used: Seq<usize>)
    ensures
        restored_node(l, terms, ti, next, used).0.split_count() == layout_split_count(l),
    decreases l,
{
    match l {
        LayoutView::Leaf { .. } => {},
        LayoutView::Split { first, second, .. } => {
            let a = restored_node(*first, terms, ti, next, used);
            lemma_restored_split_count(*first, terms, ti, next, used);
            lemma_restored_split_count(*second, terms, a.1, a.2, a.3);
        },
    }
}

fn restore_surfaces(
    ss: &Vec<SurfaceState>,
    req: Option<SurfaceId>,
    terms: &Vec<TerminalId>,
    ti: &mut usize,
    next: &mut usize,
    used: &mut Vec<usize>,
) -> (r: (Vec<PaneSurface>, Option<SurfaceId>))
    requires
        old(used)@.no_duplicates(),
        *old(ti) + ss@.len() <= terms@.len(),
    ensures
        ({
            let t = restored_surfaces(
                ss@.map_values(|s: SurfaceState| s@),
                0,
                terms@,
                *old(ti) as int,
                *old(next),
                old(used)@,
                req,
                None,
            );
            &&& r.0@ == t.0
            &&& r.1 == t.1
            &&& *final(ti) as int == t.2
            &&& *final(next) == t.3
            &&& final(used)@ == t.4
        }),
        *final(ti) == *old(ti) + ss@.len(),
        final(used)@.no_duplicates(),
{
    let ghost sv = ss@.map_values(|s: SurfaceState| s@);
    let ghost t = restored_surfaces(sv, 0, terms@, *ti as int, *next, used@, req, None);
    let ghost ti0 = *ti;
    let n_terms = terms.len();
    let mut out: Vec<PaneSurface> = Vec::new();
    let mut act: Option<SurfaceId> = None;
    let mut i: usize = 0;
    proof {
        assert(out@ + t.0 =~= t.0);
    }
    while i < ss.len()
        invariant
            i <= ss@.len(),
            sv == ss@.map_values(|s: SurfaceState| s@),
            *ti == ti0 + i,
            ti0 + ss@.len() <= terms@.len(),
            n_terms == terms@.len(),
            used@.no_duplicates(),
            t.0 == out@ + restored_surfaces(sv, i as int, terms@, *ti as int, *next, used@, req, act).0,
            t.1 == restored_surfaces(sv, i as int, terms@, *ti as int, *next, used@, req, act).1,
            t.2 == restored_surfaces(sv, i as int, terms@, *ti as int, *next, used@, req, act).2,
            t.3 == restored_surfaces(sv, i as int, terms@, *ti as int, *next, used@, req, act).3,
            t.4 == restored_surfaces(sv, i as int, terms@, *ti as int, *next, used@, req, act).4,
        decreases ss@.len() - i,
    {
        let ghost before = restored_surfaces(sv, i as int, terms@, *ti as int, *next, used@, req, act);
        let st = &ss[i];
        proof {
            assert(sv[i as int] == st@);
        }
        let sid = allocate_restored_surface_id(Some(st.surface_id), next, used);
        let surface = PaneSurface {
            id: sid,
            terminal: terms[*ti],
            title: clone_opt_string(&st.title),
            owner: clone_opt_string(&st.owner),
            close_pane_when_last: st.close_pane_when_last,
        };
        match req {
            Some(q) => {
                if q == st.surface_id {
                    act = Some(sid);
                }
            },
            None => {},
        }
        let ghost old_out = out@;
        out.push(surface);
        *ti = *ti + 1;
        i = i + 1;
        proof {
            let after = restored_surfaces(sv, i as int, terms@, *ti as int, *next, used@, req, act);
            assert(before.0 == seq![surface] + after.0);
            assert(out@ + after.0 =~= old_out + (seq![surface] + after.0));
        }
    }
    proof {
        assert(out@ + Seq::<PaneSurface>::empty() =~= out@);
    }
    (out, act)
}

/// Restores a persisted subtree; see `restored_node`.
fn restore_node(
    l: &PaneLayoutState,
    terms: &Vec<TerminalId>,
    ti: &mut usize,
    next: &mut usize,
    used: &mut Vec<usize>,
) -> (r: PaneNode)
    requires
        old(used)@.no_duplicates(),
        *old(ti) + restore_slots(l@) <= terms@.len(),
    ensures
        ({
            let t = restored_node(l@, terms@, *old(ti) as int, *old(next), old(used)@);
            &&& r@ == t.0
            &&& *final(ti) as int == t.1
            &&& *final(next) == t.2
            &&& final(used)@ == t.3
        }),
        *final(ti) == *old(ti) + restore_slots(l@),
        final(used)@.no_duplicates(),
    decreases l,
{
    match l {
        PaneLayoutState::Leaf { pane_id, cwd, active_surface_id, surfaces } => {
            proof {
                assert(surfaces@.map_values(|s: SurfaceState| s@).len() == surfaces@.len());
            }
            if surfaces.len() == 0 {
                let sid = allocate_restored_surface_id(None, next, used);
                let n_terms = terms.len();
                let surface = PaneSurface {
                    id: sid,
                    terminal: terms[*ti],
                    title: None,
                    owner: None,
                    close_pane_when_last: false,
                };
                *ti = *ti + 1;
                let mut v: Vec<PaneSurface> = Vec::new();
                v.push(surface);
                proof {
                    assert(v@ =~= seq![surface]);
                }
                PaneNode::Leaf {
                    id: *pane_id,
                    content: PaneContent::Terminal { surfaces: v, active_surface_id: sid },
                }
            } else {
                let (restored, act) = restore_surfaces(surfaces, *active_surface_id, terms, ti, next, used);
                proof {
                    lemma_restored_surfaces_len(
                        surfaces@.map_values(|s: SurfaceState| s@),
                        0,
                        terms@,
                        *old(ti) as int,
                        *old(next),
                        old(used)@,
                        *active_surface_id,
                        None,
                    );
                }
                let active = match act {
                    Some(a) => a,
                    None => restored[0].id,
                };
                PaneNode::Leaf {
                    id: *pane_id,
                    content: PaneContent::Terminal { surfaces: restored, active_surface_id: active },
                }
            }
        },
        PaneLayoutState::Split { direction, ratio, first, second } => {
            let a = restore_node(first, terms, ti, next, used);
            let b = restore_node(second, terms, ti, next, used);
            let d = match direction {
                PaneSplitDirection::Horizontal => SplitDirection::Horizontal,
                PaneSplitDirection::Vertical => SplitDirection::Vertical,
            };
            PaneNode::Split {
                split_id: 0,
                direction: d,
                first: Box::new(a),
                second: Box::new(b),
                ratio: clamp_ratio_bits(*ratio),
            }
        },
    }
}

/// What the application is asked to create for one restored surface: a
/// terminal in `cwd`, showing `screen_text` when there is any to show.
pub struct TerminalRequest {
    pub cwd: Option<String>,
    pub screen_text: Option<Vec<String>>,
}

pub struct TerminalRequestView {
    pub cwd: Option<String>,
    pub screen_text: Option<Seq<String>>,
}

impl View for TerminalRequest {
    type V = TerminalRequestView;

    open spec fn view(&self) -> TerminalRequestView {
        TerminalRequestView {
            cwd: self.cwd,
            screen_text: match self.screen_text {
                Some(v) => Some(v@),
                None => None,
            },
        }
    }
}

/// The request for one persisted surface of a pane whose directory is
/// `pane_cwd`: its own directory, else the pane's; its trimmed screen text
/// when there is some and either restoring text is on or the surface
/// belongs to `error_owner` (such text is always shown).
pub open spec fn surface_request(
    s: SurfaceStateView,
    pane_cwd: Option<String>,
    restore_terminal_text: bool,
    error_owner: Seq<char>,
) -> TerminalRequestView {
    let text = trimmed_screen_text(s.screen_text);
    let forced = s.owner is Some && s.owner->0@ == error_owner;
    TerminalRequestView {
        cwd: if s.cwd is Some {
            s.cwd
        } else {
            pane_cwd
        },
        screen_text: if text.len() > 0 && (restore_terminal_text || forced) {
            Some(text)
        } else {
            None
        },
    }
}

/// The terminals that restoring `l` needs, in the order `from_state` uses
/// them.
pub open spec fn restore_requests_of(
    l: LayoutView,
    restore_terminal_text: bool,
    error_owner: Seq<char>,
) -> Seq<TerminalRequestView>
    decreases l,
{
    match l {
        LayoutView::Leaf { cwd, surfaces, .. } => if surfaces.len() == 0 {
            seq![TerminalRequestView { cwd, screen_text: None }]
        } else {
            surfaces.map_values(
                |s: SurfaceStateView| surface_request(s, cwd, restore_terminal_text, error_owner),
            )
        },
        LayoutView::Split { first, second, .. } => restore_requests_of(
            *first,
            restore_terminal_text,
            error_owner,
        ) + restore_requests_of(*second, restore_terminal_text, error_owner),
    }
}

fn surface_request_exec(
    s: &SurfaceState,
    pane_cwd: &Option<String>,
    restore_terminal_text: bool,
    error_owner: &String,
) -> (r: TerminalRequest)
    ensures
        r@ == surface_request(s@, *pane_cwd, restore_terminal_text, error_owner@),
{
    let text = trim_restored_screen_text(clone_lines(&s.screen_text));
    let forced = match &s.owner {
        Some(o) => *o == *error_owner,
        None => false,
    };
    let cwd = match &s.cwd {
        Some(c) => Some(c.clone()),
        None => clone_opt_string(pane_cwd),
    };
    let screen_text = if text.len() > 0 && (restore_terminal_text || forced) {
        Some(text)
    } else {
        None
    };
    TerminalRequest { cwd, screen_text }
}

fn collect_requests(
    l: &PaneLayoutState,
    restore_terminal_text: bool,
    error_owner: &String,
    out: &mut Vec<TerminalRequest>,
)
    ensures
        final(out)@.len() == old(out)@.len() + restore_requests_of(l@, restore_terminal_text, error_owner@).len(),
        forall|i: int| 0 <= i < old(out)@.len() ==> #[trigger] final(out)@[i] == old(out)@[i],
        forall|i: int| 0 <= i < restore_requests_of(l@, restore_terminal_text, error_owner@).len() ==> (
            #[trigger] final(out)@[old(out)@.len() + i])@ == restore_requests_of(
            l@,
            restore_terminal_text,
            error_owner@,
        )[i],
    decreases l,
{
    match l {
        PaneLayoutState::Leaf { cwd, surfaces, .. } => {
            if surfaces.len() == 0 {
                out.push(TerminalRequest { cwd: clone_opt_string(cwd), screen_text: None });
                proof {
                    assert(surfaces@.map_values(|s: SurfaceState| s@).len() == 0);
                    let reqs = restore_requests_of(l@, restore_terminal_text, error_owner@);
                    assert(reqs.len() == 1);
                    assert(out@[old(out)@.len() + 0int]@ == reqs[0]);
                }
            } else {
                let ghost start = out@.len();
                let mut i: usize = 0;
                while i < surfaces.len()
                    invariant
                        i <= surfaces@.len(),
                        surfaces@.len() > 0,
                        out@.len() == start + i,
                        start == old(out)@.len(),
                        forall|j: int| 0 <= j < start ==> #[trigger] out@[j] == old(out)@[j],
                        forall|j: int| 0 <= j < i ==> (#[trigger] out@[start + j])@ == surface_request(
                            surfaces@[j]@,
                            *cwd,
                            restore_terminal_text,
                            error_owner@,
                        ),
                    decreases surfaces@.len() - i,
                {
                    let req = surface_request_exec(&surfaces[i], cwd, restore_terminal_text, error_owner);
                    out.push(req);
                    i = i + 1;
                }
                proof {
                    let reqs = restore_requests_of(l@, restore_terminal_text, error_owner@);
                    let sv = surfaces@.map_values(|s: SurfaceState| s@);
                    assert(sv.len() == surfaces@.len());
                    assert forall|j: int| 0 <= j < reqs.len() implies (#[trigger] out@[start + j])@ == reqs[j] by {
                        assert(sv[j] == surfaces@[j]@);
                    }
                }
            }
        },
        PaneLayoutState::Split { first, second, .. } => {
            let ghost o0 = out@;
            collect_requests(first, restore_terminal_text, error_owner, out);
            let ghost o1 = out@;
            collect_requests(second, restore_terminal_text, error_owner, out);
            proof {
                let a = restore_requests_of(first@, restore_terminal_text, error_owner@);
                let b = restore_requests_of(second@, restore_terminal_text, error_owner@);
                let reqs = restore_requests_of(l@, restore_terminal_text, error_owner@);
                assert(reqs == a + b);
                assert forall|i: int| 0 <= i < reqs.len() implies (#[trigger] out@[o0.len() + i])@ == reqs[i] by {
                    if i < a.len() {
                        assert(out@[o0.len() + i] == o1[o0.len() + i]);
                        assert(o1[o0.len() + i]@ == a[i]);
                    } else {
                        assert(out@[o1.len() + (i - a.len())]@ == b[i - a.len()]);
                    }
                }
                assert forall|i: int| 0 <= i < o0.len() implies #[trigger] out@[i] == o0[i] by {
                    assert(out@[i] == o1[i]);
                }
            }
        },
    }
}

/// The terminals to create before `from_state` can rebuild `layout`: one
/// per persisted surface (one for a pane with none), in tree order.
pub fn restore_requests(
    layout: &PaneLayoutState,
    restore_terminal_text: bool,
    error_owner: &String,
) -> (r: Vec<TerminalRequest>)
    ensures
        r@.len() == restore_requests_of(layout@, restore_terminal_text, error_owner@).len(),
        forall|i: int| 0 <= i < r@.len() ==> (#[trigger] r@[i])@ == restore_requests_of(
            layout@,
            restore_terminal_text,
            error_owner@,
        )[i],
{
    let mut out: Vec<TerminalRequest> = Vec::new();
    collect_requests(layout, restore_terminal_text, error_owner, &mut out);
    proof {
        assert forall|i: int| 0 <= i < out@.len() implies (#[trigger] out@[i])@ == restore_requests_of(
            layout@,
            restore_terminal_text,
            error_owner@,
        )[i] by {
            assert(out@[0 + i] == out@[i]);
        }
    }
    out
}

impl PaneTree {
    /// Rebuilds a tree from a persisted layout. `terminals` are the
    /// terminals created for `restore_requests(layout, ..)`, in that order.
    /// Splits are renumbered from 0; surface ids are kept where they are
    /// free; focus goes to `focused_pane_id` when it shows a terminal.
    pub fn from_state(
        layout: &PaneLayoutState,
        focused_pane_id: Option<PaneId>,
        terminals: &Vec<TerminalId>,
    ) -> (r: PaneTree)
        requires
            terminals@.len() == restore_slots(layout@),
            layout_split_count(layout@) <= usize::MAX,
        ensures
            r.wf(),
            r.root_view() == restored_root(layout@, terminals@),
            r.focused() == restored_focus(r.root_view(), focused_pane_id),
            r.zoomed() is None,
            r.drag() is None,
            r.next_pane() == sat_succ(r.root_view().max_leaf()),
            r.next_surface() == sat_succ(r.root_view().max_surface()),
            r.next_split() == layout_split_count(layout@),
    {
        let mut ti: usize = 0;
        let mut next_restored_surface_id: usize = 0;
        let mut used: Vec<usize> = Vec::new();
        proof {
            assert(used@ =~= Seq::<usize>::empty());
        }
        let raw = restore_node(layout, terminals, &mut ti, &mut next_restored_surface_id, &mut used);
        let ghost raw_v = raw@;
        proof {
            lemma_restored_split_count(layout@, terminals@, 0, 0, Seq::empty());
        }
        let (root, count) = raw.normalize_split_ids(0);
        let next_id = root.max_pane_id().saturating_add(1);
        let next_surface_id = root.max_surface_id().saturating_add(1);
        let first = root.first_pane_id();
        let requested = match focused_pane_id {
            Some(p) => p,
            None => first,
        };
        let focused = match root.find_terminal(requested) {
            Some(_) => requested,
            None => first,
        };
        proof {
            lemma_normalize_shape(raw_v, 0);
            lemma_range_nodup(raw_v.split_count(), 0);
            lemma_first_leaf_in(root@);
            crate::pane_tree::lemma_terminal_of_has_leaf(root@, requested);
            assert forall|x: PaneId| #![trigger root@.has_leaf(x)] root@.has_leaf(x) && next_id != usize::MAX implies x < next_id by {
                lemma_max_leaf(root@, x);
            }
            assert forall|x: SurfaceId| #![trigger root@.surface_ids().contains(x)] root@.surface_ids().contains(x) && next_surface_id != usize::MAX implies x < next_surface_id by {
                lemma_max_surface(root@, x);
            }
            assert forall|x: usize| #![trigger root@.split_ids().contains(x)] root@.split_ids().contains(x) implies x < count by {
            }
        }
        PaneTree::assemble(root, focused, next_id, next_surface_id, count)
    }
}

} // verus!
