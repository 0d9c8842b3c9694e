use vstd::prelude::*;
use vstd::utf8::encode_utf8;
use crate::text::{is_blank, is_blank_str};
use crate::pane_node::{
    ContentView, NodeView, PaneContent, PaneId, PaneNode, PaneSurface, SplitDirection, SurfaceId,
    TerminalId, shown_surface_index,
};
use crate::pane_tree::PaneTree;

verus! {

/// At most this many lines of a terminal's screen are captured for restore.
pub const RESTORED_SCREEN_TEXT_MAX_LINES: usize = 600;

/// At most this many bytes of captured screen text are kept per surface,
/// each line costing its UTF-8 length plus two.
pub const RESTORED_SCREEN_TEXT_MAX_BYTES: usize = 128 * 1024;

/// Byte length of a line (its UTF-8 encoding) plus two: what a line costs
/// against the budget.
pub open spec fn line_cost(line: String) -> int {
    (encode_utf8(line@).len() as usize) as int + 2
}

/// Index of the first non-blank line at or after `i`, or the length.
pub open spec fn skip_blank_from(lines: Seq<String>, i: int) -> int
    decreases lines.len() - i,
{
    if i < 0 || i >= lines.len() {
        lines.len() as int
    } else if !is_blank(lines[i]@) {
        i
    } else {
        skip_blank_from(lines, i + 1)
    }
}

/// End (exclusive) of the lines before `j` once trailing blank lines go.
pub open spec fn trim_end_from(lines: Seq<String>, j: int) -> int
    decreases j,
{
    if j <= 0 || j > lines.len() {
        0
    } else if !is_blank(lines[j - 1]@) {
        j
    } else {
        trim_end_from(lines, j - 1)
    }
}

/// How many lines, taken from `j - 1` down to `lo`, fit in the byte budget
/// when `total` bytes are already spent; the first line that does not fit
/// ends the count.
pub open spec fn kept_from(lines: Seq<String>, lo: int, j: int, total: int) -> int
    decreases j - lo,
{
    if j <= lo {
        0
    } else {
        let cost = line_cost(lines[j - 1]);
        if cost > RESTORED_SCREEN_TEXT_MAX_BYTES || total + cost > RESTORED_SCREEN_TEXT_MAX_BYTES {
            0
        } else {
            1 + kept_from(lines, lo, j - 1, total + cost)
        }
    }
}

/// Captured screen text as it is stored: leading and trailing blank lines
/// dropped, then the longest tail of the rest that fits the byte budget.
pub open spec fn trimmed_screen_text(lines: Seq<String>) -> Seq<String> {
    let s = skip_blank_from(lines, 0);
    if s >= lines.len() {
        Seq::empty()
    } else {
        let e = trim_end_from(lines, lines.len() as int);
        let k = kept_from(lines, s, e, 0);
        lines.subrange(e - k, e)
    }
}

pub proof fn lemma_skip_blank_bounds(lines: Seq<String>, i: int)
    requires
        0 <= i,
    ensures
        i <= skip_blank_from(lines, i) <= lines.len() || (i > lines.len() && skip_blank_from(lines, i) == lines.len()),
        skip_blank_from(lines, i) < lines.len() ==> !is_blank(lines[skip_blank_from(lines, i)]@),
    decreases lines.len() - i,
{
    if i < lines.len() && is_blank(lines[i]@) {
        lemma_skip_blank_bounds(lines, i + 1);
    }
}

/// Trailing blank lines end after the first non-blank one.
pub proof fn lemma_trim_end_after(lines: Seq<String>, j: int, s: int)
    requires
        0 <= s < j <= lines.len(),
        !is_blank(lines[s]@),
    ensures
        s < trim_end_from(lines, j) <= j,
{
    lemma_trim_end_bounds(lines, j, s);
}

proof fn lemma_trim_end_bounds(lines: Seq<String>, j: int, s: int)
    requires
        0 <= s < j <= lines.len(),
        !is_blank(lines[s]@),
    ensures
        s < trim_end_from(lines, j) <= j,
    decreases j,
{
    if is_blank(lines[j - 1]@) {
        lemma_trim_end_bounds(lines, j - 1, s);
    }
}

proof fn lemma_kept_bounds(lines: Seq<String>, lo: int, j: int, total: int)
    ensures
        0 <= kept_from(lines, lo, j, total),
        lo <= j ==> kept_from(lines, lo, j, total) <= j - lo,
    decreases j - lo,
{
    if j > lo {
        lemma_kept_bounds(lines, lo, j - 1, total + line_cost(lines[j - 1]));
    }
}

/// Trims captured screen text for storage: blank lines at either end go,
/// then only the most recent lines that fit in
/// `RESTORED_SCREEN_TEXT_MAX_BYTES` stay.
pub fn trim_restored_screen_text(lines: Vec<String>) -> (r: Vec<String>)
    ensures
        r@ == trimmed_screen_text(lines@),
{
    let n = lines.len();
    let mut s: usize = 0;
    while s < n && is_blank_str(lines[s].as_str())
        invariant
            s <= n == lines@.len(),
            skip_blank_from(lines@, 0) == skip_blank_from(lines@, s as int),
        decreases n - s,
    {
        s = s + 1;
    }
    if s >= n {
        return Vec::new();
    }
    let mut e: usize = n;
    while e > s + 1 && is_blank_str(lines[e - 1].as_str())
        invariant
            s < e <= n == lines@.len(),
            !is_blank(lines@[s as int]@),
            trim_end_from(lines@, n as int) == trim_end_from(lines@, e as int),
        decreases e,
    {
        e = e - 1;
    }
    proof {
        lemma_trim_end_bounds(lines@, e as int, s as int);
    }
    let mut total: usize = 0;
    let mut start: usize = e;
    while start > s
        invariant
            s <= start <= e <= n == lines@.len(),
            total <= RESTORED_SCREEN_TEXT_MAX_BYTES,
            kept_from(lines@, s as int, e as int, 0) == (e - start) + kept_from(
                lines@,
                s as int,
                start as int,
                total as int,
            ),
        ensures
            s <= start <= e,
            kept_from(lines@, s as int, e as int, 0) == (e - start),
        decreases start,
    {
        let line_bytes = lines[start - 1].as_str().len().saturating_add(2);
        if line_bytes > RESTORED_SCREEN_TEXT_MAX_BYTES {
            break;
        }
        if total.saturating_add(line_bytes) > RESTORED_SCREEN_TEXT_MAX_BYTES {
            break;
        }
        total = total + line_bytes;
        start = start - 1;
    }
    let mut kept: Vec<String> = Vec::new();
    let mut i: usize = start;
    while i < e
        invariant
            start <= i <= e <= lines@.len(),
            kept@ == lines@.subrange(start as int, i as int),
        decreases e - i,
    {
        kept.push(lines[i].clone());
        i = i + 1;
    }
    proof {
        assert(trim_end_from(lines@, n as int) == e);
        lemma_kept_bounds(lines@, s as int, e as int, 0);
    }
    kept
}


/// Direction of a split in the persisted layout.
#[derive(Clone, Copy, Debug, PartialEq, Eq, Structural)]
pub enum PaneSplitDirection {
    Horizontal,
    Vertical,
}

/// A persisted terminal surface.
pub struct SurfaceState {
    pub surface_id: SurfaceId,
    pub title: Option<String>,
    pub owner: Option<String>,
    pub cwd: Option<String>,
    pub close_pane_when_last: bool,
    pub screen_text: Vec<String>,
}

/// The persisted form of a tab's pane layout.
pub enum PaneLayoutState {
    Leaf {
        pane_id: PaneId,
        cwd: Option<String>,
        active_surface_id: Option<SurfaceId>,
        surfaces: Vec<SurfaceState>,
    },
    Split {
        direction: PaneSplitDirection,
        /// Share of the first child, as the bits of an `f32`.
        ratio: u32,
        first: Box<PaneLayoutState>,
        second: Box<PaneLayoutState>,
    },
}

/// Mathematical form of a persisted surface.
pub struct SurfaceStateView {
    pub surface_id: SurfaceId,
    pub title: Option<String>,
    pub owner: Option<String>,
    pub cwd: Option<String>,
    pub close_pane_when_last: bool,
    pub screen_text: Seq<String>,
}

/// Mathematical form of a persisted layout.
pub enum LayoutView {
    Leaf {
        pane_id: PaneId,
        cwd: Option<String>,
        active_surface_id: Option<SurfaceId>,
        surfaces: Seq<SurfaceStateView>,
    },
    Split {
        direction: PaneSplitDirection,
        ratio: u32,
        first: Box<LayoutView>,
        second: Box<LayoutView>,
    },
}

impl View for SurfaceState {
    type V = SurfaceStateView;

    open spec fn view(&self) -> SurfaceStateView {
        SurfaceStateView {
            surface_id: self.surface_id,
            title: self.title,
            owner: self.owner,
            cwd: self.cwd,
            close_pane_when_last: self.close_pane_when_last,
            screen_text: self.screen_text@,
        }
    }
}

pub open spec fn layout_view(l: PaneLayoutState) -> LayoutView
    decreases l,
{
    match l {
        PaneLayoutState::Leaf { pane_id, cwd, active_surface_id, surfaces } => LayoutView::Leaf {
            pane_id,
            cwd,
            active_surface_id,
            surfaces: surfaces@.map_values(|s: SurfaceState| s@),
        },
        PaneLayoutState::Split { direction, ratio, first, second } => LayoutView::Split {
            direction,
            ratio,
            first: Box::new(layout_view(*first)),
            second: Box::new(layout_view(*second)),
        },
    }
}

impl View for PaneLayoutState {
    type V = LayoutView;

    open spec fn view(&self) -> LayoutView {
        layout_view(*self)
    }
}

pub open spec fn opt_layout_view(o: Option<PaneLayoutState>) -> Option<LayoutView> {
    match o {
        Some(l) => Some(l@),
        None => None,
    }
}

/// What the application read from one terminal: its working directory and
/// its most recent screen lines.
pub struct TerminalCapture {
    pub terminal: TerminalId,
    pub cwd: Option<String>,
    pub recent_lines: Vec<String>,
}

/// Index of the first capture of terminal `t`, or -1.
pub open spec fn capture_index(caps: Seq<TerminalCapture>, t: TerminalId) -> int
    decreases caps.len(),
{
    if caps.len() == 0 {
        -1
    } else if caps.last().terminal == t {
        let earlier = capture_index(caps.drop_last(), t);
        if earlier >= 0 { earlier } else { caps.len() - 1 }
    } else {
        capture_index(caps.drop_last(), t)
    }
}

pub open spec fn captured_cwd(caps: Seq<TerminalCapture>, t: TerminalId) -> Option<String> {
    let i = capture_index(caps, t);
    if i >= 0 { caps[i].cwd } else { None }
}

pub open spec fn captured_lines(caps: Seq<TerminalCapture>, t: TerminalId) -> Seq<String> {
    let i = capture_index(caps, t);
    if i >= 0 { caps[i].recent_lines@ } else { Seq::empty() }
}

/// The persisted form of one surface.
pub open spec fn surface_state_of(
    s: PaneSurface,
    caps: Seq<TerminalCapture>,
    capture_screen_text: bool,
) -> SurfaceStateView {
    SurfaceStateView {
        surface_id: s.id,
        title: s.title,
        owner: s.owner,
        cwd: captured_cwd(caps, s.terminal),
        close_pane_when_last: s.close_pane_when_last,
        screen_text: if capture_screen_text {
            trimmed_screen_text(captured_lines(caps, s.terminal))
        } else {
            Seq::empty()
        },
    }
}

pub open spec fn surface_states_of(
    ss: Seq<PaneSurface>,
    caps: Seq<TerminalCapture>,
    capture_screen_text: bool,
) -> Seq<SurfaceStateView> {
    ss.map_values(|s: PaneSurface| surface_state_of(s, caps, capture_screen_text))
}

pub open spec fn persisted_direction(d: SplitDirection) -> PaneSplitDirection {
    match d {
        SplitDirection::Horizontal => PaneSplitDirection::Horizontal,
        SplitDirection::Vertical => PaneSplitDirection::Vertical,
    }
}

/// The persisted form of a subtree: terminal panes with all their
/// surfaces, editor panes left out, and a split with one side left out
/// replaced by the other side.
pub open spec fn node_state(
    n: NodeView,
    caps: Seq<TerminalCapture>,
    capture_screen_text: bool,
) -> Option<LayoutView>
    decreases n,
{
    match n {
        NodeView::Leaf { id, content } => match content {
            ContentView::Terminal { surfaces, active_surface_id } => {
                let states = surface_states_of(surfaces, caps, capture_screen_text);
                let k = shown_surface_index(surfaces, active_surface_id);
                Some(
                    LayoutView::Leaf {
                        pane_id: id,
                        cwd: if k >= 0 { states[k].cwd } else { None },
                        active_surface_id: Some(active_surface_id),
                        surfaces: states,
                    },
                )
            },
            ContentView::Editor { .. } => None,
        },
        NodeView::Split { direction, ratio, first, second, .. } => {
            let a = node_state(*first, caps, capture_screen_text);
            let b = node_state(*second, caps, capture_screen_text);
            match (a, b) {
                (Some(x), Some(y)) => Some(
                    LayoutView::Split {
                        direction: persisted_direction(direction),
                        ratio,
                        first: Box::new(x),
                        second: Box::new(y),
                    },
                ),
                (Some(x), None) => Some(x),
                (None, Some(y)) => Some(y),
                (None, None) => None,
            }
        },
    }
}

pub(crate) fn clone_opt_string(o: &Option<String>) -> (r: Option<String>)
    ensures
        r == *o,
{
    match o {
        Some(s) => Some(s.clone()),
        None => None,
    }
}

pub(crate) fn clone_lines(v: &Vec<String>) -> (r: Vec<String>)
    ensures
        r@ == v@,
{
    let mut out: Vec<String> = Vec::new();
    let mut i: usize = 0;
    while i < v.len()
        invariant
            i <= v@.len(),
            out@ == v@.subrange(0, i as int),
        decreases v@.len() - i,
    {
        out.push(v[i].clone());
        i = i + 1;
    }
    out
}

/// Position of the first capture of terminal `t`.
fn find_capture(caps: &Vec<TerminalCapture>, t: TerminalId) -> (r: Option<usize>)
    ensures
        match r {
            Some(i) => i as int == capture_index(caps@, t) && i < caps@.len(),
            None => capture_index(caps@, t) == -1,
        },
{
    let mut i: usize = 0;
    while i < caps.len()
        invariant
            i <= caps@.len(),
            forall|j: int| 0 <= j < i ==> caps@[j].terminal != t,
        decreases caps@.len() - i,
    {
        if caps[i].terminal == t {
            proof {
                lemma_capture_index_first(caps@, t, i as int);
            }
            return Some(i);
        }
        i = i + 1;
    }
    proof {
        lemma_capture_index_none(caps@, t);
    }
    None
}

proof fn lemma_capture_index_first(caps: Seq<TerminalCapture>, t: TerminalId, i: int)
    requires
        0 <= i < caps.len(),
        caps[i].terminal == t,
        forall|j: int| 0 <= j < i ==> caps[j].terminal != t,
    ensures
        capture_index(caps, t) == i,
    decreases caps.len(),
{
    if i < caps.len() - 1 {
        lemma_capture_index_first(caps.drop_last(), t, i);
    } else {
        lemma_capture_index_none(caps.drop_last(), t);
    }
}

proof fn lemma_capture_index_none(caps: Seq<TerminalCapture>, t: TerminalId)
    requires
        forall|j: int| 0 <= j < caps.len() ==> caps[j].terminal != t,
    ensures
        capture_index(caps, t) == -1,
    decreases caps.len(),
{
    if caps.len() > 0 {
        lemma_capture_index_none(caps.drop_last(), t);
    }
}

fn surface_state(s: &PaneSurface, caps: &Vec<TerminalCapture>, capture_screen_text: bool) -> (r:
    SurfaceState)
    ensures
        r@ == surface_state_of(*s, caps@, capture_screen_text),
{
    let found = find_capture(caps, s.terminal);
    let cwd = match found {
        Some(i) => clone_opt_string(&caps[i].cwd),
        None => None,
    };
    let screen_text = if capture_screen_text {
        match found {
            Some(i) => trim_restored_screen_text(clone_lines(&caps[i].recent_lines)),
            None => {
                let empty: Vec<String> = Vec::new();
                proof {
                    assert(empty@ =~= Seq::<String>::empty());
                }
                trim_restored_screen_text(empty)
            },
        }
    } else {
        Vec::new()
    };
    let r = SurfaceState {
        surface_id: s.id,
        title: clone_opt_string(&s.title),
        owner: clone_opt_string(&s.owner),
        cwd,
        close_pane_when_last: s.close_pane_when_last,
        screen_text,
    };
    proof {
        if !capture_screen_text {
            assert(r.screen_text@ =~= Seq::<String>::empty());
        }
    }
    r
}

fn surface_states(ss: &Vec<PaneSurface>, caps: &Vec<TerminalCapture>, capture_screen_text: bool) -> (r:
    Vec<SurfaceState>)
    ensures
        r@.map_values(|x: SurfaceState| x@) == surface_states_of(ss@, caps@, capture_screen_text),
{
    let mut out: Vec<SurfaceState> = Vec::new();
    let mut i: usize = 0;
    while i < ss.len()
        invariant
            i <= ss@.len(),
            out@.len() == i,
            forall|j: int| 0 <= j < i ==> (#[trigger] out@[j])@ == surface_state_of(ss@[j], caps@, capture_screen_text),
        decreases ss@.len() - i,
    {
        let st = surface_state(&ss[i], caps, capture_screen_text);
        out.push(st);
        i = i + 1;
    }
    proof {
        assert(out@.map_values(|x: SurfaceState| x@) =~= surface_states_of(ss@, caps@, capture_screen_text));
    }
    out
}

/// The persisted form of a subtree (see `node_state`).
pub fn node_to_state(node: &PaneNode, caps: &Vec<TerminalCapture>, capture_screen_text: bool) -> (r:
    Option<PaneLayoutState>)
    ensures
        opt_layout_view(r) == node_state(node@, caps@, capture_screen_text),
    decreases node,
{
    match node {
        PaneNode::Leaf { id, content } => match content {
            PaneContent::Terminal { surfaces, active_surface_id } => {
                let states = surface_states(surfaces, caps, capture_screen_text);
                let ghost sv = surfaces@;
                proof {
                    assert(states@.len() == sv.len()) by {
                        assert(states@.map_values(|x: SurfaceState| x@).len() == sv.len());
                    }
                }
                let cwd = match crate::pane_node::find_surface_index(surfaces, *active_surface_id) {
                    Some(k) => clone_opt_string(&states[k].cwd),
                    None => {
                        if states.len() > 0 {
                            clone_opt_string(&states[0].cwd)
                        } else {
                            None
                        }
                    },
                };
                proof {
                    assert(states@.len() == sv.len()) by {
                        assert(states@.map_values(|x: SurfaceState| x@).len() == sv.len());
                    }
                    let k = shown_surface_index(sv, *active_surface_id);
                    if k >= 0 {
                        assert(states@.map_values(|x: SurfaceState| x@)[k] == states@[k]@);
                    }
                }
                let r = PaneLayoutState::Leaf {
                    pane_id: *id,
                    cwd,
                    active_surface_id: Some(*active_surface_id),
                    surfaces: states,
                };
                Some(r)
            },
            PaneContent::Editor { .. } => None,
        },
        PaneNode::Split { direction, ratio, first, second, .. } => {
            let a = node_to_state(first, caps, capture_screen_text);
            let b = node_to_state(second, caps, capture_screen_text);
            match (a, b) {
                (Some(x), Some(y)) => {
                    let d = match direction {
                        SplitDirection::Horizontal => PaneSplitDirection::Horizontal,
                        SplitDirection::Vertical => PaneSplitDirection::Vertical,
                    };
                    Some(
                        PaneLayoutState::Split {
                            direction: d,
                            ratio: *ratio,
                            first: Box::new(x),
                            second: Box::new(y),
                        },
                    )
                },
                (Some(x), None) => Some(x),
                (None, Some(y)) => Some(y),
                (None, None) => None,
            }
        },
    }
}

/// The leaf written when nothing of the tree can be persisted.
pub open spec fn fallback_state(focused: PaneId) -> LayoutView {
    LayoutView::Leaf { pane_id: focused, cwd: None, active_surface_id: None, surfaces: Seq::empty() }
}

impl PaneTree {
    /// The persisted form of the tree, or `None` when it holds no terminal
    /// pane. `captures` holds what was read from the terminals.
    pub fn to_persisted_state(&self, captures: &Vec<TerminalCapture>, capture_screen_text: bool) -> (r:
        Option<PaneLayoutState>)
        ensures
            opt_layout_view(r) == node_state(self.root_view(), captures@, capture_screen_text),
    {
        node_to_state(self.root(), captures, capture_screen_text)
    }

    /// The persisted form of the tree; a bare leaf for the focused pane when
    /// no terminal pane can be persisted.
    pub fn to_state(&self, captures: &Vec<TerminalCapture>, capture_screen_text: bool) -> (r:
        PaneLayoutState)
        ensures
            r@ == match node_state(self.root_view(), captures@, capture_screen_text) {
                Some(l) => l,
                None => fallback_state(self.focused()),
            },
    {
        match self.to_persisted_state(captures, capture_screen_text) {
            Some(l) => l,
            None => {
                let surfaces: Vec<SurfaceState> = Vec::new();
                let r = PaneLayoutState::Leaf {
                    pane_id: self.focused_pane_id(),
                    cwd: None,
                    active_surface_id: None,
                    surfaces,
                };
                proof {
                    assert(surfaces@.map_values(|s: SurfaceState| s@) =~= Seq::<SurfaceStateView>::empty());
                }
                r
            },
        }
    }
}

} // verus!
