use vstd::prelude::*;

verus! {

broadcast use vstd::seq_lib::lemma_seq_concat_contains_all_elements;

/// Identifier of a leaf pane.
pub type PaneId = usize;

/// Identifier of a terminal surface hosted inside a pane.
pub type SurfaceId = usize;

/// Identifier of a split node.
pub type SplitId = usize;

/// Handle of a terminal view: the entity id of the terminal it stands for.
pub type TerminalId = u64;

/// Handle of an editor view: the entity id of the editor it stands for.
pub type EditorId = u64;

/// Bit pattern of the single-precision fraction 0.5, the ratio of every
/// freshly created split. Ratios are carried as the bits of an IEEE-754
/// `f32`; the tree stores and compares them but never computes with them.
pub const HALF_RATIO: u32 = 0x3F00_0000u32;

/// Split direction for pane layout.
#[derive(Clone, Copy, Debug, PartialEq, Eq, Structural)]
pub enum SplitDirection {
    Horizontal,
    Vertical,
}

/// Which side of the target a new or moved pane goes to.
#[derive(Clone, Copy, Debug, PartialEq, Eq, Structural)]
pub enum SplitPlacement {
    Before,
    After,
}

/// A terminal surface (a pane-local tab).
pub struct PaneSurface {
    pub id: SurfaceId,
    pub terminal: TerminalId,
    pub title: Option<String>,
    pub owner: Option<String>,
    pub close_pane_when_last: bool,
}

/// The content of a leaf pane: a terminal with surfaces, or an editor.
pub enum PaneContent {
    Terminal { surfaces: Vec<PaneSurface>, active_surface_id: SurfaceId },
    Editor { view: EditorId },
}

/// A node in the pane tree: either a pane slot or a split.
pub enum PaneNode {
    Leaf { id: PaneId, content: PaneContent },
    Split {
        split_id: SplitId,
        direction: SplitDirection,
        first: Box<PaneNode>,
        second: Box<PaneNode>,
        ratio: u32,
    },
}

/// Index of the first surface with id `sid` at or after `k`, or -1.
pub open spec fn surface_index_from(s: Seq<PaneSurface>, sid: SurfaceId, k: int) -> int
    decreases s.len() - k,
{
    if k < 0 || k >= s.len() {
        -1
    } else if s[k].id == sid {
        k
    } else {
        surface_index_from(s, sid, k + 1)
    }
}

/// Index of the first surface with id `sid`, or -1.
pub open spec fn surface_index(s: Seq<PaneSurface>, sid: SurfaceId) -> int {
    surface_index_from(s, sid, 0)
}

/// Index of the surface shown for `active`: the surface with that id, else
/// the first surface, else -1 when there is none.
pub open spec fn shown_surface_index(s: Seq<PaneSurface>, active: SurfaceId) -> int {
    if surface_index(s, active) >= 0 {
        surface_index(s, active)
    } else if s.len() > 0 {
        0
    } else {
        -1
    }
}

pub proof fn lemma_surface_index_from_bounds(s: Seq<PaneSurface>, sid: SurfaceId, k: int)
    requires
        0 <= k,
    ensures
        surface_index_from(s, sid, k) == -1 || (k <= surface_index_from(s, sid, k) < s.len()
            && s[surface_index_from(s, sid, k)].id == sid),
        surface_index_from(s, sid, k) == -1 ==> forall|j: int|
            k <= j < s.len() && 0 <= j ==> s[j].id != sid,
        surface_index_from(s, sid, k) >= 0 ==> forall|j: int|
            k <= j < surface_index_from(s, sid, k) ==> s[j].id != sid,
    decreases s.len() - k,
{
    if k >= s.len() {
    } else if s[k].id != sid {
        lemma_surface_index_from_bounds(s, sid, k + 1);
    }
}

/// Position of the surface with id `sid`, found by a left-to-right scan.
pub fn find_surface_index(s: &Vec<PaneSurface>, sid: SurfaceId) -> (r: Option<usize>)
    ensures
        match r {
            Some(i) => i as int == surface_index(s@, sid) && i < s@.len(),
            None => surface_index(s@, sid) == -1,
        },
{
    let mut i: usize = 0;
    while i < s.len()
        invariant
            i <= s@.len(),
            surface_index(s@, sid) == surface_index_from(s@, sid, i as int),
        decreases s@.len() - i,
    {
        if s[i].id == sid {
            return Some(i);
        }
        i = i + 1;
    }
    None
}


/// Mathematical form of a pane's content.
pub enum ContentView {
    Terminal { surfaces: Seq<PaneSurface>, active_surface_id: SurfaceId },
    Editor { view: EditorId },
}

/// Mathematical form of a pane tree node.
pub enum NodeView {
    Leaf { id: PaneId, content: ContentView },
    Split {
        split_id: SplitId,
        direction: SplitDirection,
        first: Box<NodeView>,
        second: Box<NodeView>,
        ratio: u32,
    },
}

impl View for PaneContent {
    type V = ContentView;

    open spec fn view(&self) -> ContentView {
        match self {
            PaneContent::Terminal { surfaces, active_surface_id } => ContentView::Terminal {
                surfaces: surfaces@,
                active_surface_id: *active_surface_id,
            },
            PaneContent::Editor { view } => ContentView::Editor { view: *view },
        }
    }
}

pub open spec fn node_view(n: PaneNode) -> NodeView
    decreases n,
{
    match n {
        PaneNode::Leaf { id, content } => NodeView::Leaf { id, content: content@ },
        PaneNode::Split { split_id, direction, first, second, ratio } => NodeView::Split {
            split_id,
            direction,
            first: Box::new(node_view(*first)),
            second: Box::new(node_view(*second)),
            ratio,
        },
    }
}

impl View for PaneNode {
    type V = NodeView;

    open spec fn view(&self) -> NodeView {
        node_view(*self)
    }
}

pub open spec fn opt_view(o: Option<PaneNode>) -> Option<NodeView> {
    match o {
        Some(n) => Some(n@),
        None => None,
    }
}

impl ContentView {
    /// Terminal shown by this content: the active surface's terminal, or the
    /// first surface's when the active id names none; editors show none.
    pub open spec fn shown_terminal(self) -> Option<TerminalId> {
        match self {
            ContentView::Terminal { surfaces, active_surface_id } => {
                let k = shown_surface_index(surfaces, active_surface_id);
                if k >= 0 {
                    Some(surfaces[k].terminal)
                } else {
                    None
                }
            },
            ContentView::Editor { .. } => None,
        }
    }

    /// Terminals of every surface, in order.
    pub open spec fn surface_terminals(self) -> Seq<TerminalId> {
        match self {
            ContentView::Terminal { surfaces, .. } => surfaces.map_values(|s: PaneSurface| s.terminal),
            ContentView::Editor { .. } => Seq::empty(),
        }
    }

    /// Ids of every surface, in order.
    pub open spec fn surface_ids(self) -> Seq<SurfaceId> {
        match self {
            ContentView::Terminal { surfaces, .. } => surfaces.map_values(|s: PaneSurface| s.id),
            ContentView::Editor { .. } => Seq::empty(),
        }
    }
}

impl PaneContent {
    /// The active surface id; editors report 0.
    pub fn active_surface_id(&self) -> (r: SurfaceId)
        ensures
            r == match self {
                PaneContent::Terminal { active_surface_id, .. } => *active_surface_id,
                PaneContent::Editor { .. } => 0,
            },
    {
        match self {
            PaneContent::Terminal { active_surface_id, .. } => *active_surface_id,
            PaneContent::Editor { .. } => 0,
        }
    }

    /// The surfaces of a terminal pane, in tab order; an editor has none.
    pub fn surfaces(&self) -> (r: &[PaneSurface])
        ensures
            r@ == match self@ {
                ContentView::Terminal { surfaces, .. } => surfaces,
                ContentView::Editor { .. } => Seq::empty(),
            },
    {
        match self {
            PaneContent::Terminal { surfaces, .. } => surfaces.as_slice(),
            PaneContent::Editor { .. } => &[],
        }
    }

    pub fn is_terminal(&self) -> (r: bool)
        ensures
            r == (self is Terminal),
    {
        match self {
            PaneContent::Terminal { .. } => true,
            PaneContent::Editor { .. } => false,
        }
    }

    pub fn is_editor(&self) -> (r: bool)
        ensures
            r == (self is Editor),
    {
        match self {
            PaneContent::Terminal { .. } => false,
            PaneContent::Editor { .. } => true,
        }
    }

    /// The terminal this content shows, if any.
    pub fn shown_terminal_exec(&self) -> (r: Option<TerminalId>)
        ensures
            r == self@.shown_terminal(),
    {
        match self {
            PaneContent::Terminal { surfaces, active_surface_id } => {
                match find_surface_index(surfaces, *active_surface_id) {
                    Some(i) => Some(surfaces[i].terminal),
                    None => {
                        if surfaces.len() > 0 {
                            Some(surfaces[0].terminal)
                        } else {
                            None
                        }
                    },
                }
            },
            PaneContent::Editor { .. } => None,
        }
    }

    /// Whether any surface of this content hosts terminal `t`.
    pub fn hosts_terminal(&self, t: TerminalId) -> (r: bool)
        ensures
            r == self@.surface_terminals().contains(t),
    {
        match self {
            PaneContent::Terminal { surfaces, .. } => {
                let mut i: usize = 0;
                while i < surfaces.len()
                    invariant
                        i <= surfaces@.len(),
                        self@.surface_terminals() == surfaces@.map_values(|s: PaneSurface| s.terminal),
                        forall|j: int| 0 <= j < i ==> surfaces@[j].terminal != t,
                    decreases surfaces@.len() - i,
                {
                    if surfaces[i].terminal == t {
                        assert(self@.surface_terminals()[i as int] == t);
                        return true;
                    }
                    i = i + 1;
                }
                proof {
                    if self@.surface_terminals().contains(t) {
                        let k = choose|k: int|
                            0 <= k < self@.surface_terminals().len() && self@.surface_terminals()[k] == t;
                        assert(surfaces@[k].terminal == t);
                    }
                }
                false
            },
            PaneContent::Editor { .. } => false,
        }
    }
}


/// Largest element, or 0 for the empty sequence.
pub open spec fn max_of(s: Seq<usize>) -> usize
    decreases s.len(),
{
    if s.len() == 0 {
        0
    } else {
        let m = max_of(s.drop_last());
        if s.last() > m {
            s.last()
        } else {
            m
        }
    }
}

pub proof fn lemma_max_of_bound(s: Seq<usize>)
    ensures
        forall|i: int| 0 <= i < s.len() ==> s[i] <= max_of(s),
        s.len() > 0 ==> s.contains(max_of(s)),
    decreases s.len(),
{
    if s.len() > 0 {
        lemma_max_of_bound(s.drop_last());
        if s.drop_last().len() > 0 {
            let k = choose|k: int| 0 <= k < s.drop_last().len() && s.drop_last()[k] == max_of(s.drop_last());
            assert(s[k] == max_of(s.drop_last()));
        }
        assert(s[s.len() - 1] == s.last());
        assert forall|i: int| 0 <= i < s.len() implies s[i] <= max_of(s) by {
            if i < s.len() - 1 {
                assert(s[i] == s.drop_last()[i]);
            }
        }
    }
}

impl NodeView {
    /// Leaf ids, left to right.
    pub open spec fn leaf_ids(self) -> Seq<PaneId>
        decreases self,
    {
        match self {
            NodeView::Leaf { id, .. } => seq![id],
            NodeView::Split { first, second, .. } => first.leaf_ids() + second.leaf_ids(),
        }
    }

    /// Split ids in pre-order (a split before its children).
    pub open spec fn split_ids(self) -> Seq<SplitId>
        decreases self,
    {
        match self {
            NodeView::Leaf { .. } => Seq::empty(),
            NodeView::Split { split_id, first, second, .. } => seq![split_id] + first.split_ids()
                + second.split_ids(),
        }
    }

    pub open spec fn has_leaf(self, pane_id: PaneId) -> bool {
        self.leaf_ids().contains(pane_id)
    }

    pub open spec fn is_leaf_with(self, pane_id: PaneId) -> bool {
        self matches NodeView::Leaf { id, .. } && id == pane_id
    }

    /// Id of the leftmost leaf.
    pub open spec fn first_leaf(self) -> PaneId
        decreases self,
    {
        match self {
            NodeView::Leaf { id, .. } => id,
            NodeView::Split { first, .. } => first.first_leaf(),
        }
    }

    /// Largest leaf id.
    pub open spec fn max_leaf(self) -> PaneId
        decreases self,
    {
        match self {
            NodeView::Leaf { id, .. } => id,
            NodeView::Split { first, second, .. } => {
                let a = first.max_leaf();
                let b = second.max_leaf();
                if a >= b {
                    a
                } else {
                    b
                }
            },
        }
    }

    /// Content of the leftmost leaf with the given id.
    pub open spec fn content_of(self, pane_id: PaneId) -> Option<ContentView>
        decreases self,
    {
        match self {
            NodeView::Leaf { id, content } => if id == pane_id {
                Some(content)
            } else {
                None
            },
            NodeView::Split { first, second, .. } => match first.content_of(pane_id) {
                Some(c) => Some(c),
                None => second.content_of(pane_id),
            },
        }
    }

    /// Terminal shown by the leftmost terminal leaf with the given id that shows one.
    pub open spec fn terminal_of(self, pane_id: PaneId) -> Option<TerminalId>
        decreases self,
    {
        match self {
            NodeView::Leaf { id, content } => if id == pane_id {
                content.shown_terminal()
            } else {
                None
            },
            NodeView::Split { first, second, .. } => match first.terminal_of(pane_id) {
                Some(t) => Some(t),
                None => second.terminal_of(pane_id),
            },
        }
    }

    /// Leftmost leaf that shows a terminal, with that terminal.
    pub open spec fn first_terminal(self) -> Option<(PaneId, TerminalId)>
        decreases self,
    {
        match self {
            NodeView::Leaf { id, content } => match content.shown_terminal() {
                Some(t) => Some((id, t)),
                None => None,
            },
            NodeView::Split { first, second, .. } => match first.first_terminal() {
                Some(p) => Some(p),
                None => second.first_terminal(),
            },
        }
    }

    /// Leftmost editor leaf.
    pub open spec fn first_editor(self) -> Option<PaneId>
        decreases self,
    {
        match self {
            NodeView::Leaf { id, content } => match content {
                ContentView::Editor { .. } => Some(id),
                ContentView::Terminal { .. } => None,
            },
            NodeView::Split { first, second, .. } => match first.first_editor() {
                Some(p) => Some(p),
                None => second.first_editor(),
            },
        }
    }

    /// Editor view of the leftmost editor leaf with the given id.
    pub open spec fn editor_of(self, pane_id: PaneId) -> Option<EditorId>
        decreases self,
    {
        match self {
            NodeView::Leaf { id, content } => match content {
                ContentView::Editor { view } => if id == pane_id {
                    Some(view)
                } else {
                    None
                },
                ContentView::Terminal { .. } => None,
            },
            NodeView::Split { first, second, .. } => match first.editor_of(pane_id) {
                Some(v) => Some(v),
                None => second.editor_of(pane_id),
            },
        }
    }

    /// Leftmost editor leaf showing the given view.
    pub open spec fn pane_of_editor(self, view_id: EditorId) -> Option<PaneId>
        decreases self,
    {
        match self {
            NodeView::Leaf { id, content } => match content {
                ContentView::Editor { view } => if view == view_id {
                    Some(id)
                } else {
                    None
                },
                ContentView::Terminal { .. } => None,
            },
            NodeView::Split { first, second, .. } => match first.pane_of_editor(view_id) {
                Some(p) => Some(p),
                None => second.pane_of_editor(view_id),
            },
        }
    }

    /// Editor views, left to right.
    pub open spec fn editor_views(self) -> Seq<EditorId>
        decreases self,
    {
        match self {
            NodeView::Leaf { content, .. } => match content {
                ContentView::Editor { view } => seq![view],
                ContentView::Terminal { .. } => Seq::empty(),
            },
            NodeView::Split { first, second, .. } => first.editor_views() + second.editor_views(),
        }
    }

    /// Leftmost terminal leaf one of whose surfaces hosts terminal `t`.
    pub open spec fn pane_of_terminal(self, t: TerminalId) -> Option<PaneId>
        decreases self,
    {
        match self {
            NodeView::Leaf { id, content } => if content.surface_terminals().contains(t) {
                Some(id)
            } else {
                None
            },
            NodeView::Split { first, second, .. } => match first.pane_of_terminal(t) {
                Some(p) => Some(p),
                None => second.pane_of_terminal(t),
            },
        }
    }

    /// Whether a leaf with id `pane_id` has a surface hosting terminal `t`.
    pub open spec fn pane_hosts(self, t: TerminalId, pane_id: PaneId) -> bool
        decreases self,
    {
        match self {
            NodeView::Leaf { id, content } => id == pane_id && content.surface_terminals().contains(t),
            NodeView::Split { first, second, .. } => first.pane_hosts(t, pane_id) || second.pane_hosts(
                t,
                pane_id,
            ),
        }
    }

    /// Shown terminal of every terminal leaf, left to right.
    pub open spec fn shown_terminals(self) -> Seq<TerminalId>
        decreases self,
    {
        match self {
            NodeView::Leaf { content, .. } => match content.shown_terminal() {
                Some(t) => seq![t],
                None => Seq::empty(),
            },
            NodeView::Split { first, second, .. } => first.shown_terminals() + second.shown_terminals(),
        }
    }

    /// Pane id and shown terminal of every terminal leaf, left to right.
    pub open spec fn pane_terminals(self) -> Seq<(PaneId, TerminalId)>
        decreases self,
    {
        match self {
            NodeView::Leaf { id, content } => match content.shown_terminal() {
                Some(t) => seq![(id, t)],
                None => Seq::empty(),
            },
            NodeView::Split { first, second, .. } => first.pane_terminals() + second.pane_terminals(),
        }
    }

    /// Terminal of every surface, pane by pane, left to right.
    pub open spec fn all_surface_terminals(self) -> Seq<TerminalId>
        decreases self,
    {
        match self {
            NodeView::Leaf { content, .. } => content.surface_terminals(),
            NodeView::Split { first, second, .. } => first.all_surface_terminals()
                + second.all_surface_terminals(),
        }
    }

    /// For every surface: its pane, whether it is the pane's active one, its terminal.
    pub open spec fn surface_entries(self) -> Seq<(PaneId, bool, TerminalId)>
        decreases self,
    {
        match self {
            NodeView::Leaf { id, content } => match content {
                ContentView::Terminal { surfaces, active_surface_id } => surfaces.map_values(
                    |s: PaneSurface| (id, s.id == active_surface_id, s.terminal),
                ),
                ContentView::Editor { .. } => Seq::empty(),
            },
            NodeView::Split { first, second, .. } => first.surface_entries() + second.surface_entries(),
        }
    }

    /// Active surface id of the leftmost terminal leaf with the given id.
    pub open spec fn active_surface_of(self, pane_id: PaneId) -> Option<SurfaceId>
        decreases self,
    {
        match self {
            NodeView::Leaf { id, content } => match content {
                ContentView::Terminal { active_surface_id, .. } => if id == pane_id {
                    Some(active_surface_id)
                } else {
                    None
                },
                ContentView::Editor { .. } => None,
            },
            NodeView::Split { first, second, .. } => match first.active_surface_of(pane_id) {
                Some(s) => Some(s),
                None => second.active_surface_of(pane_id),
            },
        }
    }

    /// Every surface id, pane by pane, left to right.
    pub open spec fn surface_ids(self) -> Seq<SurfaceId>
        decreases self,
    {
        match self {
            NodeView::Leaf { content, .. } => content.surface_ids(),
            NodeView::Split { first, second, .. } => first.surface_ids() + second.surface_ids(),
        }
    }

    /// Largest surface id in the tree (0 when there is none).
    pub open spec fn max_surface(self) -> SurfaceId
        decreases self,
    {
        match self {
            NodeView::Leaf { content, .. } => max_of(content.surface_ids()),
            NodeView::Split { first, second, .. } => {
                let a = first.max_surface();
                let b = second.max_surface();
                if a >= b {
                    a
                } else {
                    b
                }
            },
        }
    }
}


impl PaneNode {
    /// Number of leaves (saturating at `usize::MAX`).
    pub fn count_leaves(&self) -> (n: usize)
        ensures
            n as int == if self@.leaf_ids().len() < usize::MAX {
                self@.leaf_ids().len() as int
            } else {
                usize::MAX as int
            },
        decreases self,
    {
        match self {
            PaneNode::Leaf { .. } => 1,
            PaneNode::Split { first, second, .. } => {
                let a = first.count_leaves();
                let b = second.count_leaves();
                a.saturating_add(b)
            },
        }
    }

    pub fn contains_leaf(&self, pane_id: PaneId) -> (r: bool)
        ensures
            r == self@.has_leaf(pane_id),
        decreases self,
    {
        match self {
            PaneNode::Leaf { id, .. } => {
                proof {
                    if seq![*id].contains(pane_id) {
                        let k = choose|k: int| 0 <= k < 1 && seq![*id][k] == pane_id;
                    }
                    if *id == pane_id {
                        assert(seq![*id][0] == pane_id);
                    }
                }
                *id == pane_id
            },
            PaneNode::Split { first, second, .. } => {
                first.contains_leaf(pane_id) || second.contains_leaf(pane_id)
            },
        }
    }

    pub fn is_leaf(&self, pane_id: PaneId) -> (r: bool)
        ensures
            r == self@.is_leaf_with(pane_id),
    {
        match self {
            PaneNode::Leaf { id, .. } => *id == pane_id,
            PaneNode::Split { .. } => false,
        }
    }

    pub fn first_pane_id(&self) -> (r: PaneId)
        ensures
            r == self@.first_leaf(),
        decreases self,
    {
        match self {
            PaneNode::Leaf { id, .. } => *id,
            PaneNode::Split { first, .. } => first.first_pane_id(),
        }
    }

    pub fn max_pane_id(&self) -> (r: PaneId)
        ensures
            r == self@.max_leaf(),
        decreases self,
    {
        match self {
            PaneNode::Leaf { id, .. } => *id,
            PaneNode::Split { first, second, .. } => {
                let a = first.max_pane_id();
                let b = second.max_pane_id();
                if a >= b {
                    a
                } else {
                    b
                }
            },
        }
    }

    pub fn max_surface_id(&self) -> (r: SurfaceId)
        ensures
            r == self@.max_surface(),
        decreases self,
    {
        match self {
            PaneNode::Leaf { content, .. } => match content {
                PaneContent::Terminal { surfaces, .. } => {
                    let ghost ids = content@.surface_ids();
                    let mut best: usize = 0;
                    let mut i: usize = 0;
                    while i < surfaces.len()
                        invariant
                            i <= surfaces@.len(),
                            ids == surfaces@.map_values(|s: PaneSurface| s.id),
                            best == max_of(ids.take(i as int)),
                        decreases surfaces@.len() - i,
                    {
                        assert(ids.take(i + 1).drop_last() =~= ids.take(i as int));
                        if surfaces[i].id > best {
                            best = surfaces[i].id;
                        }
                        i = i + 1;
                    }
                    assert(ids.take(i as int) =~= ids);
                    best
                },
                PaneContent::Editor { .. } => 0,
            },
            PaneNode::Split { first, second, .. } => {
                let a = first.max_surface_id();
                let b = second.max_surface_id();
                if a >= b {
                    a
                } else {
                    b
                }
            },
        }
    }

    pub fn find_terminal(&self, pane_id: PaneId) -> (r: Option<TerminalId>)
        ensures
            r == self@.terminal_of(pane_id),
        decreases self,
    {
        match self {
            PaneNode::Leaf { id, content } => {
                if *id == pane_id {
                    content.shown_terminal_exec()
                } else {
                    None
                }
            },
            PaneNode::Split { first, second, .. } => match first.find_terminal(pane_id) {
                Some(t) => Some(t),
                None => second.find_terminal(pane_id),
            },
        }
    }

    pub fn try_first_terminal_with_id(&self) -> (r: Option<(PaneId, TerminalId)>)
        ensures
            r == self@.first_terminal(),
        decreases self,
    {
        match self {
            PaneNode::Leaf { id, content } => match content.shown_terminal_exec() {
                Some(t) => Some((*id, t)),
                None => None,
            },
            PaneNode::Split { first, second, .. } => match first.try_first_terminal_with_id() {
                Some(p) => Some(p),
                None => second.try_first_terminal_with_id(),
            },
        }
    }

    pub fn find_editor_pane_node(&self) -> (r: Option<PaneId>)
        ensures
            r == self@.first_editor(),
        decreases self,
    {
        match self {
            PaneNode::Leaf { id, content } => match content {
                PaneContent::Editor { .. } => Some(*id),
                PaneContent::Terminal { .. } => None,
            },
            PaneNode::Split { first, second, .. } => match first.find_editor_pane_node() {
                Some(p) => Some(p),
                None => second.find_editor_pane_node(),
            },
        }
    }

    pub fn editor_view_for_pane_node(&self, pane_id: PaneId) -> (r: Option<EditorId>)
        ensures
            r == self@.editor_of(pane_id),
        decreases self,
    {
        match self {
            PaneNode::Leaf { id, content } => match content {
                PaneContent::Editor { view } => if *id == pane_id {
                    Some(*view)
                } else {
                    None
                },
                PaneContent::Terminal { .. } => None,
            },
            PaneNode::Split { first, second, .. } => match first.editor_view_for_pane_node(pane_id) {
                Some(v) => Some(v),
                None => second.editor_view_for_pane_node(pane_id),
            },
        }
    }

    pub fn find_editor_pane_id_by_view(&self, view_id: EditorId) -> (r: Option<PaneId>)
        ensures
            r == self@.pane_of_editor(view_id),
        decreases self,
    {
        match self {
            PaneNode::Leaf { id, content } => match content {
                PaneContent::Editor { view } => if *view == view_id {
                    Some(*id)
                } else {
                    None
                },
                PaneContent::Terminal { .. } => None,
            },
            PaneNode::Split { first, second, .. } => match first.find_editor_pane_id_by_view(view_id) {
                Some(p) => Some(p),
                None => second.find_editor_pane_id_by_view(view_id),
            },
        }
    }

    pub fn collect_editor_views(&self, out: &mut Vec<EditorId>)
        ensures
            final(out)@ == old(out)@ + self@.editor_views(),
        decreases self,
    {
        match self {
            PaneNode::Leaf { content, .. } => match content {
                PaneContent::Editor { view } => {
                    out.push(*view);
                    assert(final(out)@ =~= old(out)@ + self@.editor_views());
                },
                PaneContent::Terminal { .. } => {
                    assert(old(out)@ + self@.editor_views() =~= old(out)@);
                },
            },
            PaneNode::Split { first, second, .. } => {
                first.collect_editor_views(out);
                second.collect_editor_views(out);
                assert(old(out)@ + (first@.editor_views() + second@.editor_views()) =~= old(out)@
                    + first@.editor_views() + second@.editor_views());
            },
        }
    }

    pub fn find_pane_id_by_terminal(&self, t: TerminalId) -> (r: Option<PaneId>)
        ensures
            r == self@.pane_of_terminal(t),
        decreases self,
    {
        match self {
            PaneNode::Leaf { id, content } => if content.hosts_terminal(t) {
                Some(*id)
            } else {
                None
            },
            PaneNode::Split { first, second, .. } => match first.find_pane_id_by_terminal(t) {
                Some(p) => Some(p),
                None => second.find_pane_id_by_terminal(t),
            },
        }
    }

    pub fn check_terminal_pane_id(&self, t: TerminalId, pane_id: PaneId) -> (r: bool)
        ensures
            r == self@.pane_hosts(t, pane_id),
        decreases self,
    {
        match self {
            PaneNode::Leaf { id, content } => *id == pane_id && content.hosts_terminal(t),
            PaneNode::Split { first, second, .. } => {
                first.check_terminal_pane_id(t, pane_id) || second.check_terminal_pane_id(t, pane_id)
            },
        }
    }

    pub fn collect_terminals(&self, out: &mut Vec<TerminalId>)
        ensures
            final(out)@ == old(out)@ + self@.shown_terminals(),
        decreases self,
    {
        match self {
            PaneNode::Leaf { content, .. } => match content.shown_terminal_exec() {
                Some(t) => {
                    out.push(t);
                    assert(final(out)@ =~= old(out)@ + self@.shown_terminals());
                },
                None => {
                    assert(old(out)@ + self@.shown_terminals() =~= old(out)@);
                },
            },
            PaneNode::Split { first, second, .. } => {
                first.collect_terminals(out);
                second.collect_terminals(out);
                assert(old(out)@ + (first@.shown_terminals() + second@.shown_terminals()) =~= old(
                    out,
                )@ + first@.shown_terminals() + second@.shown_terminals());
            },
        }
    }

    pub fn collect_pane_terminals(&self, out: &mut Vec<(PaneId, TerminalId)>)
        ensures
            final(out)@ == old(out)@ + self@.pane_terminals(),
        decreases self,
    {
        match self {
            PaneNode::Leaf { id, content } => match content.shown_terminal_exec() {
                Some(t) => {
                    out.push((*id, t));
                    assert(final(out)@ =~= old(out)@ + self@.pane_terminals());
                },
                None => {
                    assert(old(out)@ + self@.pane_terminals() =~= old(out)@);
                },
            },
            PaneNode::Split { first, second, .. } => {
                first.collect_pane_terminals(out);
                second.collect_pane_terminals(out);
                assert(old(out)@ + (first@.pane_terminals() + second@.pane_terminals()) =~= old(
                    out,
                )@ + first@.pane_terminals() + second@.pane_terminals());
            },
        }
    }

    pub fn collect_all_surface_terminals(&self, out: &mut Vec<TerminalId>)
        ensures
            final(out)@ == old(out)@ + self@.all_surface_terminals(),
        decreases self,
    {
        match self {
            PaneNode::Leaf { content, .. } => match content {
                PaneContent::Terminal { surfaces, .. } => {
                    let ghost start = out@;
                    let mut i: usize = 0;
                    while i < surfaces.len()
                        invariant
                            i <= surfaces@.len(),
                            content@.surface_terminals() == surfaces@.map_values(|s: PaneSurface| s.terminal),
                            out@ == start + content@.surface_terminals().take(i as int),
                        decreases surfaces@.len() - i,
                    {
                        out.push(surfaces[i].terminal);
                        assert(content@.surface_terminals().take(i + 1) =~= content@.surface_terminals().take(
                            i as int,
                        ).push(surfaces@[i as int].terminal));
                        i = i + 1;
                    }
                    assert(content@.surface_terminals().take(i as int) =~= content@.surface_terminals());
                },
                PaneContent::Editor { .. } => {
                    assert(old(out)@ + self@.all_surface_terminals() =~= old(out)@);
                },
            },
            PaneNode::Split { first, second, .. } => {
                first.collect_all_surface_terminals(out);
                second.collect_all_surface_terminals(out);
                assert(old(out)@ + (first@.all_surface_terminals() + second@.all_surface_terminals())
                    =~= old(out)@ + first@.all_surface_terminals() + second@.all_surface_terminals());
            },
        }
    }

    pub fn collect_surface_terminals(&self, out: &mut Vec<(PaneId, bool, TerminalId)>)
        ensures
            final(out)@ == old(out)@ + self@.surface_entries(),
        decreases self,
    {
        match self {
            PaneNode::Leaf { id, content } => match content {
                PaneContent::Terminal { surfaces, active_surface_id } => {
                    let ghost start = out@;
                    let ghost entries = self@.surface_entries();
                    let mut i: usize = 0;
                    while i < surfaces.len()
                        invariant
                            i <= surfaces@.len(),
                            entries == surfaces@.map_values(
                                |s: PaneSurface| (*id, s.id == *active_surface_id, s.terminal),
                            ),
                            out@ == start + entries.take(i as int),
                        decreases surfaces@.len() - i,
                    {
                        out.push((*id, surfaces[i].id == *active_surface_id, surfaces[i].terminal));
                        assert(entries.take(i + 1) =~= entries.take(i as int).push(entries[i as int]));
                        i = i + 1;
                    }
                    assert(entries.take(i as int) =~= entries);
                },
                PaneContent::Editor { .. } => {
                    assert(old(out)@ + self@.surface_entries() =~= old(out)@);
                },
            },
            PaneNode::Split { first, second, .. } => {
                first.collect_surface_terminals(out);
                second.collect_surface_terminals(out);
                assert(old(out)@ + (first@.surface_entries() + second@.surface_entries()) =~= old(
                    out,
                )@ + first@.surface_entries() + second@.surface_entries());
            },
        }
    }

    pub fn find_active_surface_id(&self, pane_id: PaneId) -> (r: Option<SurfaceId>)
        ensures
            r == self@.active_surface_of(pane_id),
        decreases self,
    {
        match self {
            PaneNode::Leaf { id, content } => match content {
                PaneContent::Terminal { active_surface_id, .. } => if *id == pane_id {
                    Some(*active_surface_id)
                } else {
                    None
                },
                PaneContent::Editor { .. } => None,
            },
            PaneNode::Split { first, second, .. } => match first.find_active_surface_id(pane_id) {
                Some(s) => Some(s),
                None => second.find_active_surface_id(pane_id),
            },
        }
    }
}


impl NodeView {
    /// The tree with the leftmost leaf `target` replaced by a split of that
    /// leaf and `new_leaf`, in the order that `placement` gives.
    pub open spec fn split_spec(
        self,
        target: PaneId,
        new_leaf: NodeView,
        direction: SplitDirection,
        placement: SplitPlacement,
        split_id: SplitId,
    ) -> NodeView
        decreases self,
    {
        match self {
            NodeView::Leaf { id, .. } => if id == target {
                match placement {
                    SplitPlacement::Before => NodeView::Split {
                        split_id,
                        direction,
                        first: Box::new(new_leaf),
                        second: Box::new(self),
                        ratio: HALF_RATIO,
                    },
                    SplitPlacement::After => NodeView::Split {
                        split_id,
                        direction,
                        first: Box::new(self),
                        second: Box::new(new_leaf),
                        ratio: HALF_RATIO,
                    },
                }
            } else {
                self
            },
            NodeView::Split { split_id: sid, direction: d, first, second, ratio } => if first.has_leaf(
                target,
            ) {
                NodeView::Split {
                    split_id: sid,
                    direction: d,
                    first: Box::new(first.split_spec(target, new_leaf, direction, placement, split_id)),
                    second,
                    ratio,
                }
            } else {
                NodeView::Split {
                    split_id: sid,
                    direction: d,
                    first,
                    second: Box::new(
                        second.split_spec(target, new_leaf, direction, placement, split_id),
                    ),
                    ratio,
                }
            },
        }
    }

    /// The tree with leaf `target` removed: a split one of whose children is
    /// that leaf is replaced by its other child.
    pub open spec fn remove_spec(self, target: PaneId) -> NodeView
        decreases self,
    {
        match self {
            NodeView::Split { split_id, direction, first, second, ratio } => {
                if first.is_leaf_with(target) {
                    *second
                } else if second.is_leaf_with(target) {
                    *first
                } else {
                    NodeView::Split {
                        split_id,
                        direction,
                        first: Box::new(first.remove_spec(target)),
                        second: Box::new(second.remove_spec(target)),
                        ratio,
                    }
                }
            },
            NodeView::Leaf { .. } => self,
        }
    }

    /// Detaches the leftmost leaf `target`: the remaining tree (if any) and
    /// the detached leaf (if found).
    pub open spec fn extract_spec(self, target: PaneId) -> (Option<NodeView>, Option<NodeView>)
        decreases self,
    {
        match self {
            NodeView::Leaf { id, .. } => if id == target {
                (None, Some(self))
            } else {
                (Some(self), None)
            },
            NodeView::Split { split_id, direction, first, second, ratio } => {
                let (new_first, extracted) = first.extract_spec(target);
                if extracted is Some {
                    match new_first {
                        Some(f) => (
                            Some(
                                NodeView::Split {
                                    split_id,
                                    direction,
                                    first: Box::new(f),
                                    second,
                                    ratio,
                                },
                            ),
                            extracted,
                        ),
                        None => (Some(*second), extracted),
                    }
                } else {
                    let (new_second, extracted2) = second.extract_spec(target);
                    if extracted2 is Some {
                        match new_second {
                            Some(s) => (
                                Some(
                                    NodeView::Split {
                                        split_id,
                                        direction,
                                        first,
                                        second: Box::new(s),
                                        ratio,
                                    },
                                ),
                                extracted2,
                            ),
                            None => (Some(*first), extracted2),
                        }
                    } else {
                        (Some(self), None)
                    }
                }
            },
        }
    }

    /// Number of split nodes.
    pub open spec fn split_count(self) -> nat
        decreases self,
    {
        match self {
            NodeView::Leaf { .. } => 0,
            NodeView::Split { first, second, .. } => 1 + first.split_count() + second.split_count(),
        }
    }

    /// The tree with its splits renumbered `next, next + 1, ...` in pre-order.
    pub open spec fn normalize_spec(self, next: int) -> NodeView
        decreases self,
    {
        match self {
            NodeView::Leaf { .. } => self,
            NodeView::Split { direction, first, second, ratio, .. } => NodeView::Split {
                split_id: next as usize,
                direction,
                first: Box::new(first.normalize_spec(next + 1)),
                second: Box::new(second.normalize_spec(next + 1 + first.split_count())),
                ratio,
            },
        }
    }
}

pub proof fn lemma_split_count_ids(n: NodeView)
    ensures
        n.split_ids().len() == n.split_count(),
        n.leaf_ids().len() == n.split_count() + 1,
    decreases n,
{
    match n {
        NodeView::Leaf { .. } => {},
        NodeView::Split { first, second, .. } => {
            lemma_split_count_ids(*first);
            lemma_split_count_ids(*second);
        },
    }
}

impl PaneNode {
    pub fn split_leaf(
        self,
        target: PaneId,
        new_leaf: PaneNode,
        direction: SplitDirection,
        placement: SplitPlacement,
        split_id: SplitId,
    ) -> (r: (PaneNode, bool))
        ensures
            r.0@ == self@.split_spec(target, new_leaf@, direction, placement, split_id),
            r.1 == self@.has_leaf(target),
        decreases self,
    {
        match self {
            PaneNode::Leaf { id, content } => {
                if id == target {
                    let old = PaneNode::Leaf { id, content };
                    let node = match placement {
                        SplitPlacement::Before => PaneNode::Split {
                            split_id,
                            direction,
                            first: Box::new(new_leaf),
                            second: Box::new(old),
                            ratio: HALF_RATIO,
                        },
                        SplitPlacement::After => PaneNode::Split {
                            split_id,
                            direction,
                            first: Box::new(old),
                            second: Box::new(new_leaf),
                            ratio: HALF_RATIO,
                        },
                    };
                    proof {
                        assert(seq![id][0] == id);
                    }
                    (node, true)
                } else {
                    proof {
                        if seq![id].contains(target) {
                            let k = choose|k: int| 0 <= k < 1 && seq![id][k] == target;
                        }
                    }
                    (PaneNode::Leaf { id, content }, false)
                }
            },
            PaneNode::Split { split_id: sid, direction: d, first, second, ratio } => {
                if first.contains_leaf(target) {
                    let (f, _) = (*first).split_leaf(target, new_leaf, direction, placement, split_id);
                    (PaneNode::Split { split_id: sid, direction: d, first: Box::new(f), second, ratio }, true)
                } else {
                    let (s, found) = (*second).split_leaf(
                        target,
                        new_leaf,
                        direction,
                        placement,
                        split_id,
                    );
                    (PaneNode::Split { split_id: sid, direction: d, first, second: Box::new(s), ratio }, found)
                }
            },
        }
    }

    pub fn remove_leaf(self, target: PaneId) -> (r: PaneNode)
        ensures
            r@ == self@.remove_spec(target),
        decreases self,
    {
        match self {
            PaneNode::Split { split_id, direction, first, second, ratio } => {
                if first.is_leaf(target) {
                    return *second;
                }
                if second.is_leaf(target) {
                    return *first;
                }
                PaneNode::Split {
                    split_id,
                    direction,
                    first: Box::new((*first).remove_leaf(target)),
                    second: Box::new((*second).remove_leaf(target)),
                    ratio,
                }
            },
            PaneNode::Leaf { id, content } => PaneNode::Leaf { id, content },
        }
    }

    pub fn extract_leaf(self, target: PaneId) -> (r: (Option<PaneNode>, Option<PaneNode>))
        ensures
            (opt_view(r.0), opt_view(r.1)) == self@.extract_spec(target),
        decreases self,
    {
        match self {
            PaneNode::Leaf { id, content } => {
                if id == target {
                    (None, Some(PaneNode::Leaf { id, content }))
                } else {
                    (Some(PaneNode::Leaf { id, content }), None)
                }
            },
            PaneNode::Split { split_id, direction, first, second, ratio } => {
                let ghost old_second = *second;
                let (new_first, extracted) = (*first).extract_leaf(target);
                if extracted.is_some() {
                    return match new_first {
                        Some(f) => (
                            Some(
                                PaneNode::Split {
                                    split_id,
                                    direction,
                                    first: Box::new(f),
                                    second,
                                    ratio,
                                },
                            ),
                            extracted,
                        ),
                        None => (Some(*second), extracted),
                    };
                }
                let first_node = match new_first {
                    Some(f) => f,
                    None => {
                        proof {
                            assert(false);
                        }
                        return (None, None);
                    },
                };
                proof {
                    lemma_extract_absent((*first)@, target);
                }
                let (new_second, extracted2) = (*second).extract_leaf(target);
                if extracted2.is_some() {
                    return match new_second {
                        Some(s) => (
                            Some(
                                PaneNode::Split {
                                    split_id,
                                    direction,
                                    first: Box::new(first_node),
                                    second: Box::new(s),
                                    ratio,
                                },
                            ),
                            extracted2,
                        ),
                        None => (Some(first_node), extracted2),
                    };
                }
                let second_node = match new_second {
                    Some(s) => s,
                    None => {
                        proof {
                            assert(false);
                        }
                        return (None, None);
                    },
                };
                proof {
                    lemma_extract_absent(old_second@, target);
                }
                (
                    Some(
                        PaneNode::Split {
                            split_id,
                            direction,
                            first: Box::new(first_node),
                            second: Box::new(second_node),
                            ratio,
                        },
                    ),
                    None,
                )
            },
        }
    }

    pub fn normalize_split_ids(self, next: SplitId) -> (r: (PaneNode, SplitId))
        requires
            next + self@.split_count() <= usize::MAX,
        ensures
            r.0@ == self@.normalize_spec(next as int),
            r.1 == next + self@.split_count(),
        decreases self,
    {
        match self {
            PaneNode::Leaf { id, content } => (PaneNode::Leaf { id, content }, next),
            PaneNode::Split { direction, first, second, ratio, .. } => {
                let (f, n1) = (*first).normalize_split_ids(next + 1);
                let (s, n2) = (*second).normalize_split_ids(n1);
                (
                    PaneNode::Split {
                        split_id: next,
                        direction,
                        first: Box::new(f),
                        second: Box::new(s),
                        ratio,
                    },
                    n2,
                )
            },
        }
    }
}

/// A node from which nothing is extracted comes back whole.
pub proof fn lemma_extract_absent(n: NodeView, target: PaneId)
    ensures
        n.extract_spec(target).1 is None ==> n.extract_spec(target).0 == Some(n),
        n.extract_spec(target).1 is None <==> !n.has_leaf(target),
        n.content_of(target) is Some <==> n.has_leaf(target),
        n.extract_spec(target).1 is Some ==> n.extract_spec(target).1 == Some(
            NodeView::Leaf { id: target, content: n.content_of(target)->0 },
        ),
    decreases n,
{
    match n {
        NodeView::Leaf { id, content } => {
            if seq![id].contains(target) {
                let k = choose|k: int| 0 <= k < 1 && seq![id][k] == target;
            }
            assert(seq![id][0] == id);
            if id == target {
                assert(n.content_of(target) == Some(content));
            }
        },
        NodeView::Split { first, second, .. } => {
            lemma_extract_absent(*first, target);
            lemma_extract_absent(*second, target);
        },
    }
}


/// What the tree knows about a surface before closing it.
pub struct SurfaceCloseCandidate {
    pub pane_id: PaneId,
    pub terminal: TerminalId,
    pub is_last_surface: bool,
    pub owner: Option<String>,
    pub close_pane_when_last: bool,
}

pub open spec fn surface_retitled(s: PaneSurface, title: Option<String>) -> PaneSurface {
    PaneSurface {
        id: s.id,
        terminal: s.terminal,
        title: title,
        owner: s.owner,
        close_pane_when_last: s.close_pane_when_last,
    }
}

/// Surfaces left after removing the one at `k`, and the new active id.
pub open spec fn surfaces_after_removal(
    surfaces: Seq<PaneSurface>,
    active: SurfaceId,
    k: int,
) -> (Seq<PaneSurface>, SurfaceId) {
    let rest = surfaces.remove(k);
    let new_active = if active == surfaces[k].id {
        rest[if k >= 1 {
            k - 1
        } else {
            0
        }].id
    } else {
        active
    };
    (rest, new_active)
}

impl NodeView {
    /// The leftmost terminal leaf `pane_id` with `surface` appended and made active.
    pub open spec fn push_spec(self, pane_id: PaneId, surface: PaneSurface) -> NodeView
        decreases self,
    {
        match self {
            NodeView::Leaf { id, content } => match content {
                ContentView::Terminal { surfaces, .. } => if id == pane_id {
                    NodeView::Leaf {
                        id,
                        content: ContentView::Terminal {
                            surfaces: surfaces.push(surface),
                            active_surface_id: surface.id,
                        },
                    }
                } else {
                    self
                },
                ContentView::Editor { .. } => self,
            },
            NodeView::Split { split_id, direction, first, second, ratio } => if first.active_surface_of(
                pane_id,
            ) is Some {
                NodeView::Split {
                    split_id,
                    direction,
                    first: Box::new(first.push_spec(pane_id, surface)),
                    second,
                    ratio,
                }
            } else {
                NodeView::Split {
                    split_id,
                    direction,
                    first,
                    second: Box::new(second.push_spec(pane_id, surface)),
                    ratio,
                }
            },
        }
    }

    /// Makes surface `sid` active in the leftmost terminal leaf holding it:
    /// the new tree, and that leaf's id with whether its active surface changed.
    pub open spec fn activate_spec(self, sid: SurfaceId) -> (NodeView, Option<(PaneId, bool)>)
        decreases self,
    {
        match self {
            NodeView::Leaf { id, content } => match content {
                ContentView::Terminal { surfaces, active_surface_id } => if surface_index(
                    surfaces,
                    sid,
                ) >= 0 {
                    (
                        NodeView::Leaf {
                            id,
                            content: ContentView::Terminal { surfaces, active_surface_id: sid },
                        },
                        Some((id, active_surface_id != sid)),
                    )
                } else {
                    (self, None)
                },
                ContentView::Editor { .. } => (self, None),
            },
            NodeView::Split { split_id, direction, first, second, ratio } => {
                let (f, r) = first.activate_spec(sid);
                if r is Some {
                    (NodeView::Split { split_id, direction, first: Box::new(f), second, ratio }, r)
                } else {
                    let (s, r2) = second.activate_spec(sid);
                    (NodeView::Split { split_id, direction, first, second: Box::new(s), ratio }, r2)
                }
            },
        }
    }

    /// Retitles surface `sid` in the leftmost terminal leaf holding it.
    pub open spec fn rename_spec(self, sid: SurfaceId, title: Option<String>) -> (NodeView, bool)
        decreases self,
    {
        match self {
            NodeView::Leaf { id, content } => match content {
                ContentView::Terminal { surfaces, active_surface_id } => {
                    let k = surface_index(surfaces, sid);
                    if k >= 0 {
                        (
                            NodeView::Leaf {
                                id,
                                content: ContentView::Terminal {
                                    surfaces: surfaces.update(k, surface_retitled(surfaces[k], title)),
                                    active_surface_id,
                                },
                            },
                            true,
                        )
                    } else {
                        (self, false)
                    }
                },
                ContentView::Editor { .. } => (self, false),
            },
            NodeView::Split { split_id, direction, first, second, ratio } => {
                let (f, r) = first.rename_spec(sid, title);
                if r {
                    (NodeView::Split { split_id, direction, first: Box::new(f), second, ratio }, true)
                } else {
                    let (s, r2) = second.rename_spec(sid, title);
                    (NodeView::Split { split_id, direction, first, second: Box::new(s), ratio }, r2)
                }
            },
        }
    }

    /// Removes surface `sid` from the leftmost terminal leaf that holds it
    /// and has another surface: the new tree, and the pane and terminal removed.
    pub open spec fn remove_surface_spec(self, sid: SurfaceId) -> (
        NodeView,
        Option<(PaneId, TerminalId)>,
    )
        decreases self,
    {
        match self {
            NodeView::Leaf { id, content } => match content {
                ContentView::Terminal { surfaces, active_surface_id } => {
                    let k = surface_index(surfaces, sid);
                    if surfaces.len() <= 1 || k < 0 {
                        (self, None)
                    } else {
                        let (rest, new_active) = surfaces_after_removal(
                            surfaces,
                            active_surface_id,
                            k,
                        );
                        (
                            NodeView::Leaf {
                                id,
                                content: ContentView::Terminal {
                                    surfaces: rest,
                                    active_surface_id: new_active,
                                },
                            },
                            Some((id, surfaces[k].terminal)),
                        )
                    }
                },
                ContentView::Editor { .. } => (self, None),
            },
            NodeView::Split { split_id, direction, first, second, ratio } => {
                let (f, r) = first.remove_surface_spec(sid);
                if r is Some {
                    (NodeView::Split { split_id, direction, first: Box::new(f), second, ratio }, r)
                } else {
                    let (s, r2) = second.remove_surface_spec(sid);
                    (NodeView::Split { split_id, direction, first, second: Box::new(s), ratio }, r2)
                }
            },
        }
    }

    /// Ratio and direction of the first split (pre-order) with the given id.
    pub open spec fn find_split_spec(self, sid: SplitId) -> Option<(u32, SplitDirection)>
        decreases self,
    {
        match self {
            NodeView::Leaf { .. } => None,
            NodeView::Split { split_id, direction, first, second, ratio } => if split_id == sid {
                Some((ratio, direction))
            } else {
                match first.find_split_spec(sid) {
                    Some(r) => Some(r),
                    None => second.find_split_spec(sid),
                }
            },
        }
    }

    /// The tree with the ratio of the first split (pre-order) `sid` replaced.
    pub open spec fn set_ratio_spec(self, sid: SplitId, new_ratio: u32) -> (NodeView, bool)
        decreases self,
    {
        match self {
            NodeView::Leaf { .. } => (self, false),
            NodeView::Split { split_id, direction, first, second, ratio } => if split_id == sid {
                (NodeView::Split { split_id, direction, first, second, ratio: new_ratio }, true)
            } else {
                let (f, r) = first.set_ratio_spec(sid, new_ratio);
                if r {
                    (NodeView::Split { split_id, direction, first: Box::new(f), second, ratio }, true)
                } else {
                    let (s, r2) = second.set_ratio_spec(sid, new_ratio);
                    (NodeView::Split { split_id, direction, first, second: Box::new(s), ratio }, r2)
                }
            },
        }
    }

    /// Whether moving `source` next to `target` would leave the tree as it is:
    /// some split in `direction` already holds exactly these two leaves in
    /// the order that `placement` asks for.
    pub open spec fn noop_move_spec(
        self,
        source: PaneId,
        target: PaneId,
        direction: SplitDirection,
        placement: SplitPlacement,
    ) -> bool
        decreases self,
    {
        match self {
            NodeView::Leaf { .. } => false,
            NodeView::Split { direction: d, first, second, .. } => {
                (d == direction && ((first.is_leaf_with(target) && second.is_leaf_with(source)
                    && placement == SplitPlacement::After) || (first.is_leaf_with(source)
                    && second.is_leaf_with(target) && placement == SplitPlacement::Before)))
                    || first.noop_move_spec(source, target, direction, placement)
                    || second.noop_move_spec(source, target, direction, placement)
            },
        }
    }

    /// Surface `sid` in the leftmost terminal leaf holding it: the pane,
    /// the surface, and whether it is the pane's only surface.
    pub open spec fn close_candidate_spec(self, sid: SurfaceId) -> Option<(PaneId, PaneSurface, bool)>
        decreases self,
    {
        match self {
            NodeView::Leaf { id, content } => match content {
                ContentView::Terminal { surfaces, .. } => {
                    let k = surface_index(surfaces, sid);
                    if k >= 0 {
                        Some((id, surfaces[k], surfaces.len() <= 1))
                    } else {
                        None
                    }
                },
                ContentView::Editor { .. } => None,
            },
            NodeView::Split { first, second, .. } => match first.close_candidate_spec(sid) {
                Some(c) => Some(c),
                None => second.close_candidate_spec(sid),
            },
        }
    }

    /// Leftmost leaf whose shown terminal is among `focused`.
    pub open spec fn focused_pane_spec(self, focused: Seq<TerminalId>) -> Option<PaneId>
        decreases self,
    {
        match self {
            NodeView::Leaf { id, content } => match content.shown_terminal() {
                Some(t) => if focused.contains(t) {
                    Some(id)
                } else {
                    None
                },
                None => None,
            },
            NodeView::Split { first, second, .. } => match first.focused_pane_spec(focused) {
                Some(p) => Some(p),
                None => second.focused_pane_spec(focused),
            },
        }
    }

    /// Leftmost editor view among `focused`.
    pub open spec fn focused_editor_spec(self, focused: Seq<EditorId>) -> Option<EditorId>
        decreases self,
    {
        match self {
            NodeView::Leaf { content, .. } => match content {
                ContentView::Editor { view } => if focused.contains(view) {
                    Some(view)
                } else {
                    None
                },
                ContentView::Terminal { .. } => None,
            },
            NodeView::Split { first, second, .. } => match first.focused_editor_spec(focused) {
                Some(v) => Some(v),
                None => second.focused_editor_spec(focused),
            },
        }
    }

    /// Renumbers the leaves `next, next + 1, ...` left to right: the new tree,
    /// and the new id of the leftmost leaf that had id `focus` (`usize::MAX`
    /// when there is none).
    pub open spec fn remap_spec(self, next: int, focus: PaneId) -> (NodeView, PaneId)
        decreases self,
    {
        match self {
            NodeView::Leaf { id, content } => (
                NodeView::Leaf { id: next as usize, content },
                if id == focus {
                    next as usize
                } else {
                    usize::MAX
                },
            ),
            NodeView::Split { split_id, direction, first, second, ratio } => {
                let (f, ff) = first.remap_spec(next, focus);
                let (s, sf) = second.remap_spec(next + first.leaf_ids().len(), focus);
                (
                    NodeView::Split {
                        split_id,
                        direction,
                        first: Box::new(f),
                        second: Box::new(s),
                        ratio,
                    },
                    if ff != usize::MAX {
                        ff
                    } else {
                        sf
                    },
                )
            },
        }
    }
}

pub fn clone_title(t: &Option<String>) -> (r: Option<String>)
    ensures
        r == *t,
{
    match t {
        Some(s) => Some(s.clone()),
        None => None,
    }
}

impl PaneNode {
    pub fn push_surface(self, pane_id: PaneId, surface: PaneSurface) -> (r: (PaneNode, bool))
        ensures
            r.0@ == self@.push_spec(pane_id, surface),
            r.1 == self@.active_surface_of(pane_id) is Some,
        decreases self,
    {
        match self {
            PaneNode::Leaf { id, content } => match content {
                PaneContent::Terminal { surfaces, active_surface_id } => {
                    if id == pane_id {
                        let mut surfaces = surfaces;
                        let sid = surface.id;
                        surfaces.push(surface);
                        (
                            PaneNode::Leaf {
                                id,
                                content: PaneContent::Terminal { surfaces, active_surface_id: sid },
                            },
                            true,
                        )
                    } else {
                        (
                            PaneNode::Leaf {
                                id,
                                content: PaneContent::Terminal { surfaces, active_surface_id },
                            },
                            false,
                        )
                    }
                },
                PaneContent::Editor { view } => (
                    PaneNode::Leaf { id, content: PaneContent::Editor { view } },
                    false,
                ),
            },
            PaneNode::Split { split_id, direction, first, second, ratio } => {
                if first.find_active_surface_id(pane_id).is_some() {
                    let (f, _) = (*first).push_surface(pane_id, surface);
                    (PaneNode::Split { split_id, direction, first: Box::new(f), second, ratio }, true)
                } else {
                    let (s, found) = (*second).push_surface(pane_id, surface);
                    (PaneNode::Split { split_id, direction, first, second: Box::new(s), ratio }, found)
                }
            },
        }
    }

    pub fn activate_surface(self, sid: SurfaceId) -> (r: (PaneNode, Option<(PaneId, bool)>))
        ensures
            (r.0@, r.1) == self@.activate_spec(sid),
            r.1 is None ==> r.0@ == self@,
        decreases self,
    {
        match self {
            PaneNode::Leaf { id, content } => match content {
                PaneContent::Terminal { surfaces, active_surface_id } => {
                    if find_surface_index(&surfaces, sid).is_some() {
                        let changed = active_surface_id != sid;
                        (
                            PaneNode::Leaf {
                                id,
                                content: PaneContent::Terminal { surfaces, active_surface_id: sid },
                            },
                            Some((id, changed)),
                        )
                    } else {
                        (
                            PaneNode::Leaf {
                                id,
                                content: PaneContent::Terminal { surfaces, active_surface_id },
                            },
                            None,
                        )
                    }
                },
                PaneContent::Editor { view } => (
                    PaneNode::Leaf { id, content: PaneContent::Editor { view } },
                    None,
                ),
            },
            PaneNode::Split { split_id, direction, first, second, ratio } => {
                let (f, r) = (*first).activate_surface(sid);
                if r.is_some() {
                    (PaneNode::Split { split_id, direction, first: Box::new(f), second, ratio }, r)
                } else {
                    let (s, r2) = (*second).activate_surface(sid);
                    (
                        PaneNode::Split {
                            split_id,
                            direction,
                            first: Box::new(f),
                            second: Box::new(s),
                            ratio,
                        },
                        r2,
                    )
                }
            },
        }
    }

    pub fn rename_surface_node(self, sid: SurfaceId, title: &Option<String>) -> (r: (PaneNode, bool))
        ensures
            (r.0@, r.1) == self@.rename_spec(sid, *title),
            !r.1 ==> r.0@ == self@,
        decreases self,
    {
        match self {
            PaneNode::Leaf { id, content } => match content {
                PaneContent::Terminal { surfaces, active_surface_id } => {
                    match find_surface_index(&surfaces, sid) {
                        Some(k) => {
                            let mut surfaces = surfaces;
                            let ghost before = surfaces@;
                            let old = surfaces.remove(k);
                            let renamed = PaneSurface {
                                id: old.id,
                                terminal: old.terminal,
                                title: clone_title(title),
                                owner: old.owner,
                                close_pane_when_last: old.close_pane_when_last,
                            };
                            surfaces.insert(k, renamed);
                            assert(surfaces@ =~= before.update(
                                k as int,
                                surface_retitled(before[k as int], *title),
                            ));
                            (
                                PaneNode::Leaf {
                                    id,
                                    content: PaneContent::Terminal { surfaces, active_surface_id },
                                },
                                true,
                            )
                        },
                        None => (
                            PaneNode::Leaf {
                                id,
                                content: PaneContent::Terminal { surfaces, active_surface_id },
                            },
                            false,
                        ),
                    }
                },
                PaneContent::Editor { view } => (
                    PaneNode::Leaf { id, content: PaneContent::Editor { view } },
                    false,
                ),
            },
            PaneNode::Split { split_id, direction, first, second, ratio } => {
                let (f, r) = (*first).rename_surface_node(sid, title);
                if r {
                    (PaneNode::Split { split_id, direction, first: Box::new(f), second, ratio }, true)
                } else {
                    let (s, r2) = (*second).rename_surface_node(sid, title);
                    (
                        PaneNode::Split {
                            split_id,
                            direction,
                            first: Box::new(f),
                            second: Box::new(s),
                            ratio,
                        },
                        r2,
                    )
                }
            },
        }
    }

    pub fn remove_surface(self, sid: SurfaceId) -> (r: (PaneNode, Option<(PaneId, TerminalId)>))
        ensures
            (r.0@, r.1) == self@.remove_surface_spec(sid),
            r.1 is None ==> r.0@ == self@,
        decreases self,
    {
        match self {
            PaneNode::Leaf { id, content } => match content {
                PaneContent::Terminal { surfaces, active_surface_id } => {
                    if surfaces.len() <= 1 {
                        return (
                            PaneNode::Leaf {
                                id,
                                content: PaneContent::Terminal { surfaces, active_surface_id },
                            },
                            None,
                        );
                    }
                    match find_surface_index(&surfaces, sid) {
                        Some(k) => {
                            let mut surfaces = surfaces;
                            let ghost before = surfaces@;
                            let removed = surfaces.remove(k);
                            let new_active = if active_surface_id == sid {
                                let j = if k >= 1 {
                                    k - 1
                                } else {
                                    0
                                };
                                surfaces[j].id
                            } else {
                                active_surface_id
                            };
                            proof {
                                lemma_surface_index_from_bounds(before, sid, 0);
                            }
                            (
                                PaneNode::Leaf {
                                    id,
                                    content: PaneContent::Terminal {
                                        surfaces,
                                        active_surface_id: new_active,
                                    },
                                },
                                Some((id, removed.terminal)),
                            )
                        },
                        None => (
                            PaneNode::Leaf {
                                id,
                                content: PaneContent::Terminal { surfaces, active_surface_id },
                            },
                            None,
                        ),
                    }
                },
                PaneContent::Editor { view } => (
                    PaneNode::Leaf { id, content: PaneContent::Editor { view } },
                    None,
                ),
            },
            PaneNode::Split { split_id, direction, first, second, ratio } => {
                let (f, r) = (*first).remove_surface(sid);
                if r.is_some() {
                    (PaneNode::Split { split_id, direction, first: Box::new(f), second, ratio }, r)
                } else {
                    let (s, r2) = (*second).remove_surface(sid);
                    (
                        PaneNode::Split {
                            split_id,
                            direction,
                            first: Box::new(f),
                            second: Box::new(s),
                            ratio,
                        },
                        r2,
                    )
                }
            },
        }
    }

    pub fn find_split_ratio(&self, sid: SplitId) -> (r: Option<(u32, SplitDirection)>)
        ensures
            r == self@.find_split_spec(sid),
        decreases self,
    {
        match self {
            PaneNode::Leaf { .. } => None,
            PaneNode::Split { split_id, direction, first, second, ratio } => {
                if *split_id == sid {
                    Some((*ratio, *direction))
                } else {
                    match first.find_split_ratio(sid) {
                        Some(r) => Some(r),
                        None => second.find_split_ratio(sid),
                    }
                }
            },
        }
    }

    pub fn set_split_ratio(self, sid: SplitId, new_ratio: u32) -> (r: (PaneNode, bool))
        ensures
            (r.0@, r.1) == self@.set_ratio_spec(sid, new_ratio),
            !r.1 ==> r.0@ == self@,
        decreases self,
    {
        match self {
            PaneNode::Leaf { id, content } => (PaneNode::Leaf { id, content }, false),
            PaneNode::Split { split_id, direction, first, second, ratio } => {
                if split_id == sid {
                    (PaneNode::Split { split_id, direction, first, second, ratio: new_ratio }, true)
                } else {
                    let (f, r) = (*first).set_split_ratio(sid, new_ratio);
                    if r {
                        (PaneNode::Split { split_id, direction, first: Box::new(f), second, ratio }, true)
                    } else {
                        let (s, r2) = (*second).set_split_ratio(sid, new_ratio);
                        (
                            PaneNode::Split {
                                split_id,
                                direction,
                                first: Box::new(f),
                                second: Box::new(s),
                                ratio,
                            },
                            r2,
                        )
                    }
                }
            },
        }
    }

    pub fn is_direct_sibling_noop_move(
        &self,
        source: PaneId,
        target: PaneId,
        direction: SplitDirection,
        placement: SplitPlacement,
    ) -> (r: bool)
        ensures
            r == self@.noop_move_spec(source, target, direction, placement),
        decreases self,
    {
        match self {
            PaneNode::Leaf { .. } => false,
            PaneNode::Split { direction: d, first, second, .. } => {
                if *d == direction {
                    if first.is_leaf(target) && second.is_leaf(source) && placement
                        == SplitPlacement::After {
                        return true;
                    }
                    if first.is_leaf(source) && second.is_leaf(target) && placement
                        == SplitPlacement::Before {
                        return true;
                    }
                }
                first.is_direct_sibling_noop_move(source, target, direction, placement)
                    || second.is_direct_sibling_noop_move(source, target, direction, placement)
            },
        }
    }

    pub fn surface_close_candidate(&self, sid: SurfaceId) -> (r: Option<SurfaceCloseCandidate>)
        ensures
            match self@.close_candidate_spec(sid) {
                Some((p, s, last)) => r matches Some(c) && c.pane_id == p && c.terminal == s.terminal
                    && c.is_last_surface == last && c.owner == s.owner && c.close_pane_when_last
                    == s.close_pane_when_last,
                None => r is None,
            },
        decreases self,
    {
        match self {
            PaneNode::Leaf { id, content } => match content {
                PaneContent::Terminal { surfaces, .. } => match find_surface_index(surfaces, sid) {
                    Some(k) => Some(
                        SurfaceCloseCandidate {
                            pane_id: *id,
                            terminal: surfaces[k].terminal,
                            is_last_surface: surfaces.len() <= 1,
                            owner: clone_title(&surfaces[k].owner),
                            close_pane_when_last: surfaces[k].close_pane_when_last,
                        },
                    ),
                    None => None,
                },
                PaneContent::Editor { .. } => None,
            },
            PaneNode::Split { first, second, .. } => match first.surface_close_candidate(sid) {
                Some(c) => Some(c),
                None => second.surface_close_candidate(sid),
            },
        }
    }

    pub fn find_focused_pane(&self, focused: &Vec<TerminalId>) -> (r: Option<PaneId>)
        ensures
            r == self@.focused_pane_spec(focused@),
        decreases self,
    {
        match self {
            PaneNode::Leaf { id, content } => match content.shown_terminal_exec() {
                Some(t) => if vec_contains_u64(focused, t) {
                    Some(*id)
                } else {
                    None
                },
                None => None,
            },
            PaneNode::Split { first, second, .. } => match first.find_focused_pane(focused) {
                Some(p) => Some(p),
                None => second.find_focused_pane(focused),
            },
        }
    }

    pub fn focused_editor_view(&self, focused: &Vec<EditorId>) -> (r: Option<EditorId>)
        ensures
            r == self@.focused_editor_spec(focused@),
        decreases self,
    {
        match self {
            PaneNode::Leaf { content, .. } => match content {
                PaneContent::Editor { view } => if vec_contains_u64(focused, *view) {
                    Some(*view)
                } else {
                    None
                },
                PaneContent::Terminal { .. } => None,
            },
            PaneNode::Split { first, second, .. } => match first.focused_editor_view(focused) {
                Some(v) => Some(v),
                None => second.focused_editor_view(focused),
            },
        }
    }

    pub fn remap_leaf_ids(self, next: PaneId, focus: PaneId) -> (r: (PaneNode, PaneId, PaneId))
        requires
            next + self@.leaf_ids().len() <= usize::MAX,
        ensures
            (r.0@, r.2) == self@.remap_spec(next as int, focus),
            r.1 == next + self@.leaf_ids().len(),
        decreases self,
    {
        match self {
            PaneNode::Leaf { id, content } => {
                let found = if id == focus {
                    next
                } else {
                    usize::MAX
                };
                (PaneNode::Leaf { id: next, content }, next + 1, found)
            },
            PaneNode::Split { split_id, direction, first, second, ratio } => {
                let (f, n1, ff) = (*first).remap_leaf_ids(next, focus);
                let (s, n2, sf) = (*second).remap_leaf_ids(n1, focus);
                let found = if ff != usize::MAX {
                    ff
                } else {
                    sf
                };
                (
                    PaneNode::Split {
                        split_id,
                        direction,
                        first: Box::new(f),
                        second: Box::new(s),
                        ratio,
                    },
                    n2,
                    found,
                )
            },
        }
    }
}

/// Whether `v` holds `x`.
pub fn vec_contains_u64(v: &Vec<u64>, x: u64) -> (r: bool)
    ensures
        r == v@.contains(x),
{
    let mut i: usize = 0;
    while i < v.len()
        invariant
            i <= v@.len(),
            forall|j: int| 0 <= j < i ==> v@[j] != x,
        decreases v@.len() - i,
    {
        if v[i] == x {
            return true;
        }
        i = i + 1;
    }
    false
}


/// One terminal surface as listed to callers.
pub struct PaneSurfaceInfo {
    pub pane_id: PaneId,
    pub pane_index: usize,
    pub surface_id: SurfaceId,
    pub surface_index: usize,
    pub is_active: bool,
    pub is_focused_pane: bool,
    pub title: Option<String>,
    pub owner: Option<String>,
    pub close_pane_when_last: bool,
    pub terminal: TerminalId,
}

pub open spec fn surface_info_of(
    pane_id: PaneId,
    pane_index: usize,
    k: int,
    s: PaneSurface,
    active: SurfaceId,
    focused: PaneId,
) -> PaneSurfaceInfo {
    PaneSurfaceInfo {
        pane_id,
        pane_index,
        surface_id: s.id,
        surface_index: (k + 1) as usize,
        is_active: s.id == active,
        is_focused_pane: pane_id == focused,
        title: s.title,
        owner: s.owner,
        close_pane_when_last: s.close_pane_when_last,
        terminal: s.terminal,
    }
}

pub open spec fn bump_index(i: int) -> int {
    if i < usize::MAX {
        i + 1
    } else {
        usize::MAX as int
    }
}

impl NodeView {
    /// Surface listing, terminal pane by terminal pane: every surface of
    /// the panes that `target` selects (all panes when `None`), each with
    /// the 1-based position of its pane among terminal panes (counted from
    /// `index`) and its own 1-based position in the pane. Returns the
    /// listing and the position count after this subtree.
    pub open spec fn surface_infos_spec(
        self,
        target: Option<PaneId>,
        focused: PaneId,
        index: int,
    ) -> (Seq<PaneSurfaceInfo>, int)
        decreases self,
    {
        match self {
            NodeView::Leaf { id, content } => match content {
                ContentView::Terminal { surfaces, active_surface_id } => {
                    let idx = bump_index(index);
                    if target is Some && target->0 != id {
                        (Seq::empty(), idx)
                    } else {
                        (
                            Seq::new(
                                surfaces.len(),
                                |k: int|
                                    surface_info_of(
                                        id,
                                        idx as usize,
                                        k,
                                        surfaces[k],
                                        active_surface_id,
                                        focused,
                                    ),
                            ),
                            idx,
                        )
                    }
                },
                ContentView::Editor { .. } => (Seq::empty(), index),
            },
            NodeView::Split { first, second, .. } => {
                let (a, i1) = first.surface_infos_spec(target, focused, index);
                let (b, i2) = second.surface_infos_spec(target, focused, i1);
                (a + b, i2)
            },
        }
    }
}

impl PaneNode {
    pub fn collect_surface_infos(
        &self,
        target: Option<PaneId>,
        focused: PaneId,
        pane_index: &mut usize,
        out: &mut Vec<PaneSurfaceInfo>,
    )
        ensures
            final(out)@ == old(out)@ + self@.surface_infos_spec(target, focused, *old(pane_index) as int).0,
            *final(pane_index) as int == self@.surface_infos_spec(target, focused, *old(pane_index) as int).1,
        decreases self,
    {
        match self {
            PaneNode::Leaf { id, content } => match content {
                PaneContent::Terminal { surfaces, active_surface_id } => {
                    *pane_index = pane_index.saturating_add(1);
                    match target {
                        Some(t) => {
                            if t != *id {
                                assert(old(out)@ + Seq::<PaneSurfaceInfo>::empty() =~= old(out)@);
                                return;
                            }
                        },
                        None => {},
                    }
                    let idx = *pane_index;
                    let ghost start = out@;
                    let ghost infos = Seq::new(
                        surfaces@.len(),
                        |k: int|
                            surface_info_of(*id, idx, k, surfaces@[k], *active_surface_id, focused),
                    );
                    let mut i: usize = 0;
                    while i < surfaces.len()
                        invariant
                            i <= surfaces@.len(),
                            infos == Seq::new(
                                surfaces@.len(),
                                |k: int|
                                    surface_info_of(*id, idx, k, surfaces@[k], *active_surface_id, focused),
                            ),
                            out@ == start + infos.take(i as int),
                        decreases surfaces@.len() - i,
                    {
                        let s = &surfaces[i];
                        let info = PaneSurfaceInfo {
                            pane_id: *id,
                            pane_index: idx,
                            surface_id: s.id,
                            surface_index: i + 1,
                            is_active: s.id == *active_surface_id,
                            is_focused_pane: *id == focused,
                            title: clone_title(&s.title),
                            owner: clone_title(&s.owner),
                            close_pane_when_last: s.close_pane_when_last,
                            terminal: s.terminal,
                        };
                        out.push(info);
                        assert(infos.take(i + 1) =~= infos.take(i as int).push(infos[i as int]));
                        i = i + 1;
                    }
                    assert(infos.take(i as int) =~= infos);
                },
                PaneContent::Editor { .. } => {
                    assert(old(out)@ + Seq::<PaneSurfaceInfo>::empty() =~= old(out)@);
                },
            },
            PaneNode::Split { first, second, .. } => {
                first.collect_surface_infos(target, focused, pane_index, out);
                second.collect_surface_infos(target, focused, pane_index, out);
                let ghost a = first@.surface_infos_spec(target, focused, *old(pane_index) as int);
                let ghost b = second@.surface_infos_spec(target, focused, a.1);
                assert(old(out)@ + (a.0 + b.0) =~= old(out)@ + a.0 + b.0);
            },
        }
    }
}

} // verus!
