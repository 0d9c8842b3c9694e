use vstd::prelude::*;
use crate::pane_node::{
    lemma_extract_absent, EditorId, NodeView, ContentView, PaneContent, PaneId, PaneNode, PaneSurface, PaneSurfaceInfo,
    SplitDirection, SplitId, SplitPlacement, SurfaceId, TerminalId,
};
use crate::node_lemmas::{disjoint, lemma_remove_shape, lemma_extract_keeps_others, lemma_extract_shape, lemma_extract_split_count, lemma_split_split_count, lemma_distinct_below, lemma_normalize_shape, lemma_max_leaf, lemma_max_surface, lemma_first_leaf_in, lemma_has_leaf_unfold, lemma_split_shape, lemma_content_updates_keep_shape, lemma_surface_ids_shape, lemma_surface_ids_content_updates};

verus! {

broadcast use vstd::seq_lib::lemma_seq_concat_contains_all_elements;

/// How a new surface is labelled and owned.
pub struct SurfaceCreateOptions {
    pub title: Option<String>,
    pub owner: Option<String>,
    pub close_pane_when_last: bool,
}

impl SurfaceCreateOptions {
    /// Options with only a title.
    pub fn plain(title: Option<String>) -> (r: Self)
        ensures
            r.title == title,
            r.owner is None,
            !r.close_pane_when_last,
    {
        SurfaceCreateOptions { title, owner: None, close_pane_when_last: false }
    }
}

/// What closing a surface did.
pub struct SurfaceCloseOutcome {
    pub pane_id: PaneId,
    pub terminal: TerminalId,
    pub closed_pane: bool,
}

/// An active divider drag: the split, and the ratio and cursor position
/// (both as `f32` bit patterns) at the moment the drag began.
pub struct DragState {
    pub split_id: SplitId,
    pub start_ratio: u32,
    pub start_pos: u32,
}

/// The split-pane tree of one tab.
pub struct PaneTree {
    root: PaneNode,
    focused_pane_id: PaneId,
    zoomed_pane_id: Option<PaneId>,
    next_id: PaneId,
    next_surface_id: SurfaceId,
    next_split_id: SplitId,
    /// Active divider drag, if any.
    pub dragging: Option<DragState>,
}

/// Split ids are distinct and below their counter; every pane and
/// surface id is below its counter unless that counter is saturated.
pub open spec fn counters_ok(root: NodeView, np: PaneId, ns: SurfaceId, nsp: SplitId) -> bool {
    &&& (np == usize::MAX || forall|x: PaneId| #![trigger root.has_leaf(x)] root.has_leaf(x) ==> x < np)
    &&& root.split_ids().no_duplicates()
    &&& forall|x: SplitId| #![trigger root.split_ids().contains(x)] root.split_ids().contains(x) ==> x < nsp
    &&& (ns == usize::MAX || forall|x: SurfaceId|
        #![trigger root.surface_ids().contains(x)]
        root.surface_ids().contains(x) ==> x < ns)
}

pub proof fn lemma_counters_sub(root: NodeView, root2: NodeView, np: PaneId, ns: SurfaceId, nsp: SplitId)
    requires
        counters_ok(root, np, ns, nsp),
        forall|x: PaneId| #![trigger root2.has_leaf(x)] root2.has_leaf(x) ==> root.has_leaf(x),
        forall|x: SplitId|
            #![trigger root2.split_ids().contains(x)]
            root2.split_ids().contains(x) ==> root.split_ids().contains(x),
        root2.split_ids().no_duplicates(),
        forall|x: SurfaceId|
            #![trigger root2.surface_ids().contains(x)]
            root2.surface_ids().contains(x) ==> root.surface_ids().contains(x),
    ensures
        counters_ok(root2, np, ns, nsp),
{
}

pub proof fn lemma_counters_split(
    root: NodeView,
    t: PaneId,
    new_leaf: NodeView,
    d: SplitDirection,
    p: SplitPlacement,
    np: PaneId,
    ns: SurfaceId,
    nsp: SplitId,
    np2: PaneId,
    ns2: SurfaceId,
)
    requires
        counters_ok(root, np, ns, nsp),
        nsp < usize::MAX,
        np <= np2,
        ns <= ns2,
        forall|x: PaneId| #![trigger new_leaf.has_leaf(x)] new_leaf.has_leaf(x) ==> x < np2,
        forall|x: SurfaceId|
            #![trigger new_leaf.surface_ids().contains(x)]
            new_leaf.surface_ids().contains(x) ==> x < ns2,
        new_leaf.split_ids().len() == 0,
    ensures
        counters_ok(root.split_spec(t, new_leaf, d, p, nsp), np2, ns2, (nsp + 1) as usize),
{
    let r = root.split_spec(t, new_leaf, d, p, nsp);
    lemma_split_shape(root, t, new_leaf, d, p, nsp);
    assert(new_leaf.split_ids() =~= Seq::<SplitId>::empty());
    assert(!root.split_ids().contains(nsp));
    assert forall|x: SurfaceId| #![trigger r.surface_ids().contains(x)] r.surface_ids().contains(x) && ns2 != usize::MAX implies x < ns2 by {
        lemma_surface_ids_shape(root, t, new_leaf, d, p, nsp, x);
    }
    assert forall|x: SplitId| #![trigger r.split_ids().contains(x)] r.split_ids().contains(x) implies x < nsp + 1 by {
        if new_leaf.split_ids().contains(x) {
            let k = choose|k: int| 0 <= k < new_leaf.split_ids().len() && new_leaf.split_ids()[k] == x;
        }
    }
}

pub open spec fn surface_from(id: SurfaceId, terminal: TerminalId, options: SurfaceCreateOptions) -> PaneSurface {
    PaneSurface {
        id,
        terminal,
        title: options.title,
        owner: options.owner,
        close_pane_when_last: options.close_pane_when_last,
    }
}

pub open spec fn terminal_leaf(id: PaneId, surface: PaneSurface) -> NodeView {
    NodeView::Leaf {
        id,
        content: ContentView::Terminal { surfaces: seq![surface], active_surface_id: surface.id },
    }
}

pub open spec fn editor_leaf(id: PaneId, view: EditorId) -> NodeView {
    NodeView::Leaf { id, content: ContentView::Editor { view } }
}

impl PaneTree {
    pub closed spec fn root_view(&self) -> NodeView {
        self.root@
    }

    pub closed spec fn focused(&self) -> PaneId {
        self.focused_pane_id
    }

    pub closed spec fn zoomed(&self) -> Option<PaneId> {
        self.zoomed_pane_id
    }

    pub closed spec fn drag(&self) -> Option<DragState> {
        self.dragging
    }

    pub closed spec fn next_pane(&self) -> PaneId {
        self.next_id
    }

    pub closed spec fn next_surface(&self) -> SurfaceId {
        self.next_surface_id
    }

    pub closed spec fn next_split(&self) -> SplitId {
        self.next_split_id
    }

    /// The tree's invariant: the focused and zoomed panes exist, and the
    /// id counters are above every id in use (unless they are saturated).
    pub open spec fn wf(&self) -> bool {
        &&& self.root_view().has_leaf(self.focused())
        &&& (self.zoomed() matches Some(z) ==> self.root_view().has_leaf(z))
        &&& counters_ok(self.root_view(), self.next_pane(), self.next_surface(), self.next_split())
    }

    /// No id counter is exhausted, so a new pane, surface and split can be numbered.
    pub open spec fn can_allocate(&self) -> bool {
        &&& self.next_pane() < usize::MAX
        &&& self.next_surface() < usize::MAX
        &&& self.next_split() < usize::MAX
    }

    /// A tree from restored parts: nothing zoomed, no drag.
    pub(crate) fn assemble(
        root: PaneNode,
        focused: PaneId,
        next_id: PaneId,
        next_surface_id: SurfaceId,
        next_split_id: SplitId,
    ) -> (r: Self)
        requires
            root@.has_leaf(focused),
            counters_ok(root@, next_id, next_surface_id, next_split_id),
        ensures
            r.wf(),
            r.root_view() == root@,
            r.focused() == focused,
            r.zoomed() is None,
            r.next_pane() == next_id,
            r.next_surface() == next_surface_id,
            r.next_split() == next_split_id,
            r.drag() is None,
    {
        PaneTree {
            root,
            focused_pane_id: focused,
            zoomed_pane_id: None,
            next_id,
            next_surface_id,
            next_split_id,
            dragging: None,
        }
    }

    /// Whether a new pane, surface and split can still be numbered.
    pub fn has_free_ids(&self) -> (r: bool)
        ensures
            r == self.can_allocate(),
    {
        self.next_id < usize::MAX && self.next_surface_id < usize::MAX && self.next_split_id
            < usize::MAX
    }

    /// The root node, for walking the layout.
    pub fn root(&self) -> (r: &PaneNode)
        ensures
            r@ == self.root_view(),
    {
        &self.root
    }

    pub fn new(terminal: TerminalId) -> (r: Self)
        ensures
            r.wf(),
            r.root_view() == terminal_leaf(0, surface_from(0, terminal, SurfaceCreateOptions { title: None, owner: None, close_pane_when_last: false })),
            r.focused() == 0,
            r.zoomed() is None,
            r.next_pane() == 1 && r.next_surface() == 1 && r.next_split() == 0,
            r.drag() is None,
    {
        Self::new_with_surface_options(terminal, SurfaceCreateOptions::plain(None))
    }

    pub fn new_with_surface_options(terminal: TerminalId, options: SurfaceCreateOptions) -> (r: Self)
        ensures
            r.wf(),
            r.root_view() == terminal_leaf(0, surface_from(0, terminal, options)),
            r.focused() == 0,
            r.zoomed() is None,
            r.next_pane() == 1 && r.next_surface() == 1 && r.next_split() == 0,
            r.drag() is None,
    {
        let surface = PaneSurface {
            id: 0,
            terminal,
            title: options.title,
            owner: options.owner,
            close_pane_when_last: options.close_pane_when_last,
        };
        let mut surfaces = Vec::new();
        surfaces.push(surface);
        let r = PaneTree {
            root: PaneNode::Leaf {
                id: 0,
                content: PaneContent::Terminal { surfaces, active_surface_id: 0 },
            },
            focused_pane_id: 0,
            zoomed_pane_id: None,
            next_id: 1,
            next_surface_id: 1,
            next_split_id: 0,
            dragging: None,
        };
        proof {
            assert(r.root@.leaf_ids() =~= seq![0usize]);
            assert(r.root@.leaf_ids()[0] == 0);
            assert(r.root@.split_ids() =~= Seq::<usize>::empty());
            assert(r.root@.surface_ids() =~= seq![0usize]);
            assert forall|x: PaneId| r.root_view().has_leaf(x) implies x < 1 by {
                lemma_has_leaf_unfold(r.root@, x);
            }
            assert forall|x: SurfaceId| r.root_view().surface_ids().contains(x) implies x < 1 by {
                let k = choose|k: int| 0 <= k < 1 && r.root_view().surface_ids()[k] == x;
            }
            assert(r.root_view() == terminal_leaf(0, surface_from(0, terminal, options)));
        }
        r
    }

    /// A tree with a single editor pane.
    pub fn new_editor(view: EditorId) -> (r: Self)
        ensures
            r.wf(),
            r.root_view() == editor_leaf(0, view),
            r.focused() == 0,
            r.zoomed() is None,
            r.next_pane() == 1 && r.next_surface() == 1 && r.next_split() == 0,
            r.drag() is None,
    {
        let r = PaneTree {
            root: PaneNode::Leaf { id: 0, content: PaneContent::Editor { view } },
            focused_pane_id: 0,
            zoomed_pane_id: None,
            next_id: 1,
            next_surface_id: 1,
            next_split_id: 0,
            dragging: None,
        };
        proof {
            assert(r.root@.leaf_ids() =~= seq![0usize]);
            assert(r.root@.leaf_ids()[0] == 0);
            assert(r.root@.split_ids() =~= Seq::<usize>::empty());
            assert(r.root@.surface_ids() =~= Seq::<usize>::empty());
            assert forall|x: PaneId| r.root_view().has_leaf(x) implies x < 1 by {
                lemma_has_leaf_unfold(r.root@, x);
            }
        }
        r
    }
}


impl PaneTree {
    /// The focused pane's terminal, else the first terminal in the tree.
    pub fn focused_terminal(&self) -> (r: TerminalId)
        requires
            self.root_view().terminal_of(self.focused()) is Some || self.root_view().first_terminal() is Some,
        ensures
            r == match self.root_view().terminal_of(self.focused()) {
                Some(t) => t,
                None => (self.root_view().first_terminal()->0).1,
            },
    {
        match self.root.find_terminal(self.focused_pane_id) {
            Some(t) => t,
            None => match self.root.try_first_terminal_with_id() {
                Some((_, t)) => t,
                None => {
                    proof {
                        assert(false);
                    }
                    0
                },
            },
        }
    }

    /// Like `focused_terminal`, but `None` when the tree shows no terminal.
    pub fn try_focused_terminal(&self) -> (r: Option<TerminalId>)
        ensures
            r == match self.root_view().terminal_of(self.focused()) {
                Some(t) => Some(t),
                None => match self.root_view().first_terminal() {
                    Some(p) => Some(p.1),
                    None => None,
                },
            },
    {
        match self.focused_pane_terminal() {
            Some(t) => Some(t),
            None => match self.root.try_first_terminal_with_id() {
                Some((_, t)) => Some(t),
                None => None,
            },
        }
    }

    /// The terminal shown by the focused pane, if it shows one.
    pub fn focused_pane_terminal(&self) -> (r: Option<TerminalId>)
        ensures
            r == self.root_view().terminal_of(self.focused()),
    {
        self.root.find_terminal(self.focused_pane_id)
    }

    /// The shown terminal of every terminal pane, left to right.
    pub fn all_terminals(&self) -> (r: Vec<TerminalId>)
        ensures
            r@ == self.root_view().shown_terminals(),
    {
        let mut result = Vec::new();
        self.root.collect_terminals(&mut result);
        assert(result@ =~= self.root_view().shown_terminals());
        result
    }

    /// Every terminal surface in the tree, including inactive pane-local tabs.
    pub fn all_surface_terminals(&self) -> (r: Vec<TerminalId>)
        ensures
            r@ == self.root_view().all_surface_terminals(),
    {
        let mut result = Vec::new();
        self.root.collect_all_surface_terminals(&mut result);
        assert(result@ =~= self.root_view().all_surface_terminals());
        result
    }

    /// The leftmost editor pane, if one exists.
    pub fn find_editor_pane(&self) -> (r: Option<PaneId>)
        ensures
            r == self.root_view().first_editor(),
    {
        self.root.find_editor_pane_node()
    }

    pub fn editor_view_for_pane(&self, pane_id: PaneId) -> (r: Option<EditorId>)
        ensures
            r == self.root_view().editor_of(pane_id),
    {
        self.root.editor_view_for_pane_node(pane_id)
    }

    pub fn pane_id_for_editor_view(&self, view: EditorId) -> (r: Option<PaneId>)
        ensures
            r == self.root_view().pane_of_editor(view),
    {
        self.root.find_editor_pane_id_by_view(view)
    }

    pub fn editor_views(&self) -> (r: Vec<EditorId>)
        ensures
            r@ == self.root_view().editor_views(),
    {
        let mut views = Vec::new();
        self.root.collect_editor_views(&mut views);
        assert(views@ =~= self.root_view().editor_views());
        views
    }

    /// Pane id and shown terminal of every terminal pane.
    pub fn pane_terminals(&self) -> (r: Vec<(PaneId, TerminalId)>)
        ensures
            r@ == self.root_view().pane_terminals(),
    {
        let mut result = Vec::new();
        self.root.collect_pane_terminals(&mut result);
        assert(result@ =~= self.root_view().pane_terminals());
        result
    }

    /// Every surface: its pane, whether it is active there, its terminal.
    pub fn surface_terminals(&self) -> (r: Vec<(PaneId, bool, TerminalId)>)
        ensures
            r@ == self.root_view().surface_entries(),
    {
        let mut result = Vec::new();
        self.root.collect_surface_terminals(&mut result);
        assert(result@ =~= self.root_view().surface_entries());
        result
    }

    /// Surface listing for one pane (`Some`) or for all panes (`None`).
    pub fn surface_infos(&self, target_pane_id: Option<PaneId>) -> (r: Vec<PaneSurfaceInfo>)
        ensures
            r@ == self.root_view().surface_infos_spec(target_pane_id, self.focused(), 0).0,
    {
        let mut result = Vec::new();
        let mut pane_index: usize = 0;
        self.root.collect_surface_infos(target_pane_id, self.focused_pane_id, &mut pane_index, &mut result);
        assert(result@ =~= self.root_view().surface_infos_spec(target_pane_id, self.focused(), 0).0);
        result
    }

    pub fn active_surface_id_for_pane(&self, pane_id: PaneId) -> (r: Option<SurfaceId>)
        ensures
            r == self.root_view().active_surface_of(pane_id),
    {
        self.root.find_active_surface_id(pane_id)
    }

    /// The editor pane whose view holds focus, given the views that report focus.
    pub fn active_editor_pane_id(&self, focused_views: &Vec<EditorId>) -> (r: Option<PaneId>)
        ensures
            r == match self.root_view().focused_editor_spec(focused_views@) {
                Some(v) => self.root_view().pane_of_editor(v),
                None => None,
            },
    {
        match self.root.focused_editor_view(focused_views) {
            Some(v) => self.root.find_editor_pane_id_by_view(v),
            None => None,
        }
    }

    pub fn focused_pane_id(&self) -> (r: PaneId)
        ensures
            r == self.focused(),
    {
        self.focused_pane_id
    }

    /// Entity of the focused pane's terminal, if that pane shows one.
    pub fn focused_terminal_entity_id(&self) -> (r: Option<TerminalId>)
        ensures
            r == self.root_view().terminal_of(self.focused()),
    {
        self.focused_pane_terminal()
    }

    /// The pane one of whose surfaces hosts terminal `t`.
    pub fn pane_id_for_entity(&self, t: TerminalId) -> (r: Option<PaneId>)
        ensures
            r == self.root_view().pane_of_terminal(t),
    {
        self.root.find_pane_id_by_terminal(t)
    }

    /// The pane hosting the given terminal.
    pub fn pane_id_for_terminal(&self, t: TerminalId) -> (r: Option<PaneId>)
        ensures
            r == self.root_view().pane_of_terminal(t),
    {
        self.pane_id_for_entity(t)
    }

    /// Whether terminal `t` belongs to pane `pane_id`.
    pub fn terminal_has_pane_id(&self, t: TerminalId, pane_id: PaneId) -> (r: bool)
        ensures
            r == self.root_view().pane_hosts(t, pane_id),
    {
        self.root.check_terminal_pane_id(t, pane_id)
    }

    /// Number of panes (saturating at `usize::MAX`).
    pub fn pane_count(&self) -> (r: usize)
        ensures
            r as int == if self.root_view().leaf_ids().len() < usize::MAX {
                self.root_view().leaf_ids().len() as int
            } else {
                usize::MAX as int
            },
    {
        self.root.count_leaves()
    }

    pub fn zoomed_pane_id(&self) -> (r: Option<PaneId>)
        ensures
            r == self.zoomed(),
    {
        self.zoomed_pane_id
    }

    pub fn first_pane_id_pub(&self) -> (r: PaneId)
        ensures
            r == self.root_view().first_leaf(),
    {
        self.root.first_pane_id()
    }

    pub fn contains_pane(&self, pane_id: PaneId) -> (r: bool)
        ensures
            r == self.root_view().has_leaf(pane_id),
    {
        self.root.contains_leaf(pane_id)
    }

    /// Whether moving `source` next to `target` would change nothing.
    pub fn is_noop_pane_move(
        &self,
        source_pane_id: PaneId,
        target_pane_id: PaneId,
        direction: SplitDirection,
        placement: SplitPlacement,
    ) -> (r: bool)
        ensures
            r == (source_pane_id != target_pane_id && self.root_view().noop_move_spec(
                source_pane_id,
                target_pane_id,
                direction,
                placement,
            )),
    {
        source_pane_id != target_pane_id && self.root.is_direct_sibling_noop_move(
            source_pane_id,
            target_pane_id,
            direction,
            placement,
        )
    }

    /// The pane to give app focus when returning from other UI: the zoomed
    /// pane if it shows a terminal, else the focused one, else the first.
    pub fn try_visible_focus_terminal(&self) -> (r: Option<(PaneId, TerminalId)>)
        ensures
            r == match self.zoomed() {
                Some(z) if self.root_view().terminal_of(z) is Some => Some((z, self.root_view().terminal_of(z)->0)),
                _ => match self.root_view().terminal_of(self.focused()) {
                    Some(t) => Some((self.focused(), t)),
                    None => self.root_view().first_terminal(),
                },
            },
    {
        match self.zoomed_pane_id {
            Some(z) => match self.root.find_terminal(z) {
                Some(t) => {
                    return Some((z, t));
                },
                None => {},
            },
            None => {},
        }
        match self.root.find_terminal(self.focused_pane_id) {
            Some(t) => Some((self.focused_pane_id, t)),
            None => self.root.try_first_terminal_with_id(),
        }
    }

    /// Direction of split `split_id`, if it exists.
    pub fn split_direction(&self, split_id: SplitId) -> (r: Option<SplitDirection>)
        ensures
            r == match self.root_view().find_split_spec(split_id) {
                Some(p) => Some(p.1),
                None => None,
            },
    {
        match self.root.find_split_ratio(split_id) {
            Some((_, d)) => Some(d),
            None => None,
        }
    }

    /// Ratio (as `f32` bits) of split `split_id`, if it exists.
    pub fn split_ratio(&self, split_id: SplitId) -> (r: Option<u32>)
        ensures
            r == match self.root_view().find_split_spec(split_id) {
                Some(p) => Some(p.0),
                None => None,
            },
    {
        match self.root.find_split_ratio(split_id) {
            Some((ratio, _)) => Some(ratio),
            None => None,
        }
    }

    pub fn is_dragging(&self) -> (r: bool)
        ensures
            r == self.drag() is Some,
    {
        self.dragging.is_some()
    }

    pub fn dragging_split_id(&self) -> (r: Option<SplitId>)
        ensures
            r == match self.drag() {
                Some(d) => Some(d.split_id),
                None => None,
            },
    {
        match &self.dragging {
            Some(d) => Some(d.split_id),
            None => None,
        }
    }

    /// Direction of the split being dragged, if any.
    pub fn dragging_direction(&self) -> (r: Option<SplitDirection>)
        ensures
            r == match self.drag() {
                Some(d) => match self.root_view().find_split_spec(d.split_id) {
                    Some(p) => Some(p.1),
                    None => None,
                },
                None => None,
            },
    {
        match &self.dragging {
            Some(d) => self.split_direction(d.split_id),
            None => None,
        }
    }
}


pub open spec fn placeholder_view() -> NodeView {
    NodeView::Leaf {
        id: usize::MAX,
        content: ContentView::Terminal { surfaces: Seq::empty(), active_surface_id: 0 },
    }
}

pub open spec fn plain_options() -> SurfaceCreateOptions {
    SurfaceCreateOptions { title: None, owner: None, close_pane_when_last: false }
}

/// The tree after splitting pane `target` with a new terminal pane.
pub open spec fn split_result(
    old: NodeView,
    target: PaneId,
    direction: SplitDirection,
    placement: SplitPlacement,
    new_id: PaneId,
    new_surface_id: SurfaceId,
    terminal: TerminalId,
    options: SurfaceCreateOptions,
    split_id: SplitId,
) -> NodeView {
    old.split_spec(
        target,
        terminal_leaf(new_id, surface_from(new_surface_id, terminal, options)),
        direction,
        placement,
        split_id,
    )
}

impl PaneTree {
    fn empty_placeholder_node() -> (r: PaneNode)
        ensures
            r@ == placeholder_view(),
    {
        PaneNode::Leaf {
            id: usize::MAX,
            content: PaneContent::Terminal { surfaces: Vec::new(), active_surface_id: 0 },
        }
    }

    fn take_root(&mut self) -> (r: PaneNode)
        ensures
            r@ == old(self).root_view(),
            final(self).root_view() == placeholder_view(),
            final(self).focused() == old(self).focused(),
            final(self).zoomed() == old(self).zoomed(),
            final(self).next_pane() == old(self).next_pane(),
            final(self).next_surface() == old(self).next_surface(),
            final(self).next_split() == old(self).next_split(),
            final(self).drag() == old(self).drag(),
    {
        let mut root = Self::empty_placeholder_node();
        std::mem::swap(&mut self.root, &mut root);
        root
    }

    /// Splits pane `target` with a new terminal pane; the ids are consumed
    /// whether or not `target` exists, and the new pane takes focus when it does.
    fn split_pane_inner(
        &mut self,
        target_pane_id: PaneId,
        direction: SplitDirection,
        placement: SplitPlacement,
        new_terminal: TerminalId,
        options: SurfaceCreateOptions,
    ) -> (r: Option<(PaneId, SurfaceId)>)
        requires
            old(self).wf(),
            old(self).can_allocate(),
        ensures
            final(self).wf(),
            final(self).root_view() == split_result(
                old(self).root_view(),
                target_pane_id,
                direction,
                placement,
                old(self).next_pane(),
                old(self).next_surface(),
                new_terminal,
                options,
                old(self).next_split(),
            ),
            final(self).next_pane() == old(self).next_pane() + 1,
            final(self).next_surface() == old(self).next_surface() + 1,
            final(self).next_split() == old(self).next_split() + 1,
            final(self).drag() == old(self).drag(),
            r is Some <==> old(self).root_view().has_leaf(target_pane_id),
            r is Some ==> r == Some((old(self).next_pane(), old(self).next_surface()))
                && final(self).focused() == old(self).next_pane() && final(self).zoomed() is None,
            r is None ==> final(self).focused() == old(self).focused() && final(self).zoomed()
                == old(self).zoomed(),
    {
        let new_id = self.next_id;
        self.next_id = self.next_id + 1;
        let new_surface_id = self.next_surface_id;
        self.next_surface_id = self.next_surface_id + 1;
        let new_split_id = self.next_split_id;
        self.next_split_id = self.next_split_id + 1;
        let surface = PaneSurface {
            id: new_surface_id,
            terminal: new_terminal,
            title: options.title,
            owner: options.owner,
            close_pane_when_last: options.close_pane_when_last,
        };
        let mut surfaces = Vec::new();
        surfaces.push(surface);
        let new_leaf = PaneNode::Leaf {
            id: new_id,
            content: PaneContent::Terminal { surfaces, active_surface_id: new_surface_id },
        };
        let ghost leaf_v = new_leaf@;
        proof {
            assert(leaf_v == terminal_leaf(new_id, surface_from(new_surface_id, new_terminal, options)));
        }
        let ghost old_root = self.root@;
        let root = self.take_root();
        let (root, found) = root.split_leaf(target_pane_id, new_leaf, direction, placement, new_split_id);
        self.root = root;
        proof {
            assert(leaf_v.leaf_ids() =~= seq![new_id]);
            assert(leaf_v.split_ids() =~= Seq::<usize>::empty());
            assert(leaf_v.surface_ids() =~= seq![new_surface_id]);
            assert forall|x: PaneId| #![trigger leaf_v.has_leaf(x)] leaf_v.has_leaf(x) implies x < new_id + 1 by {
                lemma_has_leaf_unfold(leaf_v, x);
            }
            assert forall|x: SurfaceId| #![trigger leaf_v.surface_ids().contains(x)] leaf_v.surface_ids().contains(x) implies x < new_surface_id + 1 by {
                let k = choose|k: int| 0 <= k < 1 && leaf_v.surface_ids()[k] == x;
            }
            lemma_counters_split(old_root, target_pane_id, leaf_v, direction, placement, new_id, new_surface_id, new_split_id, (new_id + 1) as usize, (new_surface_id + 1) as usize);
            lemma_split_shape(old_root, target_pane_id, leaf_v, direction, placement, new_split_id);
            lemma_has_leaf_unfold(leaf_v, new_id);
        }
        if found {
            self.focused_pane_id = new_id;
            self.zoomed_pane_id = None;
            Some((new_id, new_surface_id))
        } else {
            None
        }
    }

    /// Splits the focused pane, placing the new pane after it.
    pub fn split(&mut self, direction: SplitDirection, new_terminal: TerminalId)
        requires
            old(self).wf(),
            old(self).can_allocate(),
        ensures
            final(self).wf(),
            final(self).root_view() == split_result(
                old(self).root_view(),
                old(self).focused(),
                direction,
                SplitPlacement::After,
                old(self).next_pane(),
                old(self).next_surface(),
                new_terminal,
                plain_options(),
                old(self).next_split(),
            ),
            final(self).focused() == old(self).next_pane(),
            final(self).zoomed() is None,
            final(self).next_pane() == old(self).next_pane() + 1,
            final(self).next_surface() == old(self).next_surface() + 1,
            final(self).next_split() == old(self).next_split() + 1,
            final(self).drag() == old(self).drag(),
    {
        self.split_with_placement(direction, SplitPlacement::After, new_terminal);
    }

    /// Splits the focused pane; the new pane takes focus.
    pub fn split_with_placement(
        &mut self,
        direction: SplitDirection,
        placement: SplitPlacement,
        new_terminal: TerminalId,
    )
        requires
            old(self).wf(),
            old(self).can_allocate(),
        ensures
            final(self).wf(),
            final(self).root_view() == split_result(
                old(self).root_view(),
                old(self).focused(),
                direction,
                placement,
                old(self).next_pane(),
                old(self).next_surface(),
                new_terminal,
                plain_options(),
                old(self).next_split(),
            ),
            final(self).focused() == old(self).next_pane(),
            final(self).zoomed() is None,
            final(self).next_pane() == old(self).next_pane() + 1,
            final(self).next_surface() == old(self).next_surface() + 1,
            final(self).next_split() == old(self).next_split() + 1,
            final(self).drag() == old(self).drag(),
    {
        let focused = self.focused_pane_id;
        let _ = self.split_pane_inner(focused, direction, placement, new_terminal, SurfaceCreateOptions::plain(None));
    }

    /// Splits pane `target`; when it exists, the new pane takes focus.
    pub fn split_pane_with_placement(
        &mut self,
        target_pane_id: PaneId,
        direction: SplitDirection,
        placement: SplitPlacement,
        new_terminal: TerminalId,
    )
        requires
            old(self).wf(),
            old(self).can_allocate(),
        ensures
            final(self).wf(),
            final(self).root_view() == split_result(
                old(self).root_view(),
                target_pane_id,
                direction,
                placement,
                old(self).next_pane(),
                old(self).next_surface(),
                new_terminal,
                plain_options(),
                old(self).next_split(),
            ),
            old(self).root_view().has_leaf(target_pane_id) ==> final(self).focused() == old(
                self,
            ).next_pane() && final(self).zoomed() is None,
            !old(self).root_view().has_leaf(target_pane_id) ==> final(self).focused() == old(
                self,
            ).focused() && final(self).zoomed() == old(self).zoomed(),
            final(self).next_pane() == old(self).next_pane() + 1,
            final(self).next_surface() == old(self).next_surface() + 1,
            final(self).next_split() == old(self).next_split() + 1,
            final(self).drag() == old(self).drag(),
    {
        let _ = self.split_pane_inner(target_pane_id, direction, placement, new_terminal, SurfaceCreateOptions::plain(None));
    }

    /// Splits pane `target` with a surface made from `options`: the new
    /// pane and surface ids when `target` exists.
    pub fn split_pane_with_surface_options(
        &mut self,
        target_pane_id: PaneId,
        direction: SplitDirection,
        placement: SplitPlacement,
        new_terminal: TerminalId,
        options: SurfaceCreateOptions,
    ) -> (r: Option<(PaneId, SurfaceId)>)
        requires
            old(self).wf(),
            old(self).can_allocate(),
        ensures
            final(self).wf(),
            final(self).root_view() == split_result(
                old(self).root_view(),
                target_pane_id,
                direction,
                placement,
                old(self).next_pane(),
                old(self).next_surface(),
                new_terminal,
                options,
                old(self).next_split(),
            ),
            final(self).next_pane() == old(self).next_pane() + 1,
            final(self).next_surface() == old(self).next_surface() + 1,
            final(self).next_split() == old(self).next_split() + 1,
            final(self).drag() == old(self).drag(),
            r is Some <==> old(self).root_view().has_leaf(target_pane_id),
            r is Some ==> r == Some((old(self).next_pane(), old(self).next_surface()))
                && final(self).focused() == old(self).next_pane() && final(self).zoomed() is None,
            r is None ==> final(self).focused() == old(self).focused() && final(self).zoomed()
                == old(self).zoomed(),
    {
        self.split_pane_inner(target_pane_id, direction, placement, new_terminal, options)
    }

    /// Splits the focused pane to the right with an editor pane: the new
    /// pane id, or `None` when the focused pane is not in the tree.
    pub fn split_with_editor(&mut self, view: EditorId) -> (r: Option<PaneId>)
        requires
            old(self).wf(),
            old(self).can_allocate(),
        ensures
            final(self).wf(),
            final(self).root_view() == old(self).root_view().split_spec(
                old(self).focused(),
                editor_leaf(old(self).next_pane(), view),
                SplitDirection::Horizontal,
                SplitPlacement::After,
                old(self).next_split(),
            ),
            r == Some(old(self).next_pane()),
            final(self).focused() == old(self).next_pane(),
            final(self).zoomed() is None,
            final(self).next_pane() == old(self).next_pane() + 1,
            final(self).next_surface() == old(self).next_surface(),
            final(self).next_split() == old(self).next_split() + 1,
            final(self).drag() == old(self).drag(),
    {
        let new_id = self.next_id;
        self.next_id = self.next_id + 1;
        let new_split_id = self.next_split_id;
        self.next_split_id = self.next_split_id + 1;
        let new_leaf = PaneNode::Leaf { id: new_id, content: PaneContent::Editor { view } };
        let ghost leaf_v = new_leaf@;
        let ghost old_root = self.root@;
        let focused = self.focused_pane_id;
        let root = self.take_root();
        let (root, found) = root.split_leaf(focused, new_leaf, SplitDirection::Horizontal, SplitPlacement::After, new_split_id);
        self.root = root;
        proof {
            assert(leaf_v.leaf_ids() =~= seq![new_id]);
            assert(leaf_v.split_ids() =~= Seq::<usize>::empty());
            assert(leaf_v.surface_ids() =~= Seq::<usize>::empty());
            assert forall|x: PaneId| #![trigger leaf_v.has_leaf(x)] leaf_v.has_leaf(x) implies x < new_id + 1 by {
                lemma_has_leaf_unfold(leaf_v, x);
            }
            lemma_counters_split(old_root, focused, leaf_v, SplitDirection::Horizontal, SplitPlacement::After, new_id, self.next_surface_id, new_split_id, (new_id + 1) as usize, self.next_surface_id);
            lemma_split_shape(old_root, focused, leaf_v, SplitDirection::Horizontal, SplitPlacement::After, new_split_id);
            lemma_has_leaf_unfold(leaf_v, new_id);
        }
        if !found {
            return None;
        }
        self.focused_pane_id = new_id;
        self.zoomed_pane_id = None;
        Some(new_id)
    }
}


impl PaneTree {
    /// Focuses pane `pane_id` if it exists (any kind of pane); a zoom on
    /// another pane is dropped.
    pub fn focus_pane(&mut self, pane_id: PaneId)
        requires
            old(self).wf(),
        ensures
            final(self).wf(),
            final(self).root_view() == old(self).root_view(),
            final(self).next_pane() == old(self).next_pane(),
            final(self).next_surface() == old(self).next_surface(),
            final(self).next_split() == old(self).next_split(),
            final(self).drag() == old(self).drag(),
            old(self).root_view().has_leaf(pane_id) ==> final(self).focused() == pane_id
                && final(self).zoomed() == (if old(self).zoomed() == Some(pane_id) {
                    Some(pane_id)
                } else {
                    None
                }),
            !old(self).root_view().has_leaf(pane_id) ==> final(self).focused() == old(self).focused()
                && final(self).zoomed() == old(self).zoomed(),
    {
        if self.root.contains_leaf(pane_id) {
            self.focused_pane_id = pane_id;
            match self.zoomed_pane_id {
                Some(z) => {
                    if z != pane_id {
                        self.zoomed_pane_id = None;
                    }
                },
                None => {},
            }
        }
    }

    /// Focuses pane `pane_id` if it shows a terminal; the zoom is kept.
    pub fn focus(&mut self, pane_id: PaneId)
        requires
            old(self).wf(),
        ensures
            final(self).wf(),
            final(self).root_view() == old(self).root_view(),
            final(self).zoomed() == old(self).zoomed(),
            final(self).next_pane() == old(self).next_pane(),
            final(self).next_surface() == old(self).next_surface(),
            final(self).next_split() == old(self).next_split(),
            final(self).drag() == old(self).drag(),
            final(self).focused() == if old(self).root_view().terminal_of(pane_id) is Some {
                pane_id
            } else {
                old(self).focused()
            },
    {
        if self.root.find_terminal(pane_id).is_some() {
            proof {
                lemma_terminal_of_has_leaf(self.root@, pane_id);
            }
            self.focused_pane_id = pane_id;
        }
    }

    /// Moves focus to the pane whose terminal has window focus, else to the
    /// editor pane whose view has it; unchanged when neither is found.
    pub fn sync_focus(&mut self, focused_terminals: &Vec<TerminalId>, focused_views: &Vec<EditorId>)
        requires
            old(self).wf(),
        ensures
            final(self).wf(),
            final(self).root_view() == old(self).root_view(),
            final(self).zoomed() == old(self).zoomed(),
            final(self).next_pane() == old(self).next_pane(),
            final(self).next_surface() == old(self).next_surface(),
            final(self).next_split() == old(self).next_split(),
            final(self).drag() == old(self).drag(),
            old(self).root_view().leaf_ids().no_duplicates() && (exists|x: PaneId|
                crate::node_lemmas::shows_focused_terminal(old(self).root_view(), x, focused_terminals@))
                ==> crate::node_lemmas::shows_focused_terminal(final(self).root_view(), final(self).focused(), focused_terminals@),
            old(self).root_view().focused_pane_spec(focused_terminals@) is Some && old(self).root_view().leaf_ids().no_duplicates()
                ==> crate::node_lemmas::shows_focused_terminal(final(self).root_view(), final(self).focused(), focused_terminals@),
            final(self).focused() == match old(self).root_view().focused_pane_spec(focused_terminals@) {
                Some(p) => p,
                None => match old(self).root_view().focused_editor_spec(focused_views@) {
                    Some(v) => match old(self).root_view().pane_of_editor(v) {
                        Some(p) => p,
                        None => old(self).focused(),
                    },
                    None => old(self).focused(),
                },
            },
    {
        proof {
            if self.root@.leaf_ids().no_duplicates() {
                crate::node_lemmas::lemma_focused_pane_shows_focused(self.root@, focused_terminals@);
                if exists|x: PaneId| crate::node_lemmas::shows_focused_terminal(self.root@, x, focused_terminals@) {
                    let x = choose|x: PaneId| crate::node_lemmas::shows_focused_terminal(self.root@, x, focused_terminals@);
                    crate::node_lemmas::lemma_focused_pane_found(self.root@, focused_terminals@, x);
                }
            }
        }
        match self.root.find_focused_pane(focused_terminals) {
            Some(id) => {
                proof {
                    lemma_found_panes_exist(self.root@, focused_terminals@, 0);
                }
                self.focused_pane_id = id;
                return;
            },
            None => {},
        }
        match self.root.focused_editor_view(focused_views) {
            Some(v) => match self.root.find_editor_pane_id_by_view(v) {
                Some(id) => {
                    proof {
                        lemma_found_panes_exist(self.root@, focused_terminals@, v);
                    }
                    self.focused_pane_id = id;
                },
                None => {},
            },
            None => {},
        }
    }

    /// Zooms the focused pane, or drops the zoom; `false` (and no zoom)
    /// when the tree has a single pane.
    pub fn toggle_zoom_focused(&mut self) -> (r: bool)
        requires
            old(self).wf(),
        ensures
            final(self).wf(),
            final(self).root_view() == old(self).root_view(),
            final(self).focused() == old(self).focused(),
            final(self).next_pane() == old(self).next_pane(),
            final(self).next_surface() == old(self).next_surface(),
            final(self).next_split() == old(self).next_split(),
            final(self).drag() == old(self).drag(),
            r == (old(self).root_view().leaf_ids().len() > 1),
            final(self).zoomed() == toggled_zoom(
                old(self).root_view().leaf_ids().len(),
                old(self).focused(),
                old(self).zoomed(),
            ),
    {
        if self.pane_count() <= 1 {
            self.zoomed_pane_id = None;
            return false;
        }
        if self.zoomed_pane_id.is_some() {
            self.zoomed_pane_id = None;
        } else {
            self.zoomed_pane_id = Some(self.focused_pane_id);
        }
        true
    }

    /// Starts dragging the divider of split `split_id` (when it exists).
    pub fn begin_drag(&mut self, split_id: SplitId, start_pos: u32)
        requires
            old(self).wf(),
        ensures
            final(self).wf(),
            final(self).root_view() == old(self).root_view(),
            final(self).focused() == old(self).focused(),
            final(self).zoomed() == old(self).zoomed(),
            final(self).next_pane() == old(self).next_pane(),
            final(self).next_surface() == old(self).next_surface(),
            final(self).next_split() == old(self).next_split(),
            final(self).drag() == match old(self).root_view().find_split_spec(split_id) {
                Some(p) => Some(DragState { split_id, start_ratio: p.0, start_pos }),
                None => old(self).drag(),
            },
    {
        match self.root.find_split_ratio(split_id) {
            Some((ratio, _)) => {
                self.dragging = Some(DragState { split_id, start_ratio: ratio, start_pos });
            },
            None => {},
        }
    }

    /// Ends any divider drag.
    pub fn end_drag(&mut self)
        requires
            old(self).wf(),
        ensures
            final(self).wf(),
            final(self).root_view() == old(self).root_view(),
            final(self).focused() == old(self).focused(),
            final(self).zoomed() == old(self).zoomed(),
            final(self).next_pane() == old(self).next_pane(),
            final(self).next_surface() == old(self).next_surface(),
            final(self).next_split() == old(self).next_split(),
            final(self).drag() is None,
    {
        self.dragging = None;
    }

    /// Sets the ratio (as `f32` bits) of split `split_id`: whether it exists.
    pub fn set_split_ratio(&mut self, split_id: SplitId, ratio: u32) -> (r: bool)
        requires
            old(self).wf(),
        ensures
            final(self).wf(),
            (final(self).root_view(), r) == old(self).root_view().set_ratio_spec(split_id, ratio),
            final(self).focused() == old(self).focused(),
            final(self).zoomed() == old(self).zoomed(),
            final(self).next_pane() == old(self).next_pane(),
            final(self).next_surface() == old(self).next_surface(),
            final(self).next_split() == old(self).next_split(),
            final(self).drag() == old(self).drag(),
    {
        let ghost old_root = self.root@;
        let root = self.take_root();
        let (root, changed) = root.set_split_ratio(split_id, ratio);
        self.root = root;
        proof {
            lemma_update_shape(old_root, self.root@, 0, None, split_id, ratio);
            self.lemma_same_shape_wf(old_root);
        }
        changed
    }

    /// Adds a terminal surface to pane `pane_id` and makes it active and
    /// focused: its id, or `None` when no terminal pane has that id.
    pub fn create_surface_in_pane(
        &mut self,
        pane_id: PaneId,
        terminal: TerminalId,
        options: SurfaceCreateOptions,
    ) -> (r: Option<SurfaceId>)
        requires
            old(self).wf(),
            old(self).next_surface() < usize::MAX,
        ensures
            final(self).wf(),
            final(self).root_view() == old(self).root_view().push_spec(
                pane_id,
                surface_from(old(self).next_surface(), terminal, options),
            ),
            final(self).next_surface() == old(self).next_surface() + 1,
            final(self).next_pane() == old(self).next_pane(),
            final(self).next_split() == old(self).next_split(),
            final(self).drag() == old(self).drag(),
            r is Some <==> old(self).root_view().active_surface_of(pane_id) is Some,
            r is Some ==> r == Some(old(self).next_surface()) && final(self).focused() == pane_id
                && final(self).zoomed() == (if old(self).zoomed() == Some(pane_id) {
                    Some(pane_id)
                } else {
                    None
                }),
            r is None ==> final(self).focused() == old(self).focused() && final(self).zoomed()
                == old(self).zoomed(),
    {
        let surface_id = self.next_surface_id;
        self.next_surface_id = self.next_surface_id + 1;
        let surface = PaneSurface {
            id: surface_id,
            terminal,
            title: options.title,
            owner: options.owner,
            close_pane_when_last: options.close_pane_when_last,
        };
        let ghost sv = surface;
        let ghost old_root = self.root@;
        let root = self.take_root();
        let (root, pushed) = root.push_surface(pane_id, surface);
        self.root = root;
        proof {
            lemma_content_updates_keep_shape(old_root, pane_id, sv, 0, None, 0, 0);
            assert forall|x: SurfaceId| #![trigger self.root@.surface_ids().contains(x)] self.root@.surface_ids().contains(x) implies x < self.next_surface_id by {
                lemma_surface_ids_content_updates(old_root, pane_id, sv, 0, None, 0, 0, x);
            }
            lemma_active_surface_has_leaf(old_root, pane_id);
            assert(self.root@.leaf_ids() == old_root.leaf_ids());
            assert(self.root@.split_ids() == old_root.split_ids());
            assert(counters_ok(old_root, self.next_id, (self.next_surface_id - 1) as usize, self.next_split_id));
            assert forall|x: PaneId| #![trigger self.root@.has_leaf(x)] self.root@.has_leaf(x) implies x < self.next_id || self.next_id == usize::MAX by {
                assert(old_root.has_leaf(x));
            }
            assert forall|x: SplitId| #![trigger self.root@.split_ids().contains(x)] self.root@.split_ids().contains(x) implies x < self.next_split_id || self.next_split_id == usize::MAX by {
                assert(old_root.split_ids().contains(x));
            }
            assert(counters_ok(self.root@, self.next_id, self.next_surface_id, self.next_split_id));
        }
        if pushed {
            match self.zoomed_pane_id {
                Some(z) => {
                    if z != pane_id {
                        self.zoomed_pane_id = None;
                    }
                },
                None => {},
            }
            self.focused_pane_id = pane_id;
            Some(surface_id)
        } else {
            None
        }
    }

    /// Activates surface `sid` and focuses its pane: whether anything
    /// (active surface, focus or zoom) changed.
    pub fn focus_surface(&mut self, sid: SurfaceId) -> (r: bool)
        requires
            old(self).wf(),
        ensures
            final(self).wf(),
            final(self).root_view() == old(self).root_view().activate_spec(sid).0,
            final(self).next_pane() == old(self).next_pane(),
            final(self).next_surface() == old(self).next_surface(),
            final(self).next_split() == old(self).next_split(),
            final(self).drag() == old(self).drag(),
            match old(self).root_view().activate_spec(sid).1 {
                Some((p, changed)) => {
                    &&& final(self).focused() == p
                    &&& final(self).zoomed() == (if old(self).zoomed() is Some && old(self).zoomed() != Some(p) {
                        None
                    } else {
                        old(self).zoomed()
                    })
                    &&& r == (changed || old(self).focused() != p || (old(self).zoomed() is Some && old(self).zoomed() != Some(p)))
                },
                None => !r && final(self).focused() == old(self).focused() && final(self).zoomed() == old(self).zoomed(),
            },
    {
        let ghost old_root = self.root@;
        let root = self.take_root();
        let (root, res) = root.activate_surface(sid);
        self.root = root;
        proof {
            lemma_update_shape(old_root, self.root@, sid, None, 0, 0);
            self.lemma_same_shape_wf(old_root);
            lemma_activate_has_leaf(old_root, sid);
        }
        match res {
            Some((pane_id, surface_changed)) => {
                let focus_changed = self.focused_pane_id != pane_id;
                let zoom_changed = match self.zoomed_pane_id {
                    Some(z) => z != pane_id,
                    None => false,
                };
                if zoom_changed {
                    self.zoomed_pane_id = None;
                }
                self.focused_pane_id = pane_id;
                surface_changed || focus_changed || zoom_changed
            },
            None => false,
        }
    }

    /// Retitles surface `sid`: whether it exists.
    pub fn rename_surface(&mut self, sid: SurfaceId, title: Option<String>) -> (r: bool)
        requires
            old(self).wf(),
        ensures
            final(self).wf(),
            (final(self).root_view(), r) == old(self).root_view().rename_spec(sid, title),
            final(self).focused() == old(self).focused(),
            final(self).zoomed() == old(self).zoomed(),
            final(self).next_pane() == old(self).next_pane(),
            final(self).next_surface() == old(self).next_surface(),
            final(self).next_split() == old(self).next_split(),
            final(self).drag() == old(self).drag(),
    {
        let ghost old_root = self.root@;
        let root = self.take_root();
        let (root, renamed) = root.rename_surface_node(sid, &title);
        self.root = root;
        proof {
            lemma_update_shape(old_root, self.root@, sid, title, 0, 0);
            self.lemma_same_shape_wf(old_root);
        }
        renamed
    }

    /// A tree whose root keeps the previous root's panes and splits, and
    /// no new surface, keeps its invariant.
    proof fn lemma_same_shape_wf(&self, old_root: NodeView)
        requires
            counters_ok(old_root, self.next_pane(), self.next_surface(), self.next_split()),
            old_root.has_leaf(self.focused()),
            self.zoomed() matches Some(z) ==> old_root.has_leaf(z),
            self.root_view().leaf_ids() == old_root.leaf_ids(),
            self.root_view().split_ids() == old_root.split_ids(),
            forall|x: SurfaceId| #![trigger self.root_view().surface_ids().contains(x)]
                self.root_view().surface_ids().contains(x) ==> old_root.surface_ids().contains(x),
        ensures
            self.wf(),
    {
        lemma_counters_sub(old_root, self.root_view(), self.next_pane(), self.next_surface(), self.next_split());
    }
}

/// Surface and ratio updates keep panes and splits, and add no surface id.
pub proof fn lemma_update_shape(old_root: NodeView, new_root: NodeView, sid: usize, title: Option<String>, split: SplitId, ratio: u32)
    requires
        new_root == old_root.activate_spec(sid).0 || new_root == old_root.rename_spec(sid, title).0
            || new_root == old_root.remove_surface_spec(sid).0 || new_root == old_root.set_ratio_spec(split, ratio).0,
    ensures
        new_root.leaf_ids() == old_root.leaf_ids(),
        new_root.split_ids() == old_root.split_ids(),
        forall|x: SurfaceId| #![trigger new_root.surface_ids().contains(x)]
            new_root.surface_ids().contains(x) ==> old_root.surface_ids().contains(x),
{
    let s = PaneSurface { id: 0, terminal: 0, title: None, owner: None, close_pane_when_last: false };
    lemma_content_updates_keep_shape(old_root, 0, s, sid, title, split, ratio);
    assert forall|x: SurfaceId| #![trigger new_root.surface_ids().contains(x)] new_root.surface_ids().contains(x) implies old_root.surface_ids().contains(x) by {
        lemma_surface_ids_content_updates(old_root, 0, s, sid, title, split, ratio, x);
    }
}

/// A pane that shows a terminal is in the tree.
pub proof fn lemma_terminal_of_has_leaf(n: NodeView, pane: PaneId)
    ensures
        n.terminal_of(pane) is Some ==> n.has_leaf(pane),
    decreases n,
{
    lemma_has_leaf_unfold(n, pane);
    match n {
        NodeView::Leaf { .. } => {},
        NodeView::Split { first, second, .. } => {
            lemma_terminal_of_has_leaf(*first, pane);
            lemma_terminal_of_has_leaf(*second, pane);
        },
    }
}

/// A pane holding an active surface is in the tree.
pub proof fn lemma_active_surface_has_leaf(n: NodeView, pane: PaneId)
    ensures
        n.active_surface_of(pane) is Some ==> n.has_leaf(pane),
    decreases n,
{
    lemma_has_leaf_unfold(n, pane);
    match n {
        NodeView::Leaf { .. } => {},
        NodeView::Split { first, second, .. } => {
            lemma_active_surface_has_leaf(*first, pane);
            lemma_active_surface_has_leaf(*second, pane);
        },
    }
}

/// The pane that activating a surface reports is in the tree.
pub proof fn lemma_activate_has_leaf(n: NodeView, sid: SurfaceId)
    ensures
        n.activate_spec(sid).1 matches Some(p) ==> n.has_leaf(p.0),
    decreases n,
{
    match n {
        NodeView::Leaf { id, .. } => {
            lemma_has_leaf_unfold(n, id);
        },
        NodeView::Split { first, second, .. } => {
            lemma_activate_has_leaf(*first, sid);
            lemma_activate_has_leaf(*second, sid);
            if let Some(p) = n.activate_spec(sid).1 {
                lemma_has_leaf_unfold(n, p.0);
            }
        },
    }
}

/// Panes found through focus lookups are in the tree.
pub proof fn lemma_found_panes_exist(n: NodeView, focused: Seq<TerminalId>, view: EditorId)
    ensures
        n.focused_pane_spec(focused) matches Some(p) ==> n.has_leaf(p),
        n.pane_of_editor(view) matches Some(p) ==> n.has_leaf(p),
    decreases n,
{
    match n {
        NodeView::Leaf { id, .. } => {
            lemma_has_leaf_unfold(n, id);
        },
        NodeView::Split { first, second, .. } => {
            lemma_found_panes_exist(*first, focused, view);
            lemma_found_panes_exist(*second, focused, view);
            if let Some(p) = n.focused_pane_spec(focused) {
                lemma_has_leaf_unfold(n, p);
            }
            if let Some(p) = n.pane_of_editor(view) {
                lemma_has_leaf_unfold(n, p);
            }
        },
    }
}


/// Zoom after toggling: none with a single pane or when something was
/// zoomed, else the focused pane.
pub open spec fn toggled_zoom(leaf_count: nat, focused: PaneId, zoomed: Option<PaneId>) -> Option<PaneId> {
    if leaf_count <= 1 || zoomed is Some {
        None
    } else {
        Some(focused)
    }
}

/// Focus after panes were removed: kept if the pane survived, else the first pane.
pub open spec fn focus_after_close(root: NodeView, focused: PaneId) -> PaneId {
    if root.has_leaf(focused) {
        focused
    } else {
        root.first_leaf()
    }
}

/// Zoom after panes were removed: dropped when one pane is left or the
/// zoomed pane is gone.
pub open spec fn zoom_after_close(root: NodeView, zoomed: Option<PaneId>) -> Option<PaneId> {
    if root.leaf_ids().len() <= 1 || (zoomed matches Some(z) && !root.has_leaf(z)) {
        None
    } else {
        zoomed
    }
}

/// Focus after a surface was closed: kept if its pane shows a terminal,
/// else the first pane.
pub open spec fn focus_after_surface_close(root: NodeView, focused: PaneId) -> PaneId {
    if root.terminal_of(focused) is Some {
        focused
    } else {
        root.first_leaf()
    }
}

/// Zoom after a surface was closed: dropped when one pane is left or the
/// zoomed pane shows no terminal.
pub open spec fn zoom_after_surface_close(root: NodeView, zoomed: Option<PaneId>) -> Option<PaneId> {
    if root.leaf_ids().len() <= 1 || (zoomed matches Some(z) && root.terminal_of(z) is None) {
        None
    } else {
        zoomed
    }
}

/// Whether closing the only surface of a pane may close the pane itself.
pub open spec fn may_close_owned_pane(
    surface: PaneSurface,
    close_empty_owned_pane: bool,
    leaf_count: nat,
) -> bool {
    close_empty_owned_pane && surface.owner is Some && surface.close_pane_when_last && leaf_count > 1
}

impl PaneTree {
    /// Closes the focused pane: `false` when it is the only pane.
    pub fn close_focused(&mut self) -> (r: bool)
        requires
            old(self).wf(),
        ensures
            final(self).wf(),
            r == (old(self).root_view().leaf_ids().len() > 1),
            r ==> final(self).root_view() == old(self).root_view().remove_spec(old(self).focused()),
            !r ==> final(self).root_view() == old(self).root_view(),
            final(self).focused() == focus_after_close(final(self).root_view(), old(self).focused()),
            r ==> final(self).zoomed() == zoom_after_close(final(self).root_view(), old(self).zoomed()),
            !r ==> final(self).zoomed() == old(self).zoomed(),
            final(self).next_pane() == old(self).next_pane(),
            final(self).next_surface() == old(self).next_surface(),
            final(self).next_split() == old(self).next_split(),
            final(self).drag() == old(self).drag(),
    {
        let focused = self.focused_pane_id;
        self.close_pane(focused)
    }

    /// Closes pane `pane_id`: `false` (and nothing changes) when the tree
    /// has a single pane, `true` otherwise, also when no pane has that id.
    pub fn close_pane(&mut self, pane_id: PaneId) -> (r: bool)
        requires
            old(self).wf(),
        ensures
            final(self).wf(),
            old(self).focused() != pane_id ==> final(self).focused() == old(self).focused(),
            r && (old(self).zoomed() matches Some(z) && z != pane_id) && final(self).root_view().leaf_ids().len() > 1
                ==> final(self).zoomed() == old(self).zoomed(),
            r && final(self).root_view().leaf_ids().len() <= 1 ==> final(self).zoomed() is None,
            r && old(self).zoomed() == Some(pane_id) && old(self).root_view().leaf_ids().no_duplicates()
                ==> final(self).zoomed() is None,
            r && old(self).root_view().has_leaf(pane_id) && old(self).root_view().leaf_ids().no_duplicates()
                ==> !final(self).root_view().has_leaf(pane_id),
            r == (old(self).root_view().leaf_ids().len() > 1),
            r ==> final(self).root_view() == old(self).root_view().remove_spec(pane_id),
            !r ==> final(self).root_view() == old(self).root_view(),
            final(self).focused() == focus_after_close(final(self).root_view(), old(self).focused()),
            r ==> final(self).zoomed() == zoom_after_close(final(self).root_view(), old(self).zoomed()),
            !r ==> final(self).zoomed() == old(self).zoomed(),
            final(self).next_pane() == old(self).next_pane(),
            final(self).next_surface() == old(self).next_surface(),
            final(self).next_split() == old(self).next_split(),
            final(self).drag() == old(self).drag(),
    {
        if self.pane_count() <= 1 {
            return false;
        }
        let ghost old_root = self.root@;
        let root = self.take_root();
        self.root = root.remove_leaf(pane_id);
        proof {
            lemma_remove_shape(old_root, pane_id);
            assert forall|x: SurfaceId| #![trigger self.root@.surface_ids().contains(x)] self.root@.surface_ids().contains(x) implies old_root.surface_ids().contains(x) by {
                let nl = NodeView::Leaf { id: 0, content: ContentView::Editor { view: 0 } };
                lemma_surface_ids_shape(old_root, pane_id, nl, SplitDirection::Horizontal, SplitPlacement::After, 0, x);
            }
            lemma_counters_sub(old_root, self.root@, self.next_id, self.next_surface_id, self.next_split_id);
            lemma_first_leaf_in(self.root@);
        }
        proof {
            if self.focused_pane_id != pane_id {
                crate::node_lemmas::lemma_remove_keeps_others(old_root, pane_id, self.focused_pane_id);
            }
            if let Some(z) = self.zoomed_pane_id {
                if z != pane_id {
                    crate::node_lemmas::lemma_remove_keeps_others(old_root, pane_id, z);
                }
            }
        }
        if !self.root.contains_leaf(self.focused_pane_id) {
            self.focused_pane_id = self.root.first_pane_id();
        }
        let clear_zoom = match self.zoomed_pane_id {
            Some(z) => !self.root.contains_leaf(z),
            None => false,
        };
        if self.pane_count() <= 1 || clear_zoom {
            self.zoomed_pane_id = None;
        }
        true
    }

    /// Closes surface `sid`. A pane's only surface is closed only together
    /// with its pane, and only when `close_empty_owned_pane` is set, the
    /// surface has an owner and asks for it, and another pane remains.
    pub fn close_surface(&mut self, sid: SurfaceId, close_empty_owned_pane: bool) -> (r: Option<SurfaceCloseOutcome>)
        requires
            old(self).wf(),
        ensures
            final(self).wf(),
            final(self).next_pane() == old(self).next_pane(),
            final(self).next_surface() == old(self).next_surface(),
            final(self).next_split() == old(self).next_split(),
            final(self).drag() == old(self).drag(),
            match old(self).root_view().close_candidate_spec(sid) {
                None => r is None && final(self).root_view() == old(self).root_view()
                    && final(self).focused() == old(self).focused() && final(self).zoomed() == old(self).zoomed(),
                Some((p, surface, last)) => if last {
                    if may_close_owned_pane(surface, close_empty_owned_pane, old(self).root_view().leaf_ids().len()) {
                        let closed = old(self).root_view().remove_spec(p);
                        &&& r == Some(SurfaceCloseOutcome { pane_id: p, terminal: surface.terminal, closed_pane: true })
                        &&& final(self).root_view() == closed
                        &&& final(self).focused() == focus_after_surface_close(closed, focus_after_close(closed, old(self).focused()))
                        &&& final(self).zoomed() == zoom_after_surface_close(closed, zoom_after_close(closed, old(self).zoomed()))
                    } else {
                        r is None && final(self).root_view() == old(self).root_view()
                            && final(self).focused() == old(self).focused() && final(self).zoomed() == old(self).zoomed()
                    }
                } else {
                    let after = old(self).root_view().remove_surface_spec(sid).0;
                    &&& r == Some(SurfaceCloseOutcome { pane_id: p, terminal: surface.terminal, closed_pane: false })
                    &&& final(self).root_view() == after
                    &&& final(self).focused() == focus_after_surface_close(after, old(self).focused())
                    &&& final(self).zoomed() == zoom_after_surface_close(after, old(self).zoomed())
                },
            },
    {
        let candidate = match self.root.surface_close_candidate(sid) {
            Some(c) => c,
            None => {
                return None;
            },
        };
        let outcome = if candidate.is_last_surface {
            let can_close_pane = close_empty_owned_pane && candidate.owner.is_some()
                && candidate.close_pane_when_last && self.pane_count() > 1;
            if !can_close_pane {
                return None;
            }
            if !self.close_pane(candidate.pane_id) {
                return None;
            }
            SurfaceCloseOutcome { pane_id: candidate.pane_id, terminal: candidate.terminal, closed_pane: true }
        } else {
            let ghost old_root = self.root@;
            let root = self.take_root();
            let (root, removed) = root.remove_surface(sid);
            self.root = root;
            proof {
                lemma_update_shape(old_root, self.root@, sid, None, 0, 0);
                self.lemma_same_shape_wf(old_root);
                lemma_close_candidate_removal(old_root, sid);
            }
            match removed {
                Some((pane_id, terminal)) => SurfaceCloseOutcome { pane_id, terminal, closed_pane: false },
                None => {
                    return None;
                },
            }
        };
        let ghost mid = *self;
        let clear_zoom = match self.zoomed_pane_id {
            Some(z) => self.root.find_terminal(z).is_none(),
            None => false,
        };
        if self.pane_count() <= 1 || clear_zoom {
            self.zoomed_pane_id = None;
        }
        if self.root.find_terminal(self.focused_pane_id).is_none() {
            self.focused_pane_id = self.root.first_pane_id();
        }
        proof {
            lemma_first_leaf_in(self.root@);
        }
        Some(outcome)
    }
}

/// The surface that closing would pick, when its pane has other surfaces,
/// is the one the removal takes out.
pub proof fn lemma_close_candidate_removal(n: NodeView, sid: SurfaceId)
    ensures
        n.close_candidate_spec(sid) is None ==> n.remove_surface_spec(sid).1 is None,
        n.close_candidate_spec(sid) matches Some((p, s, last)) ==> (!last ==> n.remove_surface_spec(sid).1 == Some((p, s.terminal))),
    decreases n,
{
    match n {
        NodeView::Leaf { .. } => {},
        NodeView::Split { first, second, .. } => {
            lemma_close_candidate_removal(*first, sid);
            lemma_close_candidate_removal(*second, sid);
        },
    }
}


/// The tree after moving leaf `source` next to leaf `target`, with splits
/// renumbered from 0.
pub open spec fn moved_root(
    root: NodeView,
    source: PaneId,
    target: PaneId,
    direction: SplitDirection,
    placement: SplitPlacement,
    split_id: SplitId,
) -> NodeView {
    let (rest, leaf) = root.extract_spec(source);
    rest->0.split_spec(target, leaf->0, direction, placement, split_id).normalize_spec(0)
}

/// The root after placing `incoming` (renumbered from `start`) beside `root`.
pub open spec fn merged_root(
    root: NodeView,
    incoming: NodeView,
    start: int,
    incoming_focus: PaneId,
    direction: SplitDirection,
    placement: SplitPlacement,
    split_id: SplitId,
) -> NodeView {
    let moved = incoming.remap_spec(start, incoming_focus).0;
    match placement {
        SplitPlacement::Before => NodeView::Split {
            split_id,
            direction,
            first: Box::new(moved),
            second: Box::new(root),
            ratio: crate::pane_node::HALF_RATIO,
        },
        SplitPlacement::After => NodeView::Split {
            split_id,
            direction,
            first: Box::new(root),
            second: Box::new(moved),
            ratio: crate::pane_node::HALF_RATIO,
        },
    }.normalize_spec(0)
}

pub open spec fn max_usize(a: usize, b: usize) -> usize {
    if a >= b {
        a
    } else {
        b
    }
}

pub open spec fn sat_succ(a: usize) -> usize {
    if a < usize::MAX {
        (a + 1) as usize
    } else {
        usize::MAX
    }
}

impl PaneTree {
    /// Moves pane `source` to a new split beside pane `target`; it takes
    /// focus and any zoom is dropped. `false` (nothing changes) when the
    /// panes are the same, either is missing, or the tree has one pane.
    pub fn move_pane(
        &mut self,
        source_pane_id: PaneId,
        target_pane_id: PaneId,
        direction: SplitDirection,
        placement: SplitPlacement,
    ) -> (r: bool)
        requires
            old(self).wf(),
        ensures
            final(self).wf(),
            r == (source_pane_id != target_pane_id && old(self).root_view().leaf_ids().len() > 1
                && old(self).root_view().has_leaf(source_pane_id) && old(self).root_view().has_leaf(
                target_pane_id,
            )),
            r ==> {
                &&& final(self).root_view() == moved_root(
                    old(self).root_view(),
                    source_pane_id,
                    target_pane_id,
                    direction,
                    placement,
                    old(self).next_split(),
                )
                &&& final(self).focused() == source_pane_id
                &&& final(self).zoomed() is None
                &&& final(self).next_split() == old(self).root_view().split_count()
                &&& forall|x: PaneId| #![trigger final(self).root_view().has_leaf(x)]
                    final(self).root_view().has_leaf(x) <==> old(self).root_view().has_leaf(x)
            },
            !r ==> final(self).root_view() == old(self).root_view() && final(self).focused() == old(
                self,
            ).focused() && final(self).zoomed() == old(self).zoomed() && final(self).next_split()
                == old(self).next_split(),
            final(self).next_pane() == old(self).next_pane(),
            final(self).next_surface() == old(self).next_surface(),
            final(self).drag() == old(self).drag(),
    {
        if source_pane_id == target_pane_id || self.pane_count() <= 1 || !self.root.contains_leaf(
            source_pane_id,
        ) || !self.root.contains_leaf(target_pane_id) {
            return false;
        }
        let ghost old_root = self.root@;
        proof {
            lemma_extract_absent(old_root, source_pane_id);
            lemma_extract_keeps_others(old_root, source_pane_id, target_pane_id);
            lemma_extract_shape(old_root, source_pane_id);
            lemma_extract_split_count(old_root, source_pane_id);
            lemma_has_leaf_unfold(old_root, source_pane_id);
            lemma_has_leaf_unfold(old_root, target_pane_id);
        }
        let root = self.take_root();
        let (remaining, extracted) = root.extract_leaf(source_pane_id);
        let source_leaf = match extracted {
            Some(leaf) => leaf,
            None => {
                proof {
                    assert(false);
                }
                return false;
            },
        };
        let remaining = match remaining {
            Some(rest) => rest,
            None => {
                proof {
                    assert(false);
                }
                return false;
            },
        };
        let ghost rest_v = remaining@;
        let ghost leaf_v = source_leaf@;
        let split_id = self.next_split_id;
        let (new_root, inserted) = remaining.split_leaf(target_pane_id, source_leaf, direction, placement, split_id);
        if !inserted {
            proof {
                assert(false);
            }
            return false;
        }
        let ghost joined = new_root@;
        proof {
            lemma_split_shape(rest_v, target_pane_id, leaf_v, direction, placement, split_id);
            lemma_split_split_count(rest_v, target_pane_id, leaf_v, direction, placement, split_id);
            assert(leaf_v.split_count() == 0);
            crate::pane_node::lemma_split_count_ids(old_root);
            assert forall|i: int| 0 <= i < old_root.split_ids().len() implies old_root.split_ids()[i] < self.next_split_id by {
                assert(old_root.split_ids().contains(old_root.split_ids()[i]));
            }
            lemma_distinct_below(old_root.split_ids(), self.next_split_id as int);
        }
        let (normalized, count) = new_root.normalize_split_ids(0);
        self.root = normalized;
        self.next_split_id = count;
        self.focused_pane_id = source_pane_id;
        self.zoomed_pane_id = None;
        proof {
            lemma_normalize_shape(joined, 0);
            crate::node_lemmas::lemma_range_nodup(joined.split_count(), 0);
            crate::node_lemmas::lemma_surface_ids_renumbered(joined, 0, 0);
            lemma_has_leaf_unfold(leaf_v, source_pane_id);
            assert(self.root@.leaf_ids() == joined.leaf_ids());
            assert(leaf_v is Leaf);
            assert forall|x: PaneId| #![trigger self.root@.has_leaf(x)] self.root@.has_leaf(x) <==> old_root.has_leaf(x) by {
                lemma_extract_keeps_others(old_root, source_pane_id, x);
                lemma_has_leaf_unfold(leaf_v, x);
                assert(joined.has_leaf(x) <==> (rest_v.has_leaf(x) || (rest_v.has_leaf(target_pane_id) && leaf_v.has_leaf(x))));
            }
            assert forall|x: SurfaceId| #![trigger self.root@.surface_ids().contains(x)] self.root@.surface_ids().contains(x) implies old_root.surface_ids().contains(x) by {
                lemma_surface_ids_shape(rest_v, target_pane_id, leaf_v, direction, placement, split_id, x);
                lemma_surface_ids_shape(old_root, source_pane_id, leaf_v, direction, placement, split_id, x);
            }
            assert forall|x: SplitId| #![trigger self.root@.split_ids().contains(x)] self.root@.split_ids().contains(x) implies x < self.next_split_id by {
            }
        }
        true
    }

    /// Places the panes of `incoming` beside this tree's as a new root
    /// split. Incoming panes are renumbered after this tree's largest pane
    /// id, the incoming focused pane takes focus, and splits are
    /// renumbered from 0.
    pub fn merge_tree(
        &mut self,
        incoming: PaneTree,
        direction: SplitDirection,
        placement: SplitPlacement,
    )
        requires
            old(self).wf(),
            incoming.wf(),
            old(self).root_view().max_leaf() + 1 + incoming.root_view().leaf_ids().len() <= usize::MAX,
            old(self).root_view().split_count() + incoming.root_view().split_count() < usize::MAX,
        ensures
            final(self).wf(),
            final(self).root_view() == merged_root(
                old(self).root_view(),
                incoming.root_view(),
                old(self).root_view().max_leaf() + 1,
                incoming.focused(),
                direction,
                placement,
                old(self).next_split(),
            ),
            final(self).focused() == incoming.root_view().remap_spec(
                old(self).root_view().max_leaf() + 1,
                incoming.focused(),
            ).1,
            final(self).zoomed() is None,
            final(self).drag() is None,
            final(self).next_pane() == sat_succ(final(self).root_view().max_leaf()),
            final(self).next_surface() == max_usize(
                max_usize(old(self).next_surface(), incoming.next_surface()),
                sat_succ(final(self).root_view().max_surface()),
            ),
            final(self).next_split() == final(self).root_view().split_count(),
    {
        let ghost own = self.root@;
        let ghost inc = incoming.root@;
        let start = self.root.max_pane_id() + 1;
        let incoming_focus = incoming.focused_pane_id;
        let incoming_next_surface = incoming.next_surface_id;
        let (moved, _, focus) = incoming.root.remap_leaf_ids(start, incoming_focus);
        let ghost moved_v = moved@;
        let original = self.take_root();
        let split_id = self.next_split_id;
        let joined = match placement {
            SplitPlacement::Before => PaneNode::Split {
                split_id,
                direction,
                first: Box::new(moved),
                second: Box::new(original),
                ratio: crate::pane_node::HALF_RATIO,
            },
            SplitPlacement::After => PaneNode::Split {
                split_id,
                direction,
                first: Box::new(original),
                second: Box::new(moved),
                ratio: crate::pane_node::HALF_RATIO,
            },
        };
        let ghost joined_v = joined@;
        proof {
            crate::node_lemmas::lemma_remap_shape(inc, start as int, incoming_focus);
            crate::node_lemmas::lemma_surface_ids_renumbered(inc, start as int, incoming_focus);
            crate::pane_node::lemma_split_count_ids(inc);
            crate::pane_node::lemma_split_count_ids(moved_v);
            assert(moved_v.split_ids() == inc.split_ids());
            assert(joined_v.split_count() == own.split_count() + inc.split_count() + 1);
        }
        let (normalized, count) = joined.normalize_split_ids(0);
        self.root = normalized;
        self.focused_pane_id = focus;
        self.zoomed_pane_id = None;
        self.next_id = self.root.max_pane_id().saturating_add(1);
        let max_surface = self.root.max_surface_id().saturating_add(1);
        let a = if self.next_surface_id >= incoming_next_surface {
            self.next_surface_id
        } else {
            incoming_next_surface
        };
        self.next_surface_id = if a >= max_surface {
            a
        } else {
            max_surface
        };
        self.next_split_id = count;
        self.dragging = None;
        proof {
            lemma_normalize_shape(joined_v, 0);
            crate::node_lemmas::lemma_range_nodup(joined_v.split_count(), 0);
            crate::node_lemmas::lemma_surface_ids_renumbered(joined_v, 0, 0);
            lemma_has_leaf_unfold(joined_v, focus);
            assert forall|x: PaneId| #![trigger self.root@.has_leaf(x)] self.root@.has_leaf(x) && self.next_id != usize::MAX implies x < self.next_id by {
                lemma_max_leaf(self.root@, x);
            }
            assert forall|x: SurfaceId| #![trigger self.root@.surface_ids().contains(x)] self.root@.surface_ids().contains(x) && self.next_surface_id != usize::MAX implies x < self.next_surface_id by {
                lemma_max_surface(self.root@, x);
            }
            assert forall|x: SplitId| #![trigger self.root@.split_ids().contains(x)] self.root@.split_ids().contains(x) implies x < self.next_split_id by {
            }
        }
    }
}

} // verus!
