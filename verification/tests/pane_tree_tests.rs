use con_panes::layout::{PaneLayoutState, PaneSplitDirection};
use con_panes::pane_node::{PaneNode, SplitDirection, SplitPlacement, HALF_RATIO};
use con_panes::pane_tree::PaneTree;
use con_panes::restore::restore_requests;
use con_panes::text::short_pane_title;

fn leaf(id: usize) -> PaneLayoutState {
    PaneLayoutState::Leaf { pane_id: id, cwd: None, active_surface_id: None, surfaces: Vec::new() }
}

fn split(direction: PaneSplitDirection, first: PaneLayoutState, second: PaneLayoutState) -> PaneLayoutState {
    PaneLayoutState::Split { direction, ratio: HALF_RATIO, first: Box::new(first), second: Box::new(second) }
}

fn tree(layout: &PaneLayoutState, focused: Option<usize>) -> PaneTree {
    let n = restore_requests(layout, false, &String::new()).len();
    let terminals: Vec<u64> = (0..n).map(|i| 100 + i as u64).collect();
    PaneTree::from_state(layout, focused, &terminals)
}

fn simple_two_pane_tree() -> PaneTree {
    tree(&split(PaneSplitDirection::Horizontal, leaf(0), leaf(1)), Some(0))
}

fn leaf_id(node: &PaneNode) -> usize {
    match node {
        PaneNode::Leaf { id, .. } => *id,
        PaneNode::Split { .. } => panic!("expected leaf"),
    }
}

fn split_parts(node: &PaneNode) -> (SplitDirection, &PaneNode, &PaneNode) {
    match node {
        PaneNode::Split { direction, first, second, .. } => (*direction, first, second),
        PaneNode::Leaf { .. } => panic!("expected split"),
    }
}

fn collect_leaf_ids(node: &PaneNode, result: &mut Vec<usize>) {
    match node {
        PaneNode::Leaf { id, .. } => result.push(*id),
        PaneNode::Split { first, second, .. } => {
            collect_leaf_ids(first, result);
            collect_leaf_ids(second, result);
        }
    }
}

fn collect_split_ids(node: &PaneNode, result: &mut Vec<usize>) {
    match node {
        PaneNode::Leaf { .. } => {}
        PaneNode::Split { split_id, first, second, .. } => {
            result.push(*split_id);
            collect_split_ids(first, result);
            collect_split_ids(second, result);
        }
    }
}

fn assert_unique(values: &[usize]) {
    let mut sorted = values.to_vec();
    sorted.sort_unstable();
    sorted.dedup();
    assert_eq!(sorted.len(), values.len());
}

#[test]
fn focused_terminal_entity_id_is_none_without_focused_terminal() {
    let tree = PaneTree::new_editor(7);
    assert_eq!(tree.focused_terminal_entity_id(), None);
}

#[test]
fn short_pane_title_handles_unix_paths() {
    assert_eq!(short_pane_title("~/work/con-terminal"), "con-terminal");
    assert_eq!(short_pane_title("~/work/con-terminal/"), "con-terminal");
    assert_eq!(short_pane_title("/"), "/");
}

#[test]
fn short_pane_title_handles_windows_paths() {
    assert_eq!(short_pane_title(r"C:\Users\alice\project"), "project");
    assert_eq!(short_pane_title(r"C:\Users\alice\project\"), "project");
    assert_eq!(short_pane_title(r"C:\"), r"C:");
}

#[test]
fn short_pane_title_preserves_non_path_titles() {
    assert_eq!(short_pane_title("Terminal"), "Terminal");
    assert_eq!(short_pane_title("nvim main.rs"), "nvim main.rs");
}

#[test]
fn merge_tree_horizontal_before_places_incoming_first() {
    let mut target = tree(&leaf(0), Some(0));
    let incoming = tree(&leaf(0), Some(0));

    target.merge_tree(incoming, SplitDirection::Horizontal, SplitPlacement::Before);

    let (root_direction, first, second) = split_parts(target.root());
    assert_eq!(root_direction, SplitDirection::Horizontal);
    assert_eq!(leaf_id(first), target.focused_pane_id());
    assert_eq!(leaf_id(second), 0);
    let mut leaf_ids = Vec::new();
    collect_leaf_ids(target.root(), &mut leaf_ids);
    assert_unique(&leaf_ids);
}

#[test]
fn merge_tree_vertical_after_places_incoming_second() {
    let mut target = tree(&leaf(0), Some(0));
    let incoming = tree(&leaf(0), Some(0));

    target.merge_tree(incoming, SplitDirection::Vertical, SplitPlacement::After);

    let (root_direction, first, second) = split_parts(target.root());
    assert_eq!(root_direction, SplitDirection::Vertical);
    assert_eq!(leaf_id(first), 0);
    assert_eq!(leaf_id(second), target.focused_pane_id());
    let mut leaf_ids = Vec::new();
    collect_leaf_ids(target.root(), &mut leaf_ids);
    assert_unique(&leaf_ids);
}

#[test]
fn merge_tree_clears_zoom_and_focuses_incoming() {
    let mut target = simple_two_pane_tree();
    assert!(target.toggle_zoom_focused());
    assert_eq!(target.zoomed_pane_id(), Some(0));
    let incoming = tree(&leaf(0), Some(0));

    target.merge_tree(incoming, SplitDirection::Vertical, SplitPlacement::Before);

    assert_eq!(target.zoomed_pane_id(), None);
    assert!(target.focused_pane_id() >= 2);
    assert!(target.contains_pane(target.focused_pane_id()));
}

#[test]
fn focus_pane_supports_non_terminal_leaves_before_zoom() {
    let mut tree = PaneTree::new(100);
    assert_eq!(tree.split_with_editor(7), Some(1));

    tree.focus_pane(1);
    assert!(tree.toggle_zoom_focused());

    assert_eq!(tree.focused_pane_id(), 1);
    assert_eq!(tree.zoomed_pane_id(), Some(1));
}

#[test]
fn merge_tree_assigns_unique_split_ids() {
    let mut target = simple_two_pane_tree();
    let incoming = simple_two_pane_tree();

    target.merge_tree(incoming, SplitDirection::Horizontal, SplitPlacement::After);

    let mut split_ids = Vec::new();
    collect_split_ids(target.root(), &mut split_ids);
    assert_unique(&split_ids);
}

#[test]
fn move_pane_to_top_edge_places_source_before_target_vertically() {
    let mut tree = simple_two_pane_tree();

    assert!(tree.move_pane(1, 0, SplitDirection::Vertical, SplitPlacement::Before));

    let (root_direction, first, second) = split_parts(tree.root());
    assert_eq!(root_direction, SplitDirection::Vertical);
    assert_eq!(leaf_id(first), 1);
    assert_eq!(leaf_id(second), 0);
    assert_eq!(tree.focused_pane_id(), 1);
}

#[test]
fn pane_move_noop_when_source_is_already_after_target_in_same_horizontal_split() {
    let tree = simple_two_pane_tree();

    assert!(tree.is_noop_pane_move(1, 0, SplitDirection::Horizontal, SplitPlacement::After));
    assert!(tree.is_noop_pane_move(0, 1, SplitDirection::Horizontal, SplitPlacement::Before));
    assert!(!tree.is_noop_pane_move(1, 0, SplitDirection::Vertical, SplitPlacement::Before));
    assert!(!tree.is_noop_pane_move(1, 0, SplitDirection::Horizontal, SplitPlacement::Before));
}

#[test]
fn pane_move_noop_when_source_is_already_after_target_in_same_vertical_split() {
    let tree = tree(&split(PaneSplitDirection::Vertical, leaf(0), leaf(1)), Some(0));

    assert!(tree.is_noop_pane_move(1, 0, SplitDirection::Vertical, SplitPlacement::After));
    assert!(tree.is_noop_pane_move(0, 1, SplitDirection::Vertical, SplitPlacement::Before));
    assert!(!tree.is_noop_pane_move(1, 0, SplitDirection::Horizontal, SplitPlacement::After));
}

#[test]
fn pane_move_is_not_noop_when_source_and_target_are_in_opposite_subtrees() {
    let layout = split(
        PaneSplitDirection::Horizontal,
        split(PaneSplitDirection::Vertical, leaf(0), leaf(2)),
        leaf(1),
    );
    let tree = tree(&layout, Some(0));

    assert!(!tree.is_noop_pane_move(1, 0, SplitDirection::Horizontal, SplitPlacement::After));
}
