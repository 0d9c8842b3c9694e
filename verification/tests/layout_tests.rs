use con_panes::layout::{
    trim_restored_screen_text, PaneLayoutState, PaneSplitDirection, SurfaceState, TerminalCapture,
    RESTORED_SCREEN_TEXT_MAX_BYTES,
};
use con_panes::pane_node::{PaneContent, PaneNode, HALF_RATIO};
use con_panes::pane_tree::PaneTree;
use con_panes::restore::{
    allocate_restored_surface_id, clamp_ratio_bits, restore_requests, MAX_RESTORED_RATIO,
    MIN_RESTORED_RATIO,
};

fn lines(v: &[&str]) -> Vec<String> {
    v.iter().map(|s| s.to_string()).collect()
}

fn surface(id: usize, owner: Option<&str>, text: &[&str]) -> SurfaceState {
    SurfaceState {
        surface_id: id,
        title: None,
        owner: owner.map(|o| o.to_string()),
        cwd: None,
        close_pane_when_last: false,
        screen_text: lines(text),
    }
}

fn leaf_with(id: usize, cwd: Option<&str>, active: Option<usize>, surfaces: Vec<SurfaceState>) -> PaneLayoutState {
    PaneLayoutState::Leaf { pane_id: id, cwd: cwd.map(|c| c.to_string()), active_surface_id: active, surfaces }
}

fn surfaces_of(node: &PaneNode) -> Vec<(usize, u64)> {
    match node {
        PaneNode::Leaf { content: PaneContent::Terminal { surfaces, .. }, .. } => {
            surfaces.iter().map(|s| (s.id, s.terminal)).collect()
        }
        PaneNode::Leaf { .. } => Vec::new(),
        PaneNode::Split { first, second, .. } => {
            let mut v = surfaces_of(first);
            v.extend(surfaces_of(second));
            v
        }
    }
}

#[test]
fn trimming_drops_blank_edges() {
    let trimmed = trim_restored_screen_text(lines(&["", "  ", "a", "", "b", " \t", ""]));
    assert_eq!(trimmed, lines(&["a", "", "b"]));
    assert!(trim_restored_screen_text(lines(&["", " ", "\u{3000}"])).is_empty());
    assert!(trim_restored_screen_text(Vec::new()).is_empty());
}

#[test]
fn trimming_keeps_the_most_recent_lines_that_fit() {
    let big = "x".repeat(RESTORED_SCREEN_TEXT_MAX_BYTES / 2);
    let input = vec!["first".to_string(), big.clone(), big.clone()];
    let trimmed = trim_restored_screen_text(input);
    assert_eq!(trimmed, vec![big.clone()]);
    let huge = "y".repeat(RESTORED_SCREEN_TEXT_MAX_BYTES);
    assert!(trim_restored_screen_text(vec!["a".to_string(), huge]).is_empty());
}

#[test]
fn ratios_are_clamped_like_f32_clamp() {
    for v in [0.0f32, 0.01, 0.05, 0.5, 0.95, 0.99, 2.0, -1.0, -0.0, f32::INFINITY, f32::NEG_INFINITY] {
        let clamped = f32::from_bits(clamp_ratio_bits(v.to_bits()));
        assert_eq!(clamped, v.clamp(0.05, 0.95), "value {}", v);
    }
    assert!(f32::from_bits(clamp_ratio_bits(f32::NAN.to_bits())).is_nan());
    assert_eq!(f32::from_bits(MIN_RESTORED_RATIO), 0.05);
    assert_eq!(f32::from_bits(MAX_RESTORED_RATIO), 0.95);
}

#[test]
fn restored_surface_ids_stay_unique() {
    let mut next = 0;
    let mut used = Vec::new();
    assert_eq!(allocate_restored_surface_id(Some(5), &mut next, &mut used), 5);
    assert_eq!(next, 6);
    assert_eq!(allocate_restored_surface_id(Some(5), &mut next, &mut used), 6);
    assert_eq!(allocate_restored_surface_id(None, &mut next, &mut used), 7);
    assert_eq!(allocate_restored_surface_id(Some(2), &mut next, &mut used), 2);
    assert_eq!(next, 8);
    assert_eq!(used, vec![5, 6, 7, 2]);
}

#[test]
fn allocation_wraps_past_the_top() {
    let mut next = usize::MAX;
    let mut used = vec![usize::MAX, 0];
    assert_eq!(allocate_restored_surface_id(None, &mut next, &mut used), 1);
    assert_eq!(next, 2);
}

#[test]
fn restore_requests_follow_tree_order_and_text_rules() {
    let owner = "workspace-error".to_string();
    let layout = PaneLayoutState::Split {
        direction: PaneSplitDirection::Vertical,
        ratio: HALF_RATIO,
        first: Box::new(leaf_with(3, Some("/work"), None, Vec::new())),
        second: Box::new(leaf_with(
            4,
            Some("/pane"),
            Some(9),
            vec![surface(9, None, &["", "hello", ""]), surface(9, Some("workspace-error"), &["boom"])],
        )),
    };
    let off = restore_requests(&layout, false, &owner);
    assert_eq!(off.len(), 3);
    assert_eq!(off[0].cwd.as_deref(), Some("/work"));
    assert!(off[0].screen_text.is_none());
    assert_eq!(off[1].cwd.as_deref(), Some("/pane"));
    assert!(off[1].screen_text.is_none());
    assert_eq!(off[2].screen_text, Some(lines(&["boom"])));
    let on = restore_requests(&layout, true, &owner);
    assert_eq!(on[1].screen_text, Some(lines(&["hello"])));
}

#[test]
fn from_state_rebuilds_the_tree() {
    let layout = PaneLayoutState::Split {
        direction: PaneSplitDirection::Horizontal,
        ratio: 0.99f32.to_bits(),
        first: Box::new(leaf_with(3, None, None, Vec::new())),
        second: Box::new(leaf_with(7, None, Some(4), vec![surface(4, None, &[]), surface(4, None, &[])])),
    };
    let tree = PaneTree::from_state(&layout, Some(7), &vec![10, 11, 12]);
    assert_eq!(tree.focused_pane_id(), 7);
    assert_eq!(tree.split_ratio(0), Some(0.95f32.to_bits()));
    let got = surfaces_of(tree.root());
    assert_eq!(got.iter().map(|s| s.1).collect::<Vec<_>>(), vec![10, 11, 12]);
    let ids: Vec<usize> = got.iter().map(|s| s.0).collect();
    assert_eq!(ids, vec![0, 4, 5]);
    assert_eq!(tree.active_surface_id_for_pane(7), Some(5));
}

#[test]
fn from_state_falls_back_to_first_pane() {
    let layout = leaf_with(2, None, None, Vec::new());
    let tree = PaneTree::from_state(&layout, Some(99), &vec![1]);
    assert_eq!(tree.focused_pane_id(), 2);
}

#[test]
fn to_state_writes_surfaces_with_captures() {
    let mut tree = PaneTree::new(50);
    tree.split(con_panes::pane_node::SplitDirection::Vertical, 51);
    let captures = vec![
        TerminalCapture { terminal: 50, cwd: Some("/a".to_string()), recent_lines: lines(&["", "x"]) },
        TerminalCapture { terminal: 51, cwd: None, recent_lines: Vec::new() },
    ];
    let state = tree.to_state(&captures, true);
    match state {
        PaneLayoutState::Split { direction, first, second, .. } => {
            assert_eq!(direction, PaneSplitDirection::Vertical);
            match *first {
                PaneLayoutState::Leaf { pane_id, cwd, surfaces, .. } => {
                    assert_eq!(pane_id, 0);
                    assert_eq!(cwd.as_deref(), Some("/a"));
                    assert_eq!(surfaces[0].screen_text, lines(&["x"]));
                }
                _ => panic!("expected leaf"),
            }
            match *second {
                PaneLayoutState::Leaf { pane_id, cwd, .. } => {
                    assert_eq!(pane_id, 1);
                    assert_eq!(cwd, None);
                }
                _ => panic!("expected leaf"),
            }
        }
        _ => panic!("expected split"),
    }
}

#[test]
fn editor_only_tree_persists_as_focused_leaf() {
    let tree = PaneTree::new_editor(9);
    assert!(tree.to_persisted_state(&Vec::new(), false).is_none());
    match tree.to_state(&Vec::new(), false) {
        PaneLayoutState::Leaf { pane_id, surfaces, active_surface_id, .. } => {
            assert_eq!(pane_id, 0);
            assert!(surfaces.is_empty());
            assert_eq!(active_surface_id, None);
        }
        _ => panic!("expected leaf"),
    }
}

fn pane_ids(node: &PaneNode) -> Vec<usize> {
    match node {
        PaneNode::Leaf { id, .. } => vec![*id],
        PaneNode::Split { first, second, .. } => {
            let mut v = pane_ids(first);
            v.extend(pane_ids(second));
            v
        }
    }
}

#[test]
fn saving_and_restoring_keeps_the_terminal_panes() {
    let mut tree = PaneTree::new(10);
    tree.split(con_panes::pane_node::SplitDirection::Horizontal, 11);
    tree.split(con_panes::pane_node::SplitDirection::Vertical, 12);
    tree.split_with_editor(99);
    let saved = tree.to_persisted_state(&Vec::new(), false).unwrap();
    let requests = restore_requests(&saved, false, &"owner".to_string());
    let terminals: Vec<u64> = (0..requests.len() as u64).map(|i| 100 + i).collect();
    let restored = PaneTree::from_state(&saved, None, &terminals);
    let mut terminal_ids = pane_ids(tree.root());
    terminal_ids.retain(|id| tree.editor_view_for_pane(*id).is_none());
    assert_eq!(pane_ids(restored.root()), terminal_ids);
    assert_eq!(restored.pane_count(), 3);
}

#[test]
fn saving_and_restoring_keeps_surfaces_and_splits() {
    let mut tree = PaneTree::new(10);
    tree.split(con_panes::pane_node::SplitDirection::Vertical, 11);
    let saved = tree.to_persisted_state(&Vec::new(), false).unwrap();
    let requests = restore_requests(&saved, false, &"owner".to_string());
    let terminals: Vec<u64> = (0..requests.len() as u64).map(|i| 500 + i).collect();
    let restored = PaneTree::from_state(&saved, None, &terminals);
    let before: Vec<usize> = surfaces_of(tree.root()).iter().map(|(id, _)| *id).collect();
    let after = surfaces_of(restored.root());
    assert_eq!(after.iter().map(|(id, _)| *id).collect::<Vec<_>>(), before);
    assert_eq!(after.iter().map(|(_, t)| *t).collect::<Vec<_>>(), terminals);
    match (tree.root(), restored.root()) {
        (PaneNode::Split { direction: a, ratio: ra, .. }, PaneNode::Split { direction: b, ratio: rb, .. }) => {
            assert_eq!(a, b);
            assert_eq!(ra, rb);
        }
        _ => panic!("expected splits"),
    }
}
