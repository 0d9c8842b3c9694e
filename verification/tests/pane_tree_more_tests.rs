use con_panes::view_reports::{leaf_chrome, surface_can_close};
use con_panes::pane_node::{PaneNode, SplitDirection, SplitPlacement};
use con_panes::pane_tree::{PaneTree, SurfaceCreateOptions};

fn leaf_ids(node: &PaneNode, out: &mut Vec<usize>) {
    match node {
        PaneNode::Leaf { id, .. } => out.push(*id),
        PaneNode::Split { first, second, .. } => {
            leaf_ids(first, out);
            leaf_ids(second, out);
        }
    }
}

fn ids(tree: &PaneTree) -> Vec<usize> {
    let mut v = Vec::new();
    leaf_ids(tree.root(), &mut v);
    v
}

#[test]
fn split_adds_exactly_one_pane_and_close_undoes_it() {
    let mut tree = PaneTree::new(10);
    tree.split(SplitDirection::Horizontal, 11);
    assert_eq!(ids(&tree), vec![0, 1]);
    assert_eq!(tree.focused_pane_id(), 1);
    assert_eq!(tree.pane_count(), 2);
    assert!(tree.close_pane(1));
    assert_eq!(ids(&tree), vec![0]);
    assert_eq!(tree.focused_pane_id(), 0);
    assert!(!tree.close_pane(0), "the last pane stays");
}

#[test]
fn split_before_places_new_pane_first() {
    let mut tree = PaneTree::new(10);
    tree.split_with_placement(SplitDirection::Vertical, SplitPlacement::Before, 11);
    assert_eq!(ids(&tree), vec![1, 0]);
    assert_eq!(tree.split_direction(0), Some(SplitDirection::Vertical));
}

#[test]
fn zoom_toggles_back_and_needs_two_panes() {
    let mut tree = PaneTree::new(10);
    assert!(!tree.toggle_zoom_focused());
    tree.split(SplitDirection::Horizontal, 11);
    assert!(tree.toggle_zoom_focused());
    assert_eq!(tree.zoomed_pane_id(), Some(1));
    assert!(tree.toggle_zoom_focused());
    assert_eq!(tree.zoomed_pane_id(), None);
}

#[test]
fn surfaces_are_fresh_renamable_and_closable() {
    let mut tree = PaneTree::new(10);
    let sid = tree.create_surface_in_pane(0, 20, SurfaceCreateOptions::plain(Some("logs".to_string()))).unwrap();
    assert_eq!(sid, 1);
    assert_eq!(tree.active_surface_id_for_pane(0), Some(1));
    assert_eq!(tree.focused_terminal_entity_id(), Some(20));
    assert!(tree.rename_surface(1, Some("build".to_string())));
    let infos = tree.surface_infos(Some(0));
    assert_eq!(infos.len(), 2);
    assert_eq!(infos[1].title.as_deref(), Some("build"));
    assert!(infos[1].is_active);
    assert!(tree.focus_surface(0));
    assert_eq!(tree.focused_terminal_entity_id(), Some(10));
    let outcome = tree.close_surface(1, false).unwrap();
    assert_eq!(outcome.terminal, 20);
    assert!(!outcome.closed_pane);
    assert_eq!(tree.all_surface_terminals(), vec![10]);
    assert!(tree.create_surface_in_pane(9, 21, SurfaceCreateOptions::plain(None)).is_none());
}

#[test]
fn move_keeps_every_pane() {
    let mut tree = PaneTree::new(10);
    tree.split(SplitDirection::Horizontal, 11);
    tree.split(SplitDirection::Vertical, 12);
    let mut before = ids(&tree);
    assert!(tree.move_pane(0, 2, SplitDirection::Horizontal, SplitPlacement::After));
    let mut after = ids(&tree);
    before.sort();
    after.sort();
    assert_eq!(before, after);
    assert!(!tree.move_pane(0, 0, SplitDirection::Horizontal, SplitPlacement::After));
}

#[test]
fn drag_tracks_the_split() {
    let mut tree = PaneTree::new(10);
    tree.split(SplitDirection::Horizontal, 11);
    tree.begin_drag(0, 100f32.to_bits());
    assert!(tree.is_dragging());
    assert_eq!(tree.dragging_split_id(), Some(0));
    assert_eq!(tree.dragging_direction(), Some(SplitDirection::Horizontal));
    assert!(tree.set_split_ratio(0, 0.25f32.to_bits()));
    assert_eq!(tree.split_ratio(0), Some(0.25f32.to_bits()));
    tree.end_drag();
    assert!(!tree.is_dragging());
    tree.begin_drag(5, 0);
    assert!(!tree.is_dragging());
}

#[test]
fn pane_titles_come_from_terminal_titles() {
    let mut tree = PaneTree::new(10);
    tree.split(SplitDirection::Horizontal, 11);
    let titles = vec![(10u64, Some("~/work/app".to_string())), (11u64, None)];
    assert_eq!(tree.pane_title(0, &titles).as_deref(), Some("app"));
    assert_eq!(tree.pane_title(1, &titles).as_deref(), Some("Terminal"));
    assert_eq!(tree.pane_title(7, &titles), None);
}

#[test]
fn editor_reports_are_read_through_the_tree() {
    let mut tree = PaneTree::new(10);
    assert_eq!(tree.split_with_editor(40), Some(1));
    let paths = vec![(40u64, Some("/src/lib.rs".to_string()))];
    assert_eq!(tree.editor_active_path_for_pane(1, &paths).as_deref(), Some("/src/lib.rs"));
    assert_eq!(tree.editor_active_path_for_pane(0, &paths), None);
    assert_eq!(tree.focused_editor_tab_count(&vec![40], &vec![(40, 3)]), Some(3));
    assert_eq!(tree.focused_editor_tab_count(&Vec::new(), &vec![(40, 3)]), None);
    assert_eq!(tree.active_editor_pane_id(&vec![40]), Some(1));
}

#[test]
fn merge_gives_fresh_ids_to_incoming_panes() {
    let mut a = PaneTree::new(1);
    a.split(SplitDirection::Horizontal, 2);
    let mut b = PaneTree::new(3);
    b.split(SplitDirection::Vertical, 4);
    a.merge_tree(b, SplitDirection::Vertical, SplitPlacement::After);
    let mut v = ids(&a);
    assert_eq!(v.len(), 4);
    v.sort();
    v.dedup();
    assert_eq!(v.len(), 4);
    assert_eq!(a.all_terminals().len(), 4);
}

fn chrome_surface(id: usize, title: Option<&str>, owner: Option<&str>, close_when_last: bool) -> con_panes::pane_node::PaneSurface {
    con_panes::pane_node::PaneSurface {
        id,
        terminal: id as u64,
        title: title.map(|t| t.to_string()),
        owner: owner.map(|o| o.to_string()),
        close_pane_when_last: close_when_last,
    }
}

#[test]
fn leaf_chrome_follows_surfaces_and_splits() {
    let plain = vec![chrome_surface(0, None, None, false)];
    let c = leaf_chrome(&plain, 0, false, false);
    assert!(!c.show_surface_strip && !c.show_title_bar && c.bare);
    let c = leaf_chrome(&plain, 0, true, false);
    assert!(!c.show_surface_strip && c.show_title_bar && !c.bare);
    let c = leaf_chrome(&plain, 0, true, true);
    assert!(!c.show_title_bar && !c.bare);
    let titled = vec![chrome_surface(0, None, None, false), chrome_surface(3, Some("logs"), None, false)];
    assert!(leaf_chrome(&titled, 3, false, false).show_surface_strip);
    let owned = vec![chrome_surface(4, None, Some("agent"), true)];
    assert!(leaf_chrome(&owned, 99, false, false).show_surface_strip);
    assert!(surface_can_close(1, &owned[0]));
    assert!(!surface_can_close(1, &plain[0]));
    assert!(surface_can_close(2, &plain[0]));
    assert!(!surface_can_close(1, &chrome_surface(5, None, Some("agent"), false)));
}
