use con_panes::layout::{PaneLayoutState, PaneSplitDirection, TerminalCapture};
use con_panes::pane_node::HALF_RATIO;
use con_panes::pane_tree::PaneTree;
use con_panes::workspace::{
    should_reveal_vertical_tab_rail_for_new_tab, ChromePanel, ConWorkspace, LayoutPrompt, PaneInfo, PaneStatus,
    PromptLevel, ScopeNode, SessionState, Tab, TabState, WorkspaceEffect,
};
use std::collections::{HashMap, HashSet};

fn tab(terminal: u64, id: usize) -> Tab {
    Tab { pane_tree: PaneTree::new(terminal), title: "zsh".to_string(), user_label: None, summary_id: id, agent_routing: Vec::new() }
}

fn workspace() -> ConWorkspace {
    ConWorkspace::new(tab(1, 0), false, true)
}

fn prompt(level: PromptLevel, message: &str, detail: &str) -> WorkspaceEffect {
    WorkspaceEffect::Prompt(LayoutPrompt { level, message: message.to_string(), detail: detail.to_string() })
}

#[test]
fn agent_panel_toggle_moves_focus_and_back() {
    let mut w = workspace();
    let open = w.toggle_agent_panel();
    assert!(w.agent_panel_open);
    assert_eq!(
        open,
        vec![
            WorkspaceEffect::AnimatePanel { panel: ChromePanel::AgentPanel, open: true, open_ms: 290, close_ms: 220 },
            WorkspaceEffect::FocusInputBar,
            WorkspaceEffect::SaveSession,
            WorkspaceEffect::Notify,
        ]
    );
    let close = w.toggle_agent_panel();
    assert!(!w.agent_panel_open);
    assert_eq!(close[1], WorkspaceEffect::FocusTerminal);
}

#[test]
fn hiding_the_input_bar_closes_the_scope_picker() {
    let mut w = workspace();
    assert_eq!(w.toggle_pane_scope_picker(false, 2).last(), Some(&WorkspaceEffect::Notify));
    assert!(w.pane_scope_picker_open);
    let effects = w.toggle_input_bar();
    assert!(!w.input_bar_visible);
    assert!(!w.pane_scope_picker_open);
    assert_eq!(effects[1], WorkspaceEffect::FocusActiveTerminal);
    w.toggle_agent_panel();
    w.toggle_input_bar();
    let effects = w.toggle_input_bar();
    assert_eq!(effects[1], WorkspaceEffect::FocusAgentInlineInput);
}

#[test]
fn scope_picker_needs_several_panes_outside_agent_mode() {
    let mut w = workspace();
    assert!(w.toggle_pane_scope_picker(true, 3).is_empty());
    assert!(w.toggle_pane_scope_picker(false, 1).is_empty());
    assert!(!w.pane_scope_picker_open);
    w.toggle_input_bar();
    let effects = w.toggle_pane_scope_picker(false, 2);
    assert!(w.input_bar_visible && w.pane_scope_picker_open);
    assert_eq!(
        effects,
        vec![
            WorkspaceEffect::AnimatePanel { panel: ChromePanel::InputBar, open: true, open_ms: 180, close_ms: 180 },
            WorkspaceEffect::FocusInputBar,
            WorkspaceEffect::Notify,
        ]
    );
    assert_eq!(w.close_pane_scope_picker(), vec![WorkspaceEffect::Notify]);
    assert!(w.close_pane_scope_picker().is_empty());
}

#[test]
fn left_panel_and_tab_rail() {
    let mut w = ConWorkspace::new(tab(1, 0), true, true);
    assert!(should_reveal_vertical_tab_rail_for_new_tab(true, false));
    let effects = w.reveal_vertical_tab_rail_for_new_tab_if_needed();
    assert!(w.left_panel_open && !w.sidebar_tools_open);
    assert_eq!(effects.len(), 3);
    assert!(w.reveal_vertical_tab_rail_for_new_tab_if_needed().is_empty());
    let effects = w.toggle_left_panel();
    assert!(!w.left_panel_open);
    assert_eq!(effects[0], WorkspaceEffect::ClearSidebarRailOverride);
    assert!(w.collapse_sidebar().is_empty());
    let mut plain = workspace();
    plain.toggle_left_panel();
    assert!(plain.left_panel_open && plain.sidebar_tools_open);
    assert_eq!(plain.collapse_sidebar().len(), 4);
    assert!(!plain.left_panel_open);
}

#[test]
fn scope_changes_resync_focus() {
    let w = workspace();
    assert_eq!(w.set_scope_broadcast()[0], WorkspaceEffect::SetBroadcastScope);
    assert_eq!(w.set_scope_focused()[0], WorkspaceEffect::SetFocusedScope);
    assert_eq!(
        w.toggle_scope_pane_by_index(&vec![4, 9], 1),
        vec![
            WorkspaceEffect::ToggleScopePane { pane_id: 9 },
            WorkspaceEffect::SyncTerminalFocusStates,
            WorkspaceEffect::FocusInputBar,
        ]
    );
    assert!(w.toggle_scope_pane_by_index(&vec![4, 9], 2).is_empty());
}

#[test]
fn clearing_history_reports_both_outcomes() {
    let mut w = workspace();
    let failed = w.clear_restored_terminal_history(Err("disk full".to_string()));
    assert!(w.restore_terminal_text);
    assert_eq!(failed, vec![prompt(PromptLevel::Critical, "Could not clear restored terminal history", "disk full")]);
    let done = w.clear_restored_terminal_history(Ok(()));
    assert!(!w.restore_terminal_text);
    assert_eq!(done[0], WorkspaceEffect::SetPersistedRestoreTerminalText { enabled: false });
    assert_eq!(done[1], WorkspaceEffect::FlushSessionSave);
}

#[test]
fn saving_a_layout_profile_explains_the_file() {
    let w = workspace();
    let ok = w.save_current_layout_profile_to("/p/.con/workspace.ghostty", Ok(()));
    match &ok[0] {
        WorkspaceEffect::Prompt(p) => {
            assert_eq!(p.level, PromptLevel::Info);
            assert!(p.detail.starts_with("/p/.con/workspace.ghostty\n\nThe file contains layout intent only"));
        }
        _ => panic!("expected prompt"),
    }
    assert_eq!(ok[1], WorkspaceEffect::RevealSavedPath);
    let err = w.save_current_layout_profile_to("/p", Err("nope".to_string()));
    assert_eq!(err, vec![prompt(PromptLevel::Critical, "Could not save layout profile", "nope")]);
}

#[test]
fn tabs_from_state_get_titles_and_ids() {
    let mut w = workspace();
    w.next_tab_summary_id = 4;
    let blank = TabState { title: "  ".to_string(), user_label: None, cwd: Some("/x".to_string()), layout: None, focused_pane_id: None, agent_routing: Vec::new() };
    let requests = w.tab_terminal_requests(&blank, &String::new());
    assert_eq!(requests.len(), 1);
    assert_eq!(requests[0].cwd.as_deref(), Some("/x"));
    let defaults = vec!["shell-agent".to_string()];
    let t = w.tab_from_state(&blank, &vec![77], &defaults);
    assert_eq!(t.agent_routing, defaults);
    assert_eq!(t.title, "Terminal 5");
    assert_eq!(t.summary_id, 4);
    assert_eq!(w.next_tab_summary_id, 5);
    assert_eq!(t.pane_tree.focused_terminal_entity_id(), Some(77));
}

fn two_pane_layout() -> PaneLayoutState {
    let leaf = |id| PaneLayoutState::Leaf { pane_id: id, cwd: None, active_surface_id: None, surfaces: Vec::new() };
    PaneLayoutState::Split { direction: PaneSplitDirection::Horizontal, ratio: HALF_RATIO, first: Box::new(leaf(0)), second: Box::new(leaf(1)) }
}

#[test]
fn appending_a_session_switches_to_its_active_tab() {
    let mut w = workspace();
    let session = SessionState {
        tabs: vec![
            TabState { title: "one".to_string(), user_label: None, cwd: None, layout: None, focused_pane_id: None, agent_routing: Vec::new() },
            TabState { title: "two".to_string(), user_label: None, cwd: None, layout: Some(two_pane_layout()), focused_pane_id: Some(1), agent_routing: vec!["build-agent".to_string()] },
        ],
        active_tab: 7,
    };
    let effects = w.append_workspace_layout_session(&session, &vec![vec![20], vec![30, 31]], &vec!["shell-agent".to_string()]);
    assert_eq!(w.tabs[1].agent_routing, vec!["shell-agent".to_string()]);
    assert_eq!(w.tabs[2].agent_routing, vec!["build-agent".to_string()]);
    assert_eq!(w.tabs.len(), 3);
    assert_eq!(w.active_tab, 2);
    assert_eq!(effects[0], WorkspaceEffect::SyncTabStripMotion);
    assert_eq!(effects[1], WorkspaceEffect::SwapAgentPanelState { active_tab: 2, previous_tab: Some(0) });
    assert_eq!(effects[2], WorkspaceEffect::HideTerminals { terminals: vec![1, 20] });
    assert_eq!(effects[3], WorkspaceEffect::EnsureTerminalSurfaces { terminals: vec![30, 31] });
    assert_eq!(effects[5], WorkspaceEffect::FocusTerminalOf { terminal: 31 });
    assert_eq!(effects.last(), Some(&WorkspaceEffect::Notify));
    assert_eq!(w.release_active_terminal_mouse_selection(), vec![30, 31]);
    assert!(w.append_workspace_layout_session(&SessionState { tabs: Vec::new(), active_tab: 0 }, &Vec::new(), &Vec::new()).is_empty());
}

#[test]
fn adding_tabs_from_a_path_reports_the_count() {
    let mut w = workspace();
    let one = SessionState {
        tabs: vec![TabState { title: "t".to_string(), user_label: None, cwd: None, layout: None, focused_pane_id: None, agent_routing: Vec::new() }],
        active_tab: 0,
    };
    let effects = w.add_workspace_layout_tabs_from_path("/w/a.ghostty", &Ok(one), &vec![vec![5]], &Vec::new());
    assert_eq!(effects.last(), Some(&prompt(PromptLevel::Info, "Layout profile added", "Added 1 tab from /w/a.ghostty.")));
    let none = w.add_workspace_layout_tabs_from_path("/w", &Ok(SessionState { tabs: Vec::new(), active_tab: 0 }), &Vec::new(), &Vec::new());
    assert_eq!(none, vec![prompt(PromptLevel::Info, "Layout profile added", "Added 0 tabs from /w.")]);
    let err = w.add_workspace_layout_tabs_from_path("/w", &Err("bad".to_string()), &Vec::new(), &Vec::new());
    assert_eq!(err, vec![prompt(PromptLevel::Critical, "Could not open layout profile", "bad")]);
    assert_eq!(w.add_workspace_layout_tabs(), vec![WorkspaceEffect::PromptForWorkspaceLayoutPath { open_in_new_window: false }]);
    assert_eq!(w.open_workspace_layout_window(), vec![WorkspaceEffect::PromptForWorkspaceLayoutPath { open_in_new_window: true }]);
}

#[test]
fn active_pane_layout_omits_screen_text() {
    let w = workspace();
    let captures = vec![TerminalCapture { terminal: 1, cwd: Some("/h".to_string()), recent_lines: vec!["x".to_string()] }];
    match w.active_pane_layout(&captures) {
        PaneLayoutState::Leaf { cwd, surfaces, .. } => {
            assert_eq!(cwd.as_deref(), Some("/h"));
            assert!(surfaces[0].screen_text.is_empty());
        }
        _ => panic!("expected leaf"),
    }
}

#[test]
fn scope_tiles_label_and_number_panes() {
    let w = workspace();
    let mut display = HashMap::new();
    display.insert(3usize, 1usize);
    let mut selected = HashSet::new();
    selected.insert(3usize);
    let remote = PaneInfo { id: 3, name: "build".to_string(), hostname: Some("box".to_string()), is_alive: true, is_busy: false };
    let tile = w.render_scope_leaf(3, &remote, &display, &selected, 3);
    assert_eq!(tile.label, "box");
    assert_eq!(tile.status, PaneStatus::Ready);
    assert_eq!(tile.status_text.as_deref(), Some("remote"));
    assert!(tile.is_selected && tile.is_focused);
    assert_eq!(tile.number, 2);
    let unnamed = PaneInfo { id: 8, name: String::new(), hostname: None, is_alive: false, is_busy: true };
    let tile = w.render_scope_leaf(8, &unnamed, &display, &selected, 3);
    assert_eq!(tile.label, "Pane 8");
    assert_eq!(tile.status, PaneStatus::Offline);
    assert_eq!(tile.status_text.as_deref(), Some("offline"));
    assert_eq!(tile.number, 1);
    let mut panes = HashMap::new();
    panes.insert(0usize, PaneInfo { id: 0, name: "a".to_string(), hostname: None, is_alive: true, is_busy: true });
    match w.render_scope_node(&two_pane_layout(), &panes, &display, &selected, 0) {
        ScopeNode::Split { first, second, .. } => {
            match *first {
                ScopeNode::Tile(t) => {
                    assert_eq!(t.label, "a");
                    assert_eq!(t.status, PaneStatus::Busy);
                }
                _ => panic!("expected tile"),
            }
            assert_eq!(*second, ScopeNode::Placeholder);
        }
        _ => panic!("expected split"),
    }
}

#[test]
fn layout_prompts_carry_level_and_text() {
    let e = ConWorkspace::show_layout_profile_error("m", "d".to_string());
    assert_eq!(e, LayoutPrompt { level: PromptLevel::Critical, message: "m".to_string(), detail: "d".to_string() });
    let i = ConWorkspace::show_layout_profile_info("m", "d".to_string());
    assert_eq!(i.level, PromptLevel::Info);
}

#[test]
fn layout_export_root_prefers_the_terminal_folder() {
    let s = |v: &str| Some(v.to_string());
    assert_eq!(ConWorkspace::layout_profile_export_root(s("/repo/src"), s("/repo"), s("/home")), "/repo");
    assert_eq!(ConWorkspace::layout_profile_export_root(s("/tmp/x"), None, s("/home")), "/tmp/x");
    assert_eq!(ConWorkspace::layout_profile_export_root(None, None, s("/home")), "/home");
    assert_eq!(ConWorkspace::layout_profile_export_root(None, None, None), ".");
}

#[test]
fn opening_a_layout_in_a_new_window_reports_the_first_failure() {
    let err = |m: &str| Err::<(), String>(m.to_string());
    assert_eq!(
        ConWorkspace::open_layout_in_new_window(err("bad file"), err("x"), Ok(())),
        vec![prompt(PromptLevel::Critical, "Could not open layout profile", "bad file")]
    );
    assert_eq!(
        ConWorkspace::open_layout_in_new_window(Ok(()), err("no config"), Ok(())),
        vec![prompt(PromptLevel::Critical, "Could not load configuration", "no config")]
    );
    assert_eq!(
        ConWorkspace::open_layout_in_new_window(Ok(()), Ok(()), err("refused")),
        vec![prompt(PromptLevel::Critical, "Could not load native configuration", "refused")]
    );
    assert_eq!(
        ConWorkspace::open_layout_in_new_window(Ok(()), Ok(()), Ok(())),
        vec![WorkspaceEffect::OpenWindowWithLayout]
    );
}
