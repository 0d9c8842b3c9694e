use vstd::prelude::*;
use crate::pane_node::{NodeView, PaneId, TerminalId};
use crate::pane_tree::{PaneTree, SurfaceCreateOptions, surface_from, terminal_leaf};
use crate::layout::{PaneLayoutState, TerminalCapture, node_state, fallback_state, clone_lines, clone_opt_string};
use crate::restore::{
    TerminalRequest, layout_split_count, restore_requests, restore_requests_of, restore_slots,
    restored_focus, restored_root,
};
use crate::text::{decimal, is_blank, is_blank_str, prefixed_decimal, push_decimal};
use crate::layout::{LayoutView, PaneSplitDirection};
use std::collections::{HashMap, HashSet};

verus! {

/// A chrome element that slides in and out.
#[derive(Clone, Copy, Debug, PartialEq, Eq, Structural)]
pub enum ChromePanel {
    AgentPanel,
    InputBar,
}

/// How loud a layout-profile message is.
#[derive(Clone, Copy, Debug, PartialEq, Eq, Structural)]
pub enum PromptLevel {
    Info,
    Critical,
}

/// A message shown to the user about a layout profile.
#[derive(Debug, PartialEq, Eq)]
pub struct LayoutPrompt {
    pub level: PromptLevel,
    pub message: String,
    pub detail: String,
}

/// Work that a workspace decision hands to the window: focus moves,
/// animations, messages and persistence, performed in the listed order.
#[derive(Debug, PartialEq, Eq)]
pub enum WorkspaceEffect {
    /// Animate `panel` toward open or closed; the window picks the
    /// duration from the two given, in milliseconds.
    AnimatePanel { panel: ChromePanel, open: bool, open_ms: u32, close_ms: u32 },
    FocusInputBar,
    /// Focus the agent panel's inline input (next frame if it is not ready).
    FocusAgentInlineInput,
    /// Focus the workspace's terminal.
    FocusTerminal,
    /// Focus the active terminal, if there is one.
    FocusActiveTerminal,
    ClearSidebarRailOverride,
    ShowSidebarRailOnly,
    SetActivityBarLeftPanel { open: bool },
    SetBroadcastScope,
    SetFocusedScope,
    ToggleScopePane { pane_id: PaneId },
    SyncTerminalFocusStates,
    SetPersistedRestoreTerminalText { enabled: bool },
    FlushSessionSave,
    Prompt(LayoutPrompt),
    /// Reveal the saved layout file in the file manager.
    RevealSavedPath,
    PromptForWorkspaceLayoutPath { open_in_new_window: bool },
    SaveSession,
    Notify,
    /// Resynchronise the tab strip's motion with the tab count.
    SyncTabStripMotion,
    /// Hand the agent panel the state of tab `active_tab`, storing what it
    /// held in `previous_tab` when there is one.
    SwapAgentPanelState { active_tab: usize, previous_tab: Option<usize> },
    /// Unfocus and hide the native views of these terminals.
    HideTerminals { terminals: Vec<TerminalId> },
    /// Make sure these terminals have a rendering surface.
    EnsureTerminalSurfaces { terminals: Vec<TerminalId> },
    SyncActiveTabNativeViewVisibility,
    /// Focus this terminal.
    FocusTerminalOf { terminal: TerminalId },
    SyncSidebar,
    RequestTabSummaries,
    /// Open a new window on the layout that was loaded.
    OpenWindowWithLayout,
}

/// `e` shows an error with this message and detail.
pub open spec fn is_error_prompt(e: WorkspaceEffect, message: Seq<char>, detail: String) -> bool {
    e matches WorkspaceEffect::Prompt(p) && p.level == PromptLevel::Critical && p.message@ == message && p.detail == detail
}

/// A tab of the workspace.
pub struct Tab {
    pub pane_tree: PaneTree,
    pub title: String,
    pub user_label: Option<String>,
    pub summary_id: usize,
    /// Where the tab's agent requests go, one saved entry per line.
    pub agent_routing: Vec<String>,
}

/// The window-level state of a workspace: which chrome is shown, the tabs,
/// and the settings its decisions read.
pub struct ConWorkspace {
    pub agent_panel_open: bool,
    pub input_bar_visible: bool,
    pub left_panel_open: bool,
    /// With vertical tabs, whether the sidebar shows its tools rather than
    /// only the tab rail.
    pub sidebar_tools_open: bool,
    /// Whether tabs are shown as a vertical rail in the sidebar.
    pub vertical_tabs: bool,
    pub pane_scope_picker_open: bool,
    /// Whether terminal text is restored with a session.
    pub restore_terminal_text: bool,
    pub tabs: Vec<Tab>,
    pub active_tab: usize,
    pub next_tab_summary_id: usize,
}

/// Whether opening a new tab should reveal the vertical tab rail: tabs are
/// vertical and the left panel is closed.
pub open spec fn reveals_tab_rail(vertical_tabs: bool, left_panel_open: bool) -> bool {
    vertical_tabs && !left_panel_open
}

/// Whether opening a new tab should reveal the vertical tab rail.
pub fn should_reveal_vertical_tab_rail_for_new_tab(vertical_tabs: bool, left_panel_open: bool) -> (r:
    bool)
    ensures
        r == reveals_tab_rail(vertical_tabs, left_panel_open),
{
    vertical_tabs && !left_panel_open
}

/// The chrome flags, in order: agent panel, input bar, left panel, sidebar
/// tools, scope picker.
pub open spec fn chrome(w: ConWorkspace) -> (bool, bool, bool, bool, bool) {
    (w.agent_panel_open, w.input_bar_visible, w.left_panel_open, w.sidebar_tools_open, w.pane_scope_picker_open)
}

/// Where focus goes once the agent panel has opened or closed.
pub open spec fn agent_panel_focus(open: bool, input_bar_visible: bool) -> WorkspaceEffect {
    if open {
        if input_bar_visible {
            WorkspaceEffect::FocusInputBar
        } else {
            WorkspaceEffect::FocusAgentInlineInput
        }
    } else {
        WorkspaceEffect::FocusTerminal
    }
}

/// Where focus goes once the input bar has been shown or hidden.
pub open spec fn input_bar_focus(visible: bool, agent_panel_open: bool) -> WorkspaceEffect {
    if visible {
        WorkspaceEffect::FocusInputBar
    } else if agent_panel_open {
        WorkspaceEffect::FocusAgentInlineInput
    } else {
        WorkspaceEffect::FocusActiveTerminal
    }
}

/// The effects of a scope change: tell the input bar, resync terminal
/// focus, focus the input bar.
pub open spec fn scope_change_effects(first: WorkspaceEffect) -> Seq<WorkspaceEffect> {
    seq![first, WorkspaceEffect::SyncTerminalFocusStates, WorkspaceEffect::FocusInputBar]
}

/// The workspace with the agent panel flipped.
pub open spec fn agent_panel_toggled(w: ConWorkspace) -> ConWorkspace {
    ConWorkspace { agent_panel_open: !w.agent_panel_open, ..w }
}

/// The workspace with the input bar flipped; hiding it closes the picker.
pub open spec fn input_bar_toggled(w: ConWorkspace) -> ConWorkspace {
    ConWorkspace {
        input_bar_visible: !w.input_bar_visible,
        pane_scope_picker_open: w.pane_scope_picker_open && !w.input_bar_visible,
        ..w
    }
}

/// The workspace with the left panel flipped; without vertical tabs the
/// sidebar tools follow it.
pub open spec fn left_panel_toggled(w: ConWorkspace) -> ConWorkspace {
    ConWorkspace {
        left_panel_open: !w.left_panel_open,
        sidebar_tools_open: if w.vertical_tabs {
            w.sidebar_tools_open
        } else {
            !w.left_panel_open
        },
        ..w
    }
}

/// The workspace after a new tab asked for the vertical tab rail.
pub open spec fn tab_rail_revealed(w: ConWorkspace) -> ConWorkspace {
    if reveals_tab_rail(w.vertical_tabs, w.left_panel_open) {
        ConWorkspace { left_panel_open: true, sidebar_tools_open: false, ..w }
    } else {
        w
    }
}

/// The workspace with the left panel closed.
pub open spec fn sidebar_collapsed(w: ConWorkspace) -> ConWorkspace {
    ConWorkspace { left_panel_open: false, ..w }
}

/// The workspace with the scope picker flipped (the input bar shown), unless
/// the input bar is in agent mode or there is at most one pane.
pub open spec fn scope_picker_toggled(w: ConWorkspace, agent_mode: bool, pane_count: usize) -> ConWorkspace {
    if agent_mode || pane_count <= 1 {
        w
    } else {
        ConWorkspace { input_bar_visible: true, pane_scope_picker_open: !w.pane_scope_picker_open, ..w }
    }
}

/// The workspace with the scope picker closed.
pub open spec fn scope_picker_closed(w: ConWorkspace) -> ConWorkspace {
    ConWorkspace { pane_scope_picker_open: false, ..w }
}

impl ConWorkspace {
    /// Opens or closes the agent panel, moving focus into it or back to
    /// the terminal, and saves the session.
    pub fn toggle_agent_panel(&mut self) -> (r: Vec<WorkspaceEffect>)
        ensures
            *final(self) == agent_panel_toggled(*old(self)),
            r@.len() == 4,
            r@[1] == WorkspaceEffect::FocusInputBar ==> final(self).input_bar_visible && final(self).agent_panel_open,
            final(self).agent_panel_open && !final(self).input_bar_visible ==> r@[1] == WorkspaceEffect::FocusAgentInlineInput,
            !final(self).agent_panel_open ==> r@[1] == WorkspaceEffect::FocusTerminal,
            final(self).agent_panel_open && final(self).input_bar_visible ==> r@[1] == WorkspaceEffect::FocusInputBar,
            r@ == seq![
                WorkspaceEffect::AnimatePanel {
                    panel: ChromePanel::AgentPanel,
                    open: !old(self).agent_panel_open,
                    open_ms: 290,
                    close_ms: 220,
                },
                agent_panel_focus(!old(self).agent_panel_open, old(self).input_bar_visible),
                WorkspaceEffect::SaveSession,
                WorkspaceEffect::Notify,
            ],
    {
        self.agent_panel_open = !self.agent_panel_open;
        let focus = if self.agent_panel_open {
            if self.input_bar_visible {
                WorkspaceEffect::FocusInputBar
            } else {
                WorkspaceEffect::FocusAgentInlineInput
            }
        } else {
            WorkspaceEffect::FocusTerminal
        };
        let mut r = Vec::new();
        r.push(
            WorkspaceEffect::AnimatePanel {
                panel: ChromePanel::AgentPanel,
                open: self.agent_panel_open,
                open_ms: 290,
                close_ms: 220,
            },
        );
        r.push(focus);
        r.push(WorkspaceEffect::SaveSession);
        r.push(WorkspaceEffect::Notify);
        r
    }

    /// Shows or hides the input bar (hiding it closes the scope picker),
    /// moves focus accordingly, and saves the session.
    pub fn toggle_input_bar(&mut self) -> (r: Vec<WorkspaceEffect>)
        ensures
            *final(self) == input_bar_toggled(*old(self)),
            r@.len() == 4,
            r@[1] == WorkspaceEffect::FocusInputBar ==> final(self).input_bar_visible,
            r@[1] == WorkspaceEffect::FocusAgentInlineInput ==> final(self).agent_panel_open,
            final(self).input_bar_visible ==> r@[1] == WorkspaceEffect::FocusInputBar,
            !final(self).input_bar_visible && final(self).agent_panel_open ==> r@[1] == WorkspaceEffect::FocusAgentInlineInput,
            !final(self).input_bar_visible && !final(self).agent_panel_open ==> r@[1] == WorkspaceEffect::FocusActiveTerminal,
            r@ == seq![
                WorkspaceEffect::AnimatePanel {
                    panel: ChromePanel::InputBar,
                    open: !old(self).input_bar_visible,
                    open_ms: 210,
                    close_ms: 160,
                },
                input_bar_focus(!old(self).input_bar_visible, old(self).agent_panel_open),
                WorkspaceEffect::SaveSession,
                WorkspaceEffect::Notify,
            ],
    {
        self.input_bar_visible = !self.input_bar_visible;
        if !self.input_bar_visible {
            self.pane_scope_picker_open = false;
        }
        let focus = if self.input_bar_visible {
            WorkspaceEffect::FocusInputBar
        } else if self.agent_panel_open {
            WorkspaceEffect::FocusAgentInlineInput
        } else {
            WorkspaceEffect::FocusActiveTerminal
        };
        let mut r = Vec::new();
        r.push(
            WorkspaceEffect::AnimatePanel {
                panel: ChromePanel::InputBar,
                open: self.input_bar_visible,
                open_ms: 210,
                close_ms: 160,
            },
        );
        r.push(focus);
        r.push(WorkspaceEffect::SaveSession);
        r.push(WorkspaceEffect::Notify);
        r
    }

    /// Opens or closes the left panel. Without vertical tabs the sidebar
    /// tools follow it; with them, closing drops the rail-only override.
    pub fn toggle_left_panel(&mut self) -> (r: Vec<WorkspaceEffect>)
        ensures
            *final(self) == left_panel_toggled(*old(self)),
            ({
                let left = !old(self).left_panel_open;
                let tools = if old(self).vertical_tabs {
                    old(self).sidebar_tools_open
                } else {
                    left
                };
                r@ == (if old(self).vertical_tabs && !left {
                    seq![WorkspaceEffect::ClearSidebarRailOverride]
                } else {
                    Seq::empty()
                }) + seq![
                    WorkspaceEffect::SetActivityBarLeftPanel {
                        open: if old(self).vertical_tabs {
                            tools
                        } else {
                            left
                        },
                    },
                    WorkspaceEffect::SaveSession,
                    WorkspaceEffect::Notify,
                ]
            }),
    {
        let mut r = Vec::new();
        self.left_panel_open = !self.left_panel_open;
        if !self.vertical_tabs {
            self.sidebar_tools_open = self.left_panel_open;
        } else if !self.left_panel_open {
            r.push(WorkspaceEffect::ClearSidebarRailOverride);
        }
        let bar_open = if self.vertical_tabs {
            self.sidebar_tools_open
        } else {
            self.left_panel_open
        };
        let ghost head = r@;
        r.push(WorkspaceEffect::SetActivityBarLeftPanel { open: bar_open });
        r.push(WorkspaceEffect::SaveSession);
        r.push(WorkspaceEffect::Notify);
        proof {
            assert(r@ =~= head + seq![
                WorkspaceEffect::SetActivityBarLeftPanel { open: bar_open },
                WorkspaceEffect::SaveSession,
                WorkspaceEffect::Notify,
            ]);
        }
        r
    }

    /// When a new tab opens with vertical tabs and the left panel closed,
    /// shows the tab rail (without the sidebar tools).
    pub fn reveal_vertical_tab_rail_for_new_tab_if_needed(&mut self) -> (r: Vec<WorkspaceEffect>)
        ensures
            *final(self) == tab_rail_revealed(*old(self)),
            r@ == (if reveals_tab_rail(old(self).vertical_tabs, old(self).left_panel_open) {
                seq![
                    WorkspaceEffect::ShowSidebarRailOnly,
                    WorkspaceEffect::SetActivityBarLeftPanel { open: false },
                    WorkspaceEffect::Notify,
                ]
            } else {
                Seq::empty()
            }),
    {
        let mut r = Vec::new();
        if !should_reveal_vertical_tab_rail_for_new_tab(self.vertical_tabs, self.left_panel_open) {
            return r;
        }
        self.left_panel_open = true;
        self.sidebar_tools_open = false;
        r.push(WorkspaceEffect::ShowSidebarRailOnly);
        r.push(WorkspaceEffect::SetActivityBarLeftPanel { open: false });
        r.push(WorkspaceEffect::Notify);
        r
    }

    /// Closes the left panel if it is open.
    pub fn collapse_sidebar(&mut self) -> (r: Vec<WorkspaceEffect>)
        ensures
            *final(self) == sidebar_collapsed(*old(self)),
            r@ == (if old(self).left_panel_open {
                seq![
                    WorkspaceEffect::ClearSidebarRailOverride,
                    WorkspaceEffect::SetActivityBarLeftPanel { open: false },
                    WorkspaceEffect::SaveSession,
                    WorkspaceEffect::Notify,
                ]
            } else {
                Seq::empty()
            }),
    {
        let mut r = Vec::new();
        if !self.left_panel_open {
            return r;
        }
        self.left_panel_open = false;
        r.push(WorkspaceEffect::ClearSidebarRailOverride);
        r.push(WorkspaceEffect::SetActivityBarLeftPanel { open: false });
        r.push(WorkspaceEffect::SaveSession);
        r.push(WorkspaceEffect::Notify);
        r
    }

    /// Opens or closes the pane-scope picker, showing the input bar first
    /// when it is hidden. Nothing happens in agent mode or with a single pane.
    pub fn toggle_pane_scope_picker(&mut self, agent_mode: bool, pane_count: usize) -> (r: Vec<
        WorkspaceEffect,
    >)
        ensures
            *final(self) == scope_picker_toggled(*old(self), agent_mode, pane_count),
            agent_mode || pane_count <= 1 ==> r@.len() == 0,
            !(agent_mode || pane_count <= 1) ==> {
                r@ == (if !old(self).input_bar_visible {
                    seq![
                        WorkspaceEffect::AnimatePanel {
                            panel: ChromePanel::InputBar,
                            open: true,
                            open_ms: 180,
                            close_ms: 180,
                        },
                    ]
                } else {
                    Seq::empty()
                }) + (if !old(self).pane_scope_picker_open {
                    seq![WorkspaceEffect::FocusInputBar]
                } else {
                    Seq::empty()
                }) + seq![WorkspaceEffect::Notify]
            },
    {
        let mut r = Vec::new();
        if agent_mode || pane_count <= 1 {
            return r;
        }
        if !self.input_bar_visible {
            self.input_bar_visible = true;
            r.push(
                WorkspaceEffect::AnimatePanel {
                    panel: ChromePanel::InputBar,
                    open: true,
                    open_ms: 180,
                    close_ms: 180,
                },
            );
        }
        let ghost a = r@;
        self.pane_scope_picker_open = !self.pane_scope_picker_open;
        if self.pane_scope_picker_open {
            r.push(WorkspaceEffect::FocusInputBar);
        }
        let ghost b = r@;
        r.push(WorkspaceEffect::Notify);
        proof {
            assert(b =~= a + (if !old(self).pane_scope_picker_open {
                seq![WorkspaceEffect::FocusInputBar]
            } else {
                Seq::empty()
            }));
            assert(r@ =~= b + seq![WorkspaceEffect::Notify]);
        }
        r
    }

    /// Closes the pane-scope picker if it is open.
    pub fn close_pane_scope_picker(&mut self) -> (r: Vec<WorkspaceEffect>)
        ensures
            *final(self) == scope_picker_closed(*old(self)),
            r@ == (if old(self).pane_scope_picker_open {
                seq![WorkspaceEffect::Notify]
            } else {
                Seq::empty()
            }),
    {
        let mut r = Vec::new();
        if self.pane_scope_picker_open {
            self.pane_scope_picker_open = false;
            r.push(WorkspaceEffect::Notify);
        }
        r
    }

    /// Sends input to every pane.
    pub fn set_scope_broadcast(&self) -> (r: Vec<WorkspaceEffect>)
        ensures
            r@ == scope_change_effects(WorkspaceEffect::SetBroadcastScope).push(WorkspaceEffect::Notify),
    {
        let mut r = Vec::new();
        r.push(WorkspaceEffect::SetBroadcastScope);
        r.push(WorkspaceEffect::SyncTerminalFocusStates);
        r.push(WorkspaceEffect::FocusInputBar);
        r.push(WorkspaceEffect::Notify);
        r
    }

    /// Sends input to the focused pane only.
    pub fn set_scope_focused(&self) -> (r: Vec<WorkspaceEffect>)
        ensures
            r@ == scope_change_effects(WorkspaceEffect::SetFocusedScope).push(WorkspaceEffect::Notify),
    {
        let mut r = Vec::new();
        r.push(WorkspaceEffect::SetFocusedScope);
        r.push(WorkspaceEffect::SyncTerminalFocusStates);
        r.push(WorkspaceEffect::FocusInputBar);
        r.push(WorkspaceEffect::Notify);
        r
    }

    /// Adds pane `pane_id` to the input scope, or takes it out.
    pub fn toggle_scope_pane_by_id(&self, pane_id: PaneId) -> (r: Vec<WorkspaceEffect>)
        ensures
            r@ == scope_change_effects(WorkspaceEffect::ToggleScopePane { pane_id }),
    {
        let mut r = Vec::new();
        r.push(WorkspaceEffect::ToggleScopePane { pane_id });
        r.push(WorkspaceEffect::SyncTerminalFocusStates);
        r.push(WorkspaceEffect::FocusInputBar);
        r
    }

    /// Toggles the pane at position `pane_index` of the input bar's pane
    /// list (`pane_ids`); nothing when there is no such position.
    pub fn toggle_scope_pane_by_index(&self, pane_ids: &Vec<PaneId>, pane_index: usize) -> (r: Vec<
        WorkspaceEffect,
    >)
        ensures
            r@ == (if pane_index < pane_ids@.len() {
                scope_change_effects(WorkspaceEffect::ToggleScopePane { pane_id: pane_ids@[pane_index as int] })
            } else {
                Seq::empty()
            }),
    {
        if pane_index < pane_ids.len() {
            self.toggle_scope_pane_by_id(pane_ids[pane_index])
        } else {
            Vec::new()
        }
    }

    /// Where layout profiles are exported: the active terminal's folder
    /// (`terminal_dir`, resolved), or the root of the git work tree it is
    /// in (`git_root`); else the process's folder (`process_dir`); else `.`.
    pub fn layout_profile_export_root(
        terminal_dir: Option<String>,
        git_root: Option<String>,
        process_dir: Option<String>,
    ) -> (r: String)
        ensures
            r@ == match terminal_dir {
                Some(d) => match git_root {
                    Some(g) => g@,
                    None => d@,
                },
                None => match process_dir {
                    Some(p) => p@,
                    None => "."@,
                },
            },
    {
        match terminal_dir {
            Some(d) => match git_root {
                Some(g) => g,
                None => d,
            },
            None => match process_dir {
                Some(p) => p,
                None => ".".to_owned(),
            },
        }
    }

    /// Opening a chosen layout in a new window: the layout must load
    /// (`session_loaded`), then the configuration (`config_loaded`), then
    /// the platform must accept it (`native_check`); the first failure is
    /// shown, else the window opens.
    pub fn open_layout_in_new_window(
        session_loaded: Result<(), String>,
        config_loaded: Result<(), String>,
        native_check: Result<(), String>,
    ) -> (r: Vec<WorkspaceEffect>)
        ensures
            match (session_loaded, config_loaded, native_check) {
                (Err(e), _, _) => r@.len() == 1 && is_error_prompt(r@[0], "Could not open layout profile"@, e),
                (Ok(_), Err(e), _) => r@.len() == 1 && is_error_prompt(r@[0], "Could not load configuration"@, e),
                (Ok(_), Ok(_), Err(e)) => r@.len() == 1 && is_error_prompt(r@[0], "Could not load native configuration"@, e),
                (Ok(_), Ok(_), Ok(_)) => r@ == seq![WorkspaceEffect::OpenWindowWithLayout],
            },
    {
        let mut r = Vec::new();
        match session_loaded {
            Err(e) => {
                r.push(WorkspaceEffect::Prompt(Self::show_layout_profile_error("Could not open layout profile", e)));
                return r;
            },
            Ok(_) => {},
        }
        match config_loaded {
            Err(e) => {
                r.push(WorkspaceEffect::Prompt(Self::show_layout_profile_error("Could not load configuration", e)));
                return r;
            },
            Ok(_) => {},
        }
        match native_check {
            Err(e) => {
                r.push(
                    WorkspaceEffect::Prompt(Self::show_layout_profile_error("Could not load native configuration", e)),
                );
            },
            Ok(_) => {
                r.push(WorkspaceEffect::OpenWindowWithLayout);
            },
        }
        r
    }

    /// A message for a layout-profile operation that failed.
    pub fn show_layout_profile_error(message: &str, detail: String) -> (r: LayoutPrompt)
        ensures
            r.level == PromptLevel::Critical,
            r.message@ == message@,
            r.detail == detail,
    {
        LayoutPrompt { level: PromptLevel::Critical, message: message.to_owned(), detail }
    }

    /// A message for a layout-profile operation that succeeded.
    pub fn show_layout_profile_info(message: &str, detail: String) -> (r: LayoutPrompt)
        ensures
            r.level == PromptLevel::Info,
            r.message@ == message@,
            r.detail == detail,
    {
        LayoutPrompt { level: PromptLevel::Info, message: message.to_owned(), detail }
    }

    /// Asks for a layout file or project folder whose tabs join this window.
    pub fn add_workspace_layout_tabs(&self) -> (r: Vec<WorkspaceEffect>)
        ensures
            r@ == seq![WorkspaceEffect::PromptForWorkspaceLayoutPath { open_in_new_window: false }],
    {
        let mut r = Vec::new();
        r.push(WorkspaceEffect::PromptForWorkspaceLayoutPath { open_in_new_window: false });
        r
    }

    /// Asks for a layout file or project folder to open in a new window.
    pub fn open_workspace_layout_window(&self) -> (r: Vec<WorkspaceEffect>)
        ensures
            r@ == seq![WorkspaceEffect::PromptForWorkspaceLayoutPath { open_in_new_window: true }],
    {
        let mut r = Vec::new();
        r.push(WorkspaceEffect::PromptForWorkspaceLayoutPath { open_in_new_window: true });
        r
    }

    /// The terminals of the active tab whose mouse selection is to be
    /// released: every shown terminal, or none when no tab is active.
    pub fn release_active_terminal_mouse_selection(&self) -> (r: Vec<TerminalId>)
        ensures
            r@ == (if self.active_tab < self.tabs@.len() {
                self.tabs@[self.active_tab as int].pane_tree.root_view().shown_terminals()
            } else {
                Seq::empty()
            }),
    {
        if self.active_tab >= self.tabs.len() {
            return Vec::new();
        }
        self.tabs[self.active_tab].pane_tree.all_terminals()
    }

    /// The layout of the active tab, without screen text.
    pub fn active_pane_layout(&self, captures: &Vec<TerminalCapture>) -> (r: PaneLayoutState)
        requires
            self.active_tab < self.tabs@.len(),
        ensures
            r@ == match node_state(
                self.tabs@[self.active_tab as int].pane_tree.root_view(),
                captures@,
                false,
            ) {
                Some(l) => l,
                None => fallback_state(self.tabs@[self.active_tab as int].pane_tree.focused()),
            },
    {
        self.tabs[self.active_tab].pane_tree.to_state(captures, false)
    }
}


/// A persisted tab.
pub struct TabState {
    pub title: String,
    pub user_label: Option<String>,
    pub cwd: Option<String>,
    pub layout: Option<PaneLayoutState>,
    pub focused_pane_id: Option<PaneId>,
    /// The saved agent routing of the tab (empty when none was saved).
    pub agent_routing: Vec<String>,
}

/// A persisted window: its tabs and the active one.
pub struct SessionState {
    pub tabs: Vec<TabState>,
    pub active_tab: usize,
}

/// Whether `terms` are the terminals that restoring the tab needs: those of
/// its layout's restore requests, or a single one for a tab without layout.
pub open spec fn tab_terminals_fit(ts: TabState, terms: Seq<TerminalId>) -> bool {
    match ts.layout {
        Some(l) => terms.len() == restore_slots(l@) && layout_split_count(l@) <= usize::MAX,
        None => terms.len() == 1,
    }
}

/// The title of a restored tab: its own, or "Terminal N" (N one past its
/// summary id) when that is blank.
pub open spec fn restored_tab_title(title: Seq<char>, summary_id: usize) -> Seq<char> {
    if is_blank(title) {
        "Terminal "@ + decimal((summary_id + 1) as nat)
    } else {
        title
    }
}

/// `t` is the tab restored from `ts` with terminals `terms` and summary id `id`.
pub open spec fn is_restored_tab(t: Tab, ts: TabState, terms: Seq<TerminalId>, id: usize, default_routing: Seq<String>) -> bool {
    &&& t.summary_id == id
    &&& t.agent_routing@ == (if ts.agent_routing@.len() == 0 { default_routing } else { ts.agent_routing@ })
    &&& t.title@ == restored_tab_title(ts.title@, id)
    &&& t.user_label == ts.user_label
    &&& t.pane_tree.wf()
    &&& t.pane_tree.zoomed() is None
    &&& match ts.layout {
        Some(l) => {
            &&& t.pane_tree.root_view() == restored_root(l@, terms)
            &&& t.pane_tree.focused() == restored_focus(t.pane_tree.root_view(), ts.focused_pane_id)
        },
        None => {
            &&& t.pane_tree.root_view() == terminal_leaf(
                0,
                surface_from(0, terms[0], SurfaceCreateOptions { title: None, owner: None, close_pane_when_last: false }),
            )
            &&& t.pane_tree.focused() == 0
        },
    }
}

/// The terminal a tree focuses: its focused pane's, else its first one.
pub open spec fn focus_terminal_of(t: PaneTree) -> Option<TerminalId> {
    match t.root_view().terminal_of(t.focused()) {
        Some(x) => Some(x),
        None => match t.root_view().first_terminal() {
            Some(p) => Some(p.1),
            None => None,
        },
    }
}

/// Every surface terminal of the tabs before `n`, except tab `active`.
pub open spec fn background_terminals(tabs: Seq<Tab>, active: int, n: int) -> Seq<TerminalId>
    decreases n,
{
    if n <= 0 {
        Seq::empty()
    } else {
        background_terminals(tabs, active, n - 1) + (if n - 1 == active {
            Seq::empty()
        } else {
            tabs[n - 1].pane_tree.root_view().all_surface_terminals()
        })
    }
}

/// The effects of appending restored tabs and switching to tab `active`.
pub open spec fn appended_session_effects(e: Seq<WorkspaceEffect>, tabs: Seq<Tab>, active: int, previous: int) -> bool {
    let t = tabs[active].pane_tree;
    let focus = match focus_terminal_of(t) {
        Some(x) => seq![WorkspaceEffect::FocusTerminalOf { terminal: x }],
        None => Seq::empty(),
    };
    let tail = seq![
        WorkspaceEffect::SyncTerminalFocusStates,
        WorkspaceEffect::SyncSidebar,
        WorkspaceEffect::RequestTabSummaries,
        WorkspaceEffect::SaveSession,
        WorkspaceEffect::Notify,
    ];
    &&& e.len() == 5 + focus.len() + 5
    &&& e[0] == WorkspaceEffect::SyncTabStripMotion
    &&& e[1] == WorkspaceEffect::SwapAgentPanelState {
        active_tab: active as usize,
        previous_tab: if previous < tabs.len() { Some(previous as usize) } else { None },
    }
    &&& e[2] matches WorkspaceEffect::HideTerminals { terminals } && terminals@ == background_terminals(tabs, active, tabs.len() as int)
    &&& e[3] matches WorkspaceEffect::EnsureTerminalSurfaces { terminals } && terminals@ == t.root_view().shown_terminals()
    &&& e[4] == WorkspaceEffect::SyncActiveTabNativeViewVisibility
    &&& e.subrange(5, 5 + focus.len() as int) == focus
    &&& e.subrange(5 + focus.len() as int, e.len() as int) == tail
}

/// `e` is a single prompt with this level, message and detail.
pub open spec fn is_prompt(e: WorkspaceEffect, level: PromptLevel, message: Seq<char>, detail: Seq<char>) -> bool {
    e matches WorkspaceEffect::Prompt(p) && p.level == level && p.message@ == message && p.detail@ == detail
}

/// The note added under a saved layout profile's path.
pub open spec fn layout_profile_note() -> Seq<char> {
    "\n\nThe file contains layout intent only: tabs, panes, surfaces, cwd, and agent defaults. It does not include terminal text, command history, conversations, credentials, or commands to run."@
}

/// "Added N tab(s) from PATH."
pub open spec fn added_tabs_detail(count: nat, path: Seq<char>) -> Seq<char> {
    "Added "@ + decimal(count) + " tab"@ + (if count == 1 { ""@ } else { "s"@ }) + " from "@ + path + "."@
}

impl ConWorkspace {
    /// A window with one tab, chrome closed but for the input bar.
    pub fn new(first_tab: Tab, vertical_tabs: bool, restore_terminal_text: bool) -> (r: Self)
        ensures
            r.tabs@ == seq![first_tab],
            r.active_tab == 0,
            r.next_tab_summary_id == first_tab.summary_id + 1 || first_tab.summary_id == usize::MAX,
            r.vertical_tabs == vertical_tabs,
            r.restore_terminal_text == restore_terminal_text,
            chrome(r) == (false, true, false, false, false),
    {
        let next = first_tab.summary_id.saturating_add(1);
        let mut tabs = Vec::new();
        tabs.push(first_tab);
        ConWorkspace {
            agent_panel_open: false,
            input_bar_visible: true,
            left_panel_open: false,
            sidebar_tools_open: false,
            vertical_tabs,
            pane_scope_picker_open: false,
            restore_terminal_text,
            tabs,
            active_tab: 0,
            next_tab_summary_id: next,
        }
    }

    /// Turns off terminal-text restore once the configuration with it off
    /// has been saved (`save_result`); on failure nothing changes and the
    /// error is shown.
    pub fn clear_restored_terminal_history(&mut self, save_result: Result<(), String>) -> (r: Vec<
        WorkspaceEffect,
    >)
        ensures
            match save_result {
                Err(e) => {
                    &&& *final(self) == *old(self)
                    &&& r@.len() == 1
                    &&& is_prompt(r@[0], PromptLevel::Critical, "Could not clear restored terminal history"@, e@)
                },
                Ok(_) => {
                    &&& *final(self) == (ConWorkspace { restore_terminal_text: false, ..*old(self) })
                    &&& r@.len() == 3
                    &&& r@[0] == WorkspaceEffect::SetPersistedRestoreTerminalText { enabled: false }
                    &&& r@[1] == WorkspaceEffect::FlushSessionSave
                    &&& is_prompt(
                        r@[2],
                        PromptLevel::Info,
                        "Restored terminal history cleared"@,
                        "Terminal text restore is now off. Re-enable it in Settings > General > Continuity."@,
                    )
                },
            },
    {
        let mut r = Vec::new();
        match save_result {
            Err(e) => {
                r.push(
                    WorkspaceEffect::Prompt(
                        Self::show_layout_profile_error("Could not clear restored terminal history", e),
                    ),
                );
            },
            Ok(_) => {
                self.restore_terminal_text = false;
                r.push(WorkspaceEffect::SetPersistedRestoreTerminalText { enabled: false });
                r.push(WorkspaceEffect::FlushSessionSave);
                r.push(
                    WorkspaceEffect::Prompt(
                        Self::show_layout_profile_info(
                            "Restored terminal history cleared",
                            "Terminal text restore is now off. Re-enable it in Settings > General > Continuity.".to_owned(),
                        ),
                    ),
                );
            },
        }
        r
    }

    /// Reports the outcome of saving the current layout to the file shown
    /// as `path`: the error, or the path with a note on what the file holds,
    /// after which the file is revealed.
    pub fn save_current_layout_profile_to(&self, path: &str, save_result: Result<(), String>) -> (r:
        Vec<WorkspaceEffect>)
        ensures
            match save_result {
                Err(e) => r@.len() == 1 && is_prompt(r@[0], PromptLevel::Critical, "Could not save layout profile"@, e@),
                Ok(_) => {
                    &&& r@.len() == 2
                    &&& is_prompt(r@[0], PromptLevel::Info, "Layout profile saved"@, path@ + layout_profile_note())
                    &&& r@[1] == WorkspaceEffect::RevealSavedPath
                },
            },
    {
        let mut r = Vec::new();
        match save_result {
            Err(e) => {
                r.push(WorkspaceEffect::Prompt(Self::show_layout_profile_error("Could not save layout profile", e)));
            },
            Ok(_) => {
                let mut detail = path.to_owned();
                detail.append("\n\nThe file contains layout intent only: tabs, panes, surfaces, cwd, and agent defaults. It does not include terminal text, command history, conversations, credentials, or commands to run.");
                r.push(WorkspaceEffect::Prompt(Self::show_layout_profile_info("Layout profile saved", detail)));
                r.push(WorkspaceEffect::RevealSavedPath);
            },
        }
        r
    }

    /// The terminals to create for restoring `tab_state`: those its layout
    /// asks for, or one in its directory when it has no layout.
    pub fn tab_terminal_requests(&self, tab_state: &TabState, error_owner: &String) -> (r: Vec<TerminalRequest>)
        ensures
            match tab_state.layout {
                Some(l) => {
                    &&& r@.len() == restore_requests_of(l@, self.restore_terminal_text, error_owner@).len()
                    &&& forall|i: int| 0 <= i < r@.len() ==> (#[trigger] r@[i])@ == restore_requests_of(l@, self.restore_terminal_text, error_owner@)[i]
                },
                None => r@.len() == 1 && r@[0].cwd == tab_state.cwd && r@[0].screen_text is None,
            },
    {
        match &tab_state.layout {
            Some(l) => restore_requests(l, self.restore_terminal_text, error_owner),
            None => {
                let mut r = Vec::new();
                r.push(TerminalRequest { cwd: clone_opt_string(&tab_state.cwd), screen_text: None });
                r
            },
        }
    }

    /// Builds a tab from its persisted state, with `terminals` created for
    /// `tab_terminal_requests`, and numbers it with the next summary id.
    pub fn tab_from_state(&mut self, tab_state: &TabState, terminals: &Vec<TerminalId>, default_routing: &Vec<String>) -> (r: Tab)
        requires
            tab_terminals_fit(*tab_state, terminals@),
            old(self).next_tab_summary_id < usize::MAX,
        ensures
            *final(self) == (ConWorkspace { next_tab_summary_id: (old(self).next_tab_summary_id + 1) as usize, ..*old(self) }),
            is_restored_tab(r, *tab_state, terminals@, old(self).next_tab_summary_id, default_routing@),
    {
        let pane_tree = match &tab_state.layout {
            Some(l) => PaneTree::from_state(l, tab_state.focused_pane_id, terminals),
            None => PaneTree::new(terminals[0]),
        };
        let summary_id = self.next_tab_summary_id;
        self.next_tab_summary_id = self.next_tab_summary_id + 1;
        let title = if is_blank_str(tab_state.title.as_str()) {
            prefixed_decimal("Terminal ", summary_id + 1)
        } else {
            tab_state.title.clone()
        };
        let agent_routing = if tab_state.agent_routing.len() == 0 {
            clone_lines(default_routing)
        } else {
            clone_lines(&tab_state.agent_routing)
        };
        Tab { pane_tree, title, user_label: clone_opt_string(&tab_state.user_label), summary_id, agent_routing }
    }
}


/// `terminals[i]` fit tab `i` of the session, and the workspace can number
/// and hold its tabs.
pub open spec fn session_fits(w: ConWorkspace, session: SessionState, terminals: Seq<Vec<TerminalId>>) -> bool {
    &&& terminals.len() == session.tabs@.len()
    &&& forall|i: int| 0 <= i < terminals.len() ==> tab_terminals_fit(session.tabs@[i], #[trigger] terminals[i]@)
    &&& w.next_tab_summary_id + session.tabs@.len() < usize::MAX
    &&& w.tabs@.len() + session.tabs@.len() <= usize::MAX
}

/// `w` is `old` with the session's tabs appended (restored in order, with
/// consecutive summary ids) and the session's active tab made active.
pub open spec fn appended_session(
    w: ConWorkspace,
    old: ConWorkspace,
    session: SessionState,
    terminals: Seq<Vec<TerminalId>>,
    default_routing: Seq<String>,
) -> bool {
    let n = old.tabs@.len();
    let k = session.tabs@.len();
    &&& w.tabs@.len() == n + k
    &&& forall|j: int| 0 <= j < n ==> #[trigger] w.tabs@[j] == old.tabs@[j]
    &&& forall|i: int| 0 <= i < k ==> is_restored_tab(
        #[trigger] w.tabs@[n + i],
        session.tabs@[i],
        terminals[i]@,
        (old.next_tab_summary_id + i) as usize,
        default_routing,
    )
    &&& w.next_tab_summary_id == old.next_tab_summary_id + k
    &&& w.active_tab == n + (if session.active_tab < k { session.active_tab as int } else { k - 1 })
    &&& chrome(w) == chrome(old)
    &&& w.vertical_tabs == old.vertical_tabs
    &&& w.restore_terminal_text == old.restore_terminal_text
}

impl ConWorkspace {
    /// Appends the tabs of a loaded session (`terminals[i]` created for
    /// tab `i`'s requests) and switches to its active tab, hiding the
    /// terminals of every other tab. An empty session changes nothing.
    pub fn append_workspace_layout_session(
        &mut self,
        session: &SessionState,
        terminals: &Vec<Vec<TerminalId>>,
        default_routing: &Vec<String>,
    ) -> (r: Vec<WorkspaceEffect>)
        requires
            session_fits(*old(self), *session, terminals@),
        ensures
            session.tabs@.len() == 0 ==> *final(self) == *old(self) && r@.len() == 0,
            session.tabs@.len() > 0 ==> {
                &&& appended_session(*final(self), *old(self), *session, terminals@, default_routing@)
                &&& appended_session_effects(r@, final(self).tabs@, final(self).active_tab as int, old(self).active_tab as int)
            },
    {
        let mut r: Vec<WorkspaceEffect> = Vec::new();
        if session.tabs.len() == 0 {
            return r;
        }
        let ghost old_self = *self;
        let old_active = self.active_tab;
        let first_new = self.tabs.len();
        let imported_active = if session.active_tab < session.tabs.len() {
            session.active_tab
        } else {
            session.tabs.len() - 1
        };
        let mut i: usize = 0;
        while i < session.tabs.len()
            invariant
                i <= session.tabs@.len(),
                session_fits(old_self, *session, terminals@),
                self.tabs@.len() == first_new + i,
                first_new == old_self.tabs@.len(),
                forall|j: int| 0 <= j < first_new ==> #[trigger] self.tabs@[j] == old_self.tabs@[j],
                forall|j: int| 0 <= j < i ==> is_restored_tab(
                    #[trigger] self.tabs@[first_new + j],
                    session.tabs@[j],
                    terminals@[j]@,
                    (old_self.next_tab_summary_id + j) as usize,
                    default_routing@,
                ),
                self.next_tab_summary_id == old_self.next_tab_summary_id + i,
                self.active_tab == old_self.active_tab,
                chrome(*self) == chrome(old_self),
                self.vertical_tabs == old_self.vertical_tabs,
                self.restore_terminal_text == old_self.restore_terminal_text,
            decreases session.tabs@.len() - i,
        {
            proof {
                assert(tab_terminals_fit(session.tabs@[i as int], terminals@[i as int]@));
            }
            let tab = self.tab_from_state(&session.tabs[i], &terminals[i], default_routing);
            self.tabs.push(tab);
            i = i + 1;
        }
        r.push(WorkspaceEffect::SyncTabStripMotion);
        self.active_tab = first_new + imported_active;
        let previous_tab = if old_active < self.tabs.len() {
            Some(old_active)
        } else {
            None
        };
        r.push(WorkspaceEffect::SwapAgentPanelState { active_tab: self.active_tab, previous_tab });
        let mut hidden: Vec<TerminalId> = Vec::new();
        let mut t: usize = 0;
        while t < self.tabs.len()
            invariant
                t <= self.tabs@.len(),
                hidden@ == background_terminals(self.tabs@, self.active_tab as int, t as int),
            decreases self.tabs@.len() - t,
        {
            if t != self.active_tab {
                let more = self.tabs[t].pane_tree.all_surface_terminals();
                let mut m: usize = 0;
                let ghost base = hidden@;
                while m < more.len()
                    invariant
                        m <= more@.len(),
                        hidden@ == base + more@.subrange(0, m as int),
                    decreases more@.len() - m,
                {
                    hidden.push(more[m]);
                    m = m + 1;
                    proof {
                        assert(more@.subrange(0, m as int) =~= more@.subrange(0, m - 1).push(more@[m - 1]));
                    }
                }
                proof {
                    assert(more@.subrange(0, more@.len() as int) =~= more@);
                }
            } else {
                proof {
                    assert(hidden@ + Seq::<TerminalId>::empty() =~= hidden@);
                }
            }
            t = t + 1;
        }
        r.push(WorkspaceEffect::HideTerminals { terminals: hidden });
        r.push(WorkspaceEffect::EnsureTerminalSurfaces { terminals: self.tabs[self.active_tab].pane_tree.all_terminals() });
        r.push(WorkspaceEffect::SyncActiveTabNativeViewVisibility);
        let ghost before_focus = r@;
        match self.tabs[self.active_tab].pane_tree.try_focused_terminal() {
            Some(terminal) => r.push(WorkspaceEffect::FocusTerminalOf { terminal }),
            None => {},
        }
        let ghost after_focus = r@;
        r.push(WorkspaceEffect::SyncTerminalFocusStates);
        r.push(WorkspaceEffect::SyncSidebar);
        r.push(WorkspaceEffect::RequestTabSummaries);
        r.push(WorkspaceEffect::SaveSession);
        r.push(WorkspaceEffect::Notify);
        proof {
            let tt = self.tabs@[self.active_tab as int].pane_tree;
            let focus = match focus_terminal_of(tt) {
                Some(x) => seq![WorkspaceEffect::FocusTerminalOf { terminal: x }],
                None => Seq::empty(),
            };
            assert(after_focus =~= before_focus + focus);
            assert(r@.subrange(5, 5 + focus.len() as int) =~= focus);
            assert(r@.subrange(5 + focus.len() as int, r@.len() as int) =~= seq![
                WorkspaceEffect::SyncTerminalFocusStates,
                WorkspaceEffect::SyncSidebar,
                WorkspaceEffect::RequestTabSummaries,
                WorkspaceEffect::SaveSession,
                WorkspaceEffect::Notify,
            ]);
        }
        r
    }

    /// Appends the tabs of the layout file or folder shown as `path`, once
    /// it has been loaded (`loaded`), and says how many tabs came; a load
    /// error is shown instead.
    pub fn add_workspace_layout_tabs_from_path(
        &mut self,
        path: &str,
        loaded: &Result<SessionState, String>,
        terminals: &Vec<Vec<TerminalId>>,
        default_routing: &Vec<String>,
    ) -> (r: Vec<WorkspaceEffect>)
        requires
            loaded matches Ok(session) ==> session_fits(*old(self), *session, terminals@),
        ensures
            match loaded {
                Err(e) => *final(self) == *old(self) && r@.len() == 1 && is_prompt(r@[0], PromptLevel::Critical, "Could not open layout profile"@, e@),
                Ok(session) => {
                    &&& session.tabs@.len() == 0 ==> *final(self) == *old(self) && r@.len() == 1
                    &&& session.tabs@.len() > 0 ==> {
                        &&& appended_session(*final(self), *old(self), *session, terminals@, default_routing@)
                        &&& appended_session_effects(r@.drop_last(), final(self).tabs@, final(self).active_tab as int, old(self).active_tab as int)
                    }
                    &&& is_prompt(r@.last(), PromptLevel::Info, "Layout profile added"@, added_tabs_detail(session.tabs@.len(), path@))
                },
            },
    {
        match loaded {
            Ok(session) => {
                let count = session.tabs.len();
                let mut r = self.append_workspace_layout_session(session, terminals, default_routing);
                let mut detail = prefixed_decimal("Added ", count);
                detail.append(" tab");
                if count == 1 {
                    detail.append("");
                } else {
                    detail.append("s");
                }
                detail.append(" from ");
                detail.append(path);
                detail.append(".");
                let ghost before = r@;
                r.push(WorkspaceEffect::Prompt(Self::show_layout_profile_info("Layout profile added", detail)));
                proof {
                    assert(r@.drop_last() =~= before);
                }
                r
            },
            Err(e) => {
                let mut r = Vec::new();
                r.push(WorkspaceEffect::Prompt(Self::show_layout_profile_error("Could not open layout profile", e.clone())));
                r
            },
        }
    }
}


/// What the input bar knows of a pane.
pub struct PaneInfo {
    pub id: PaneId,
    pub name: String,
    pub hostname: Option<String>,
    pub is_alive: bool,
    pub is_busy: bool,
}

/// The colour of a pane's status dot: danger, warning or success.
#[derive(Clone, Copy, Debug, PartialEq, Eq, Structural)]
pub enum PaneStatus {
    Offline,
    Busy,
    Ready,
}

/// One pane tile of the scope picker.
#[derive(Debug, PartialEq, Eq)]
pub struct ScopeTile {
    pub pane_id: PaneId,
    pub label: String,
    pub status: PaneStatus,
    pub status_text: Option<String>,
    pub is_selected: bool,
    pub is_focused: bool,
    /// The number shown in the tile's badge.
    pub number: usize,
}

/// The scope picker's miniature of a pane layout.
#[derive(Debug, PartialEq, Eq)]
pub enum ScopeNode {
    Tile(ScopeTile),
    /// A pane the input bar knows nothing of.
    Placeholder,
    Split {
        direction: PaneSplitDirection,
        /// Share of the first child, as the bits of an `f32`.
        ratio: u32,
        first: Box<ScopeNode>,
        second: Box<ScopeNode>,
    },
}

pub struct ScopeTileView {
    pub pane_id: PaneId,
    pub label: Seq<char>,
    pub status: PaneStatus,
    pub status_text: Option<Seq<char>>,
    pub is_selected: bool,
    pub is_focused: bool,
    pub number: usize,
}

pub enum ScopeNodeView {
    Tile(ScopeTileView),
    Placeholder,
    Split { direction: PaneSplitDirection, ratio: u32, first: Box<ScopeNodeView>, second: Box<ScopeNodeView> },
}

impl View for ScopeTile {
    type V = ScopeTileView;

    open spec fn view(&self) -> ScopeTileView {
        ScopeTileView {
            pane_id: self.pane_id,
            label: self.label@,
            status: self.status,
            status_text: match self.status_text {
                Some(t) => Some(t@),
                None => None,
            },
            is_selected: self.is_selected,
            is_focused: self.is_focused,
            number: self.number,
        }
    }
}

pub open spec fn scope_node_view(n: ScopeNode) -> ScopeNodeView
    decreases n,
{
    match n {
        ScopeNode::Tile(t) => ScopeNodeView::Tile(t@),
        ScopeNode::Placeholder => ScopeNodeView::Placeholder,
        ScopeNode::Split { direction, ratio, first, second } => ScopeNodeView::Split {
            direction,
            ratio,
            first: Box::new(scope_node_view(*first)),
            second: Box::new(scope_node_view(*second)),
        },
    }
}

impl View for ScopeNode {
    type V = ScopeNodeView;

    open spec fn view(&self) -> ScopeNodeView {
        scope_node_view(*self)
    }
}

/// A pane's label: its host when remote, else its name, else "Pane N".
pub open spec fn scope_label(pane: PaneInfo) -> Seq<char> {
    match pane.hostname {
        Some(h) => h@,
        None => if pane.name@.len() == 0 {
            "Pane "@ + decimal(pane.id as nat)
        } else {
            pane.name@
        },
    }
}

pub open spec fn scope_status(pane: PaneInfo) -> PaneStatus {
    if !pane.is_alive {
        PaneStatus::Offline
    } else if pane.is_busy {
        PaneStatus::Busy
    } else {
        PaneStatus::Ready
    }
}

pub open spec fn scope_status_text(pane: PaneInfo) -> Option<Seq<char>> {
    if !pane.is_alive {
        Some("offline"@)
    } else if pane.is_busy {
        Some("busy"@)
    } else if pane.hostname is Some {
        Some("remote"@)
    } else {
        None
    }
}

/// The tile of pane `pane_id`: numbered one past its display index (0 when
/// it has none), selected and focused as the picker says.
pub open spec fn scope_tile(
    pane_id: PaneId,
    pane: PaneInfo,
    display: Map<usize, usize>,
    selected: Set<usize>,
    focused_id: PaneId,
) -> ScopeTileView {
    ScopeTileView {
        pane_id,
        label: scope_label(pane),
        status: scope_status(pane),
        status_text: scope_status_text(pane),
        is_selected: selected.contains(pane_id),
        is_focused: pane_id == focused_id,
        number: ((if display.contains_key(pane_id) { display[pane_id] as int } else { 0 }) + 1) as usize,
    }
}

/// The picker's miniature of a layout: a tile per known pane, a
/// placeholder per unknown one, splits as in the layout.
pub open spec fn scope_node(
    l: LayoutView,
    panes: Map<usize, PaneInfo>,
    display: Map<usize, usize>,
    selected: Set<usize>,
    focused_id: PaneId,
) -> ScopeNodeView
    decreases l,
{
    match l {
        LayoutView::Leaf { pane_id, .. } => if panes.contains_key(pane_id) {
            ScopeNodeView::Tile(scope_tile(pane_id, panes[pane_id], display, selected, focused_id))
        } else {
            ScopeNodeView::Placeholder
        },
        LayoutView::Split { direction, ratio, first, second } => ScopeNodeView::Split {
            direction,
            ratio,
            first: Box::new(scope_node(*first, panes, display, selected, focused_id)),
            second: Box::new(scope_node(*second, panes, display, selected, focused_id)),
        },
    }
}

/// No display index is `usize::MAX`, so every badge number fits.
pub open spec fn display_numbers_fit(display: Map<usize, usize>) -> bool {
    forall|k: usize| #[trigger] display.contains_key(k) ==> display[k] < usize::MAX
}

impl ConWorkspace {
    /// The scope-picker tile of pane `pane_id`.
    pub fn render_scope_leaf(
        &self,
        pane_id: PaneId,
        pane: &PaneInfo,
        display_indices: &HashMap<usize, usize>,
        selected_ids: &HashSet<usize>,
        focused_id: PaneId,
    ) -> (r: ScopeTile)
        requires
            display_numbers_fit(display_indices@),
        ensures
            r@ == scope_tile(pane_id, *pane, display_indices@, selected_ids@, focused_id),
    {
        broadcast use vstd::std_specs::hash::group_hash_axioms;
        let is_selected = selected_ids.contains(&pane_id);
        let is_focused = pane_id == focused_id;
        let display_index = match display_indices.get(&pane_id) {
            Some(i) => *i,
            None => 0,
        };
        let status = if !pane.is_alive {
            PaneStatus::Offline
        } else if pane.is_busy {
            PaneStatus::Busy
        } else {
            PaneStatus::Ready
        };
        let label = match &pane.hostname {
            Some(h) => h.clone(),
            None => if pane.name.as_str().is_empty() {
                prefixed_decimal("Pane ", pane.id)
            } else {
                pane.name.clone()
            },
        };
        let status_text = if !pane.is_alive {
            Some("offline".to_owned())
        } else if pane.is_busy {
            Some("busy".to_owned())
        } else if pane.hostname.is_some() {
            Some("remote".to_owned())
        } else {
            None
        };
        ScopeTile {
            pane_id,
            label,
            status,
            status_text,
            is_selected,
            is_focused,
            number: display_index + 1,
        }
    }

    /// The scope picker's miniature of `layout`.
    pub fn render_scope_node(
        &self,
        layout: &PaneLayoutState,
        panes: &HashMap<usize, PaneInfo>,
        display_indices: &HashMap<usize, usize>,
        selected_ids: &HashSet<usize>,
        focused_id: PaneId,
    ) -> (r: ScopeNode)
        requires
            display_numbers_fit(display_indices@),
        ensures
            r@ == scope_node(layout@, panes@, display_indices@, selected_ids@, focused_id),
        decreases layout,
    {
        broadcast use vstd::std_specs::hash::group_hash_axioms;
        match layout {
            PaneLayoutState::Leaf { pane_id, .. } => match panes.get(pane_id) {
                Some(pane) => ScopeNode::Tile(
                    self.render_scope_leaf(*pane_id, pane, display_indices, selected_ids, focused_id),
                ),
                None => ScopeNode::Placeholder,
            },
            PaneLayoutState::Split { direction, ratio, first, second } => {
                let a = self.render_scope_node(first, panes, display_indices, selected_ids, focused_id);
                let b = self.render_scope_node(second, panes, display_indices, selected_ids, focused_id);
                ScopeNode::Split { direction: *direction, ratio: *ratio, first: Box::new(a), second: Box::new(b) }
            },
        }
    }
}

} // verus!
