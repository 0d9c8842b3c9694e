//! Verified core of a terminal workspace: the split-pane tree of a tab,
//! its persisted layout form, and the decision logic around it.

pub mod pane_node;
pub mod node_lemmas;
pub mod pane_tree;
pub mod laws;
pub mod text;
pub mod layout;
pub mod restore;
pub mod workspace;
pub mod layout_laws;
pub mod theme;
pub mod search;
pub mod settings;
pub mod settings_panel;
pub mod endpoints;
pub mod keybindings;
pub mod providers;
pub mod sidebar_search;
pub mod view_reports;
pub mod provider_form;
pub mod provider_settings;
pub mod settings_lists;
pub mod oauth;
pub mod font_families;
pub mod updates;
