# con_panes

The verified core of a terminal workspace: the split-pane tree of a tab,
its saved layout and how it is restored, and the decision logic of the
workspace chrome, the sidebar search and the settings panel. Every function
in `src/` carries a contract that Verus proves, except the few trusted
wrappers around `regex` and std's case mapping named below, whose contracts
are taken as given.

## Layout

- `src/pane_node.rs`, `src/node_lemmas.rs`, `src/pane_tree.rs`: the pane tree
  (splits, surfaces, focus, zoom, drag, moves and merges) and its model.
- `src/layout.rs`, `src/restore.rs`, `src/layout_laws.rs`: the saved form of a
  tree, the restore of a tree from it, and what a save and restore keep.
- `src/workspace.rs`: the chrome toggles, the pane-scope picker and the
  layout-profile flows of a workspace window, as state plus effects.
- `src/search.rs`, `src/sidebar_search.rs`: matching and previews of the
  sidebar search, and the request/answer state of the search view.
- `src/settings*.rs`, `src/providers.rs`, `src/provider_form.rs`,
  `src/provider_settings.rs`, `src/endpoints.rs`, `src/keybindings.rs`,
  `src/oauth.rs`, `src/font_families.rs`, `src/updates.rs`,
  `src/theme.rs`, `src/text.rs`, `src/view_reports.rs`: the settings panel
  and the values it shows and reads.
- `src/laws.rs`: properties that span several operations.
- `app/`: the window side: floating-point geometry, file-system search,
  terminal creation for restored layouts, and environment lookups.
- `tests/`: tests of the library on concrete values.

Regular expressions come from the `regex` crate behind small trusted
wrappers in `src/search.rs`; case mapping comes from std behind wrappers in
`src/settings.rs` and `src/font_families.rs`.
