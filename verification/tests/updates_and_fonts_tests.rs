use con_panes::font_families::canonical_terminal_font_family;
use con_panes::keybindings::{keybinding_default, keybinding_field, KeybindingConfig};
use con_panes::updates::{update_download_url, update_summary_and_detail, CheckState};

#[test]
fn update_lines_follow_the_check() {
    let lines = |s: &CheckState| update_summary_and_detail(s, "Idle", "Never checked.", "1.2.3");
    assert_eq!(
        lines(&CheckState::Checking),
        ("Checking for updates…".to_string(), "Fetching the release feed.".to_string())
    );
    let available = CheckState::UpdateAvailable { version: "2.0".to_string(), url: "https://x/dl".to_string() };
    assert_eq!(
        lines(&available),
        ("Update available: 2.0".to_string(), "A newer build has been published.".to_string())
    );
    assert_eq!(
        lines(&CheckState::UpToDate),
        ("Up to date".to_string(), "Running 1.2.3 — latest published build.".to_string())
    );
    assert_eq!(
        lines(&CheckState::Error("offline".to_string())),
        ("Update check failed".to_string(), "offline".to_string())
    );
    assert_eq!(lines(&CheckState::Idle), ("Idle".to_string(), "Never checked.".to_string()));
    assert_eq!(update_download_url(&available), Some("https://x/dl".to_string()));
    assert_eq!(update_download_url(&CheckState::UpToDate), None);
}

#[test]
fn ioskeley_mono_is_found_however_it_is_written() {
    for name in ["Ioskeley Mono", "IoskeleyMono", "Ioskeley-Mono", "ioskeley mono", " IOSKELEY  MONO "] {
        assert_eq!(canonical_terminal_font_family(name), "IoskeleyMono", "{name:?}");
    }
    assert_eq!(canonical_terminal_font_family("  Fira Code "), "Fira Code");
    assert_eq!(canonical_terminal_font_family(""), "");
}

#[test]
fn shipped_bindings_are_read_by_name() {
    let defaults = KeybindingConfig { bindings: (0..32).map(|i| format!("default-{i}")).collect() };
    assert_eq!(keybinding_default(&defaults, "new_tab").as_deref(), keybinding_field(&defaults, "new_tab"));
    assert!(keybinding_default(&defaults, "rename_surface").is_some());
    assert!(keybinding_default(&defaults, "not_a_real_field").is_none());
}
