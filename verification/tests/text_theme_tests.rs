use con_panes::text::{
    is_blank_str, prefixed_decimal, short_pane_title, terminal_title_or_default, trim_start_str, trim_str,
};
use con_panes::theme::{gpui_theme_names_for, hex, hex_alpha, hex_rgb, Color};

#[test]
fn hex_rgb_writes_upper_case_pairs() {
    assert_eq!(hex_rgb(0, 0, 0), "#000000");
    assert_eq!(hex_rgb(255, 16, 171), "#FF10AB");
    assert_eq!(hex(Color { r: 1, g: 35, b: 69 }), "#012345");
    assert_eq!(hex_alpha(Color { r: 1, g: 35, b: 69 }, 0x80), "#01234580");
}

#[test]
fn theme_fallback_names() {
    assert_eq!(gpui_theme_names_for("catppuccin-mocha"), ("Catppuccin Mocha", "Con Light"));
    assert_eq!(gpui_theme_names_for("tokyonight"), ("Tokyo Night", "Con Light"));
    assert_eq!(gpui_theme_names_for("flexoki-dark"), ("Con Dark", "Con Light"));
}

#[test]
fn decimal_formatting_matches_format() {
    for n in [0usize, 7, 10, 42, 100, 65535, usize::MAX] {
        assert_eq!(prefixed_decimal("Terminal ", n), format!("Terminal {}", n));
    }
}

#[test]
fn trimming_matches_std() {
    for s in ["", "  ", " a ", "\u{3000}x\u{a0}", "\tab c\n", "abc"] {
        assert_eq!(trim_str(s), s.trim());
        assert_eq!(trim_start_str(s), s.trim_start());
        assert_eq!(is_blank_str(s), s.trim().is_empty());
    }
}

#[test]
fn pane_titles_default_to_terminal() {
    assert_eq!(terminal_title_or_default(&None), "Terminal");
    assert_eq!(terminal_title_or_default(&Some("~/src/app/".to_string())), "app");
    assert_eq!(short_pane_title("a\\b/c"), "c");
}
