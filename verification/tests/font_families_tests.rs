use con_panes::font_families::{prepare_terminal_font_families, prepare_ui_font_families};

fn strings(v: &[&str]) -> Vec<String> {
    v.iter().map(|s| s.to_string()).collect()
}

fn std_sorted(mut families: Vec<String>) -> Vec<String> {
    families.sort_by_key(|name| name.to_lowercase());
    families.dedup();
    families
}

#[test]
fn ui_fonts_put_the_preferred_first_then_sort_case_insensitively() {
    let installed = strings(&["zapfino", "Arial", "arial", "Menlo", "Arial", "Courier", "Ioskeley Mono"]);
    let r = prepare_ui_font_families("Menlo", "Ioskeley Mono", installed.clone());
    let mut expected = strings(&[".SystemUIFont", "Menlo", "Ioskeley Mono"]);
    for f in std_sorted(installed) {
        if !expected.contains(&f) {
            expected.push(f);
        }
    }
    assert_eq!(r, expected);
    assert_eq!(r, strings(&[".SystemUIFont", "Menlo", "Ioskeley Mono", "Arial", "arial", "Courier", "zapfino"]));
}

#[test]
fn ui_fonts_skip_an_empty_configured_font() {
    let r = prepare_ui_font_families("", "Mono", strings(&["B", "a"]));
    assert_eq!(r, strings(&[".SystemUIFont", "Mono", "a", "B"]));
}

#[test]
fn terminal_fonts_keep_fallbacks_and_drop_pseudo_families() {
    let installed = strings(&["Zed Mono", ".ZedMono", "Fira Code", "fira code", "Menlo"]);
    let pseudo = vec![false, true, false, false, false];
    let fallbacks = strings(&["Symbols", "", "Menlo"]);
    let r = prepare_terminal_font_families("Ioskeley Mono", "Menlo", &fallbacks, installed, &pseudo);
    assert_eq!(r, strings(&["Ioskeley Mono", "Menlo", "Symbols", "Fira Code", "fira code", "Zed Mono"]));
}

#[test]
fn sorting_is_stable_for_names_equal_but_for_case() {
    let installed = strings(&["b", "A", "a", "B"]);
    let r = prepare_ui_font_families("x", "y", installed.clone());
    assert_eq!(r[3..].to_vec(), std_sorted(installed));
}
