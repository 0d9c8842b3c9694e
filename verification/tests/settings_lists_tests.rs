use con_panes::settings_lists::{
    eq_ignore_ascii_case, fallback_candidates, move_terminal_fallback, remove_terminal_fallback, SkillPaths,
};

fn strings(v: &[&str]) -> Vec<String> {
    v.iter().map(|s| s.to_string()).collect()
}

#[test]
fn skill_paths_are_added_once_per_kind() {
    let mut paths = SkillPaths { project_paths: Vec::new(), global_paths: Vec::new() };
    paths.add_skill_path("project", ".skills");
    paths.add_skill_path("project", ".skills");
    paths.add_skill_path("global", "~/skills");
    paths.add_skill_path("other", "ignored");
    assert_eq!(paths.project_paths, strings(&[".skills"]));
    assert_eq!(paths.global_paths, strings(&["~/skills"]));
}

#[test]
fn skill_paths_are_removed_by_index() {
    let mut paths = SkillPaths { project_paths: strings(&["a", "b", "c"]), global_paths: strings(&["g"]) };
    paths.remove_skill_path("project", 1);
    assert_eq!(paths.project_paths, strings(&["a", "c"]));
    paths.remove_skill_path("project", 5);
    paths.remove_skill_path("nothing", 0);
    assert_eq!(paths.project_paths, strings(&["a", "c"]));
    paths.remove_skill_path("global", 0);
    assert!(paths.global_paths.is_empty());
}

#[test]
fn fallbacks_move_and_go() {
    let mut fallbacks = strings(&["A", "B", "C"]);
    move_terminal_fallback(&mut fallbacks, 0, 1);
    assert_eq!(fallbacks, strings(&["B", "A", "C"]));
    move_terminal_fallback(&mut fallbacks, 1, -1);
    assert_eq!(fallbacks, strings(&["A", "B", "C"]));
    move_terminal_fallback(&mut fallbacks, 0, -1);
    move_terminal_fallback(&mut fallbacks, 2, 1);
    assert_eq!(fallbacks, strings(&["A", "B", "C"]));
    assert!(remove_terminal_fallback(&mut fallbacks, 1));
    assert!(!remove_terminal_fallback(&mut fallbacks, 2));
    assert_eq!(fallbacks, strings(&["A", "C"]));
}

#[test]
fn ascii_case_is_ignored_like_std() {
    for (a, b) in [("Menlo", "menlo"), ("Fira Code", "FIRA CODE"), ("Ä", "ä"), ("a", "ab"), ("", "")] {
        assert_eq!(eq_ignore_ascii_case(a, b), a.eq_ignore_ascii_case(b), "{a:?} {b:?}");
    }
}

#[test]
fn fallback_candidates_skip_current_bundled_and_chosen_fonts() {
    let families = strings(&["Menlo", "Monaco", "IoskeleyMono", "Fira Code", "SF Mono"]);
    let bundled = vec![false, false, true, false, false];
    let fallbacks = strings(&["fira code"]);
    let candidates = fallback_candidates(&families, &bundled, "MENLO", &fallbacks);
    assert_eq!(candidates, strings(&["Monaco", "SF Mono"]));
}
