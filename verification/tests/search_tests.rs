use con_panes::search::{
    collect_line_matches, file_match_counts, find_str, highlight_runs, is_searchable_size,
    is_skipped_entry_name, result_preview_match, search_budget_left, split_lines, SearchMatcher,
    SearchOptions, TextRun, MAX_MATCHES_PER_FILE, MAX_RESULTS,
};

#[test]
fn literal_case_insensitive_match_offsets_stay_in_original_line() {
    let matcher = SearchMatcher::new("needle", SearchOptions::default()).unwrap();

    assert_eq!(matcher.find("İstanbul needle"), Some((10, 6)));
}

#[test]
fn result_preview_match_keeps_highlight_aligned_after_trimming_indent() {
    let (preview, match_start, match_len) = result_preview_match("    let needle = 1;", 8, 6);

    assert_eq!(preview, "let needle = 1;");
    assert_eq!(match_start, 4);
    assert_eq!(match_len, 6);
}

#[test]
fn blank_query_gives_no_matcher() {
    assert!(SearchMatcher::new("   ", SearchOptions::default()).is_none());
    assert!(SearchMatcher::new("", SearchOptions { case_sensitive: true, regex: true }).is_none());
}

#[test]
fn invalid_regex_gives_no_matcher() {
    assert!(SearchMatcher::new("(unclosed", SearchOptions { case_sensitive: false, regex: true }).is_none());
}

#[test]
fn case_sensitive_literal_respects_case() {
    let matcher = SearchMatcher::new("Needle", SearchOptions { case_sensitive: true, regex: false }).unwrap();
    assert_eq!(matcher.find("a needle here"), None);
    assert_eq!(matcher.find("a Needle here"), Some((2, 6)));
}

#[test]
fn query_is_trimmed_before_matching() {
    let matcher = SearchMatcher::new("  main  ", SearchOptions { case_sensitive: true, regex: false }).unwrap();
    assert_eq!(matcher.find("fn main() {}"), Some((3, 4)));
}

#[test]
fn regex_matcher_reports_byte_range() {
    let matcher = SearchMatcher::new(r"need(le)?\s*=\s*1", SearchOptions { case_sensitive: false, regex: true }).unwrap();
    assert_eq!(matcher.find("let NEEDLE = 1;"), Some((4, 10)));
    assert_eq!(matcher.find("nothing"), None);
}

#[test]
fn find_str_matches_std_find() {
    for (hay, needle) in [("hello world", "o"), ("abc", ""), ("abc", "abcd"), ("ééx", "x"), ("aaa", "aa")] {
        assert_eq!(find_str(hay, needle), hay.find(needle));
    }
}

#[test]
fn split_lines_matches_std_lines() {
    for text in ["", "a", "a\n", "a\r\nb", "a\n\nb\n", "\r\n", "x\ry\n", "\n\n"] {
        let ours = split_lines(text);
        let theirs: Vec<String> = text.lines().map(|l| l.to_string()).collect();
        assert_eq!(ours, theirs, "text {:?}", text);
    }
}

#[test]
fn collect_line_matches_numbers_lines_from_one() {
    let matcher = SearchMatcher::new("needle", SearchOptions::default()).unwrap();
    let found = collect_line_matches("fn main() {}\nlet needle = 1;\n", &matcher, 0);
    assert_eq!(found.len(), 1);
    assert_eq!(found[0].line_number, 2);
    assert_eq!(found[0].line, "let needle = 1;");
    assert_eq!((found[0].match_start, found[0].match_len), (4, 6));
}

#[test]
fn collect_line_matches_stops_at_the_per_file_limit() {
    let text = "x\n".repeat(50);
    let matcher = SearchMatcher::new("x", SearchOptions::default()).unwrap();
    let found = collect_line_matches(&text, &matcher, 0);
    assert_eq!(found.len(), MAX_MATCHES_PER_FILE);
}

#[test]
fn collect_line_matches_stops_at_the_overall_limit() {
    let text = "x\n".repeat(50);
    let matcher = SearchMatcher::new("x", SearchOptions::default()).unwrap();
    let found = collect_line_matches(&text, &matcher, MAX_RESULTS - 3);
    assert_eq!(found.len(), 3);
    assert!(collect_line_matches(&text, &matcher, MAX_RESULTS).is_empty());
}

#[test]
fn search_skips_hidden_and_build_entries() {
    assert!(is_skipped_entry_name(".git"));
    assert!(is_skipped_entry_name("target"));
    assert!(is_skipped_entry_name("node_modules"));
    assert!(is_skipped_entry_name("dist"));
    assert!(!is_skipped_entry_name("src"));
    assert!(!is_skipped_entry_name("targets"));
}

#[test]
fn search_limits() {
    assert!(search_budget_left(0, 0));
    assert!(!search_budget_left(200, 0));
    assert!(!search_budget_left(0, 800));
    assert!(is_searchable_size(512 * 1024));
    assert!(!is_searchable_size(512 * 1024 + 1));
}

#[test]
fn preview_clips_a_match_inside_the_indent() {
    assert_eq!(result_preview_match("    ab", 1, 2), ("ab".to_string(), 0, 0));
    assert_eq!(result_preview_match("    ab", 3, 2), ("ab".to_string(), 0, 1));
    assert_eq!(result_preview_match("ab", 1, 100), ("ab".to_string(), 1, 1));
}

#[test]
fn highlight_runs_cover_the_preview() {
    assert_eq!(
        highlight_runs(10, 2, 3),
        vec![
            TextRun { len: 2, highlighted: false },
            TextRun { len: 3, highlighted: true },
            TextRun { len: 5, highlighted: false },
        ]
    );
    assert_eq!(highlight_runs(4, 0, 4), vec![TextRun { len: 4, highlighted: true }]);
    assert_eq!(highlight_runs(0, 0, 0), vec![TextRun { len: 0, highlighted: false }]);
    assert_eq!(highlight_runs(3, 9, 2), vec![TextRun { len: 3, highlighted: false }]);
}

#[test]
fn file_match_counts_counts_per_path() {
    let paths: Vec<String> = ["a.rs", "b.rs", "a.rs", "a.rs"].iter().map(|s| s.to_string()).collect();
    let counts = file_match_counts(&paths);
    assert_eq!(counts, vec![("a.rs".to_string(), 3), ("b.rs".to_string(), 1)]);
    assert!(file_match_counts(&Vec::new()).is_empty());
}
