use con_panes::search::SearchOptions;
use con_panes::sidebar_search::{SearchJob, SidebarSearchView};

fn view_with_root(root: &str) -> SidebarSearchView<u32> {
    let mut view = SidebarSearchView::<u32>::new();
    assert!(view.set_root(root.to_string()).is_none());
    view
}

#[test]
fn no_search_without_a_root() {
    let mut view = SidebarSearchView::<u32>::new();
    assert!(view.set_query_text("needle".to_string()).is_none());
    assert_eq!(view.search_generation, 1);
    assert!(!view.search_in_progress);
}

#[test]
fn blank_query_starts_no_search() {
    let mut view = view_with_root("/work");
    assert_eq!(view.search_generation, 1);
    assert!(view.set_query_text("  \t".to_string()).is_none());
    assert_eq!(view.search_generation, 2);
    assert!(!view.search_in_progress);
}

#[test]
fn a_query_starts_a_job_for_the_current_state() {
    let mut view = view_with_root("/work");
    let job = view.set_query_text("needle".to_string()).unwrap();
    assert_eq!(job.generation, 2);
    assert_eq!(job.root, "/work");
    assert_eq!(job.query, "needle");
    assert_eq!(job.options, SearchOptions { case_sensitive: false, regex: false });
    assert!(view.search_in_progress);
    assert!(view.results.is_empty());
}

#[test]
fn same_query_or_root_does_not_search_again() {
    let mut view = view_with_root("/work");
    view.set_query_text("needle".to_string()).unwrap();
    assert!(view.set_query_text("needle".to_string()).is_none());
    assert!(view.set_root("/work".to_string()).is_none());
    assert_eq!(view.search_generation, 2);
}

#[test]
fn results_of_the_current_job_are_kept() {
    let mut view = view_with_root("/work");
    let job = view.set_query_text("needle".to_string()).unwrap();
    assert!(view.finish_search(&job, vec![1, 2, 3]));
    assert_eq!(view.results, vec![1, 2, 3]);
    assert!(!view.search_in_progress);
}

#[test]
fn superseded_job_results_are_dropped() {
    let mut view = view_with_root("/work");
    let first = view.set_query_text("needle".to_string()).unwrap();
    let second = view.set_case_sensitive(true).unwrap();
    assert_eq!(second.options, SearchOptions { case_sensitive: true, regex: false });
    assert!(!view.finish_search(&first, vec![7]));
    assert!(view.results.is_empty());
    assert!(view.search_in_progress);
    assert!(view.finish_search(&second, vec![9]));
    assert_eq!(view.results, vec![9]);
}

#[test]
fn job_for_another_root_is_dropped_even_with_the_same_generation() {
    let mut view = view_with_root("/work");
    let job = view.set_regex(true).unwrap_or(SearchJob {
        generation: 0,
        root: String::new(),
        query: String::new(),
        options: SearchOptions { case_sensitive: false, regex: false },
    });
    // no query yet, so no job was started
    assert_eq!(job.generation, 0);
    let real = view.set_query_text("a.c".to_string()).unwrap();
    assert!(real.options.regex);
    let stale = SearchJob {
        generation: real.generation,
        root: "/elsewhere".to_string(),
        query: real.query.clone(),
        options: real.options,
    };
    assert!(!view.finish_search(&stale, vec![1]));
    assert!(view.finish_search(&real, vec![2]));
}

#[test]
fn generation_wraps_at_the_top() {
    let mut view = view_with_root("/work");
    view.search_generation = u64::MAX;
    view.query_text = "x".to_string();
    let job = view.request_search().unwrap();
    assert_eq!(job.generation, 0);
    assert_eq!(view.search_generation, 0);
}
