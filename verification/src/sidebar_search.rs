use vstd::prelude::*;
use crate::search::SearchOptions;
use crate::text::{is_blank, is_blank_str};

verus! {

/// A search handed to the background: what it searches and the request it
/// answers.
pub struct SearchJob {
    pub generation: u64,
    pub root: String,
    pub query: String,
    pub options: SearchOptions,
}

/// The state of the sidebar search: where it searches, what it searches
/// for, and the results of the latest search (`R` is one result row).
pub struct SidebarSearchView<R> {
    pub root: Option<String>,
    pub query_text: String,
    pub options: SearchOptions,
    pub results: Vec<R>,
    pub search_generation: u64,
    pub search_in_progress: bool,
}

/// The generation after `g`, wrapping.
pub open spec fn next_generation(g: u64) -> u64 {
    if g == u64::MAX {
        0
    } else {
        (g + 1) as u64
    }
}

/// Whether `job` is the search the view is waiting for.
pub open spec fn is_current<R>(v: SidebarSearchView<R>, job: SearchJob) -> bool {
    &&& v.search_generation == job.generation
    &&& v.root matches Some(r) && r@ == job.root@
    &&& v.query_text@ == job.query@
    &&& v.options == job.options
}

/// What a search request does to the view: a new generation; no search
/// (and no results) without a root or with a blank query; otherwise the
/// results clear while a search runs.
pub open spec fn after_request<R>(old: SidebarSearchView<R>, new: SidebarSearchView<R>, job: Option<SearchJob>) -> bool {
    &&& new.search_generation == next_generation(old.search_generation)
    &&& new.root == old.root && new.query_text == old.query_text && new.options == old.options
    &&& new.results@.len() == 0
    &&& if old.root is None || is_blank(old.query_text@) {
        !new.search_in_progress && job is None
    } else {
        &&& new.search_in_progress
        &&& job matches Some(j) && is_current(new, j)
    }
}

impl<R> SidebarSearchView<R> {
    /// An empty search with no folder.
    pub fn new() -> (r: Self)
        ensures
            r.root is None,
            r.query_text@.len() == 0,
            r.options == (SearchOptions { case_sensitive: false, regex: false }),
            r.results@.len() == 0,
            r.search_generation == 0,
            !r.search_in_progress,
    {
        SidebarSearchView {
            root: None,
            query_text: String::new(),
            options: SearchOptions { case_sensitive: false, regex: false },
            results: Vec::new(),
            search_generation: 0,
            search_in_progress: false,
        }
    }

    /// Starts a search for the current query, superseding any running
    /// one: the job to run, or `None` when there is nothing to search.
    pub fn request_search(&mut self) -> (r: Option<SearchJob>)
        ensures
            after_request(*old(self), *final(self), r),
    {
        self.search_generation = self.search_generation.wrapping_add(1);
        self.results = Vec::new();
        let root = match &self.root {
            Some(root) => root.clone(),
            None => {
                self.search_in_progress = false;
                return None;
            },
        };
        if is_blank_str(self.query_text.as_str()) {
            self.search_in_progress = false;
            return None;
        }
        self.search_in_progress = true;
        Some(SearchJob { generation: self.search_generation, root, query: self.query_text.clone(), options: self.options })
    }

    /// Searches below `root` when it is a different folder.
    pub fn set_root(&mut self, root: String) -> (r: Option<SearchJob>)
        ensures
            old(self).root matches Some(o) && o@ == root@ ==> *final(self) == *old(self) && r is None,
            !(old(self).root matches Some(o) && o@ == root@) ==> after_request(
                SidebarSearchView { root: Some(root), ..*old(self) },
                *final(self),
                r,
            ),
    {
        match &self.root {
            Some(current) => {
                if *current == root {
                    return None;
                }
            },
            None => {},
        }
        self.root = Some(root);
        self.request_search()
    }

    /// Takes the query field's text, searching again when it changed.
    pub fn set_query_text(&mut self, text: String) -> (r: Option<SearchJob>)
        ensures
            old(self).query_text@ == text@ ==> *final(self) == *old(self) && r is None,
            old(self).query_text@ != text@ ==> after_request(
                SidebarSearchView { query_text: text, ..*old(self) },
                *final(self),
                r,
            ),
    {
        if self.query_text == text {
            return None;
        }
        self.query_text = text;
        self.request_search()
    }

    /// Turns case-sensitive matching on or off and searches again.
    pub fn set_case_sensitive(&mut self, enabled: bool) -> (r: Option<SearchJob>)
        ensures
            after_request(
                SidebarSearchView { options: SearchOptions { case_sensitive: enabled, ..old(self).options }, ..*old(self) },
                *final(self),
                r,
            ),
    {
        self.options.case_sensitive = enabled;
        self.request_search()
    }

    /// Turns regular-expression matching on or off and searches again.
    pub fn set_regex(&mut self, enabled: bool) -> (r: Option<SearchJob>)
        ensures
            after_request(
                SidebarSearchView { options: SearchOptions { regex: enabled, ..old(self).options }, ..*old(self) },
                *final(self),
                r,
            ),
    {
        self.options.regex = enabled;
        self.request_search()
    }

    /// Delivers the results of `job`: kept only when it is still the search
    /// the view waits for (same generation, root, query and options).
    pub fn finish_search(&mut self, job: &SearchJob, results: Vec<R>) -> (r: bool)
        ensures
            r == is_current(*old(self), *job),
            r ==> *final(self) == (SidebarSearchView { results, search_in_progress: false, ..*old(self) }),
            !r ==> *final(self) == *old(self),
    {
        let same_root = match &self.root {
            Some(root) => *root == job.root,
            None => false,
        };
        if self.search_generation == job.generation && same_root && self.query_text == job.query
            && self.options == job.options {
            self.results = results;
            self.search_in_progress = false;
            true
        } else {
            false
        }
    }
}

} // verus!
