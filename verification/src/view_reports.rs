use vstd::prelude::*;
use crate::pane_node::{EditorId, PaneId, PaneSurface, SurfaceId, find_surface_index, shown_surface_index};
use crate::pane_tree::PaneTree;

verus! {

/// What the first report for view `v` at or after `k` says, if any.
pub open spec fn reported<T>(reports: Seq<(EditorId, T)>, v: EditorId, k: int) -> Option<T>
    decreases reports.len() - k,
{
    if k < 0 || k >= reports.len() {
        None
    } else if reports[k].0 == v {
        Some(reports[k].1)
    } else {
        reported(reports, v, k + 1)
    }
}

fn find_report<T>(reports: &Vec<(EditorId, T)>, v: EditorId) -> (r: Option<usize>)
    ensures
        match r {
            Some(i) => i < reports@.len() && reported(reports@, v, 0) == Some(reports@[i as int].1),
            None => reported(reports@, v, 0) is None,
        },
{
    let mut i: usize = 0;
    while i < reports.len()
        invariant
            i <= reports@.len(),
            reported(reports@, v, 0) == reported(reports@, v, i as int),
        decreases reports@.len() - i,
    {
        if reports[i].0 == v {
            return Some(i);
        }
        i = i + 1;
    }
    None
}

impl PaneTree {
    /// The file open in the editor of pane `pane_id`, from what the editor
    /// views report (`active_paths`).
    pub fn editor_active_path_for_pane(&self, pane_id: PaneId, active_paths: &Vec<(EditorId, Option<String>)>) -> (r:
        Option<String>)
        ensures
            r == match self.root_view().editor_of(pane_id) {
                Some(v) => match reported(active_paths@, v, 0) {
                    Some(p) => p,
                    None => None,
                },
                None => None,
            },
    {
        match self.editor_view_for_pane(pane_id) {
            Some(v) => match find_report(active_paths, v) {
                Some(i) => crate::layout::clone_opt_string(&active_paths[i].1),
                None => None,
            },
            None => None,
        }
    }

    /// How many tabs the focused editor has, from the views that report
    /// focus (`focused_views`) and their tab counts (`tab_counts`).
    pub fn focused_editor_tab_count(&self, focused_views: &Vec<EditorId>, tab_counts: &Vec<(EditorId, usize)>) -> (r:
        Option<usize>)
        ensures
            r == match self.root_view().focused_editor_spec(focused_views@) {
                Some(fv) => match self.root_view().pane_of_editor(fv) {
                    Some(p) => match self.root_view().editor_of(p) {
                        Some(v) => reported(tab_counts@, v, 0),
                        None => None,
                    },
                    None => None,
                },
                None => None,
            },
    {
        let pane_id = match self.active_editor_pane_id(focused_views) {
            Some(p) => p,
            None => return None,
        };
        match self.editor_view_for_pane(pane_id) {
            Some(v) => match find_report(tab_counts, v) {
                Some(i) => Some(tab_counts[i].1),
                None => None,
            },
            None => None,
        }
    }
}

/// What a terminal pane shows around its terminal.
pub struct LeafChrome {
    /// The strip of surface tabs.
    pub show_surface_strip: bool,
    /// The pane's title bar.
    pub show_title_bar: bool,
    /// Neither: the terminal alone fills the pane.
    pub bare: bool,
}

/// The chrome of a terminal pane with `surfaces` showing `active_surface_id`
/// (else its first surface): the surface strip when there are several
/// surfaces or the shown one has an owner or a title; the title bar when the
/// tree has splits and the bar is not hidden; bare when the tree has no
/// splits and there is no strip.
pub open spec fn leaf_chrome_of(
    surfaces: Seq<PaneSurface>,
    active_surface_id: SurfaceId,
    tree_has_splits: bool,
    hide_pane_title_bar: bool,
) -> (bool, bool, bool) {
    let shown = surfaces[shown_surface_index(surfaces, active_surface_id)];
    let strip = surfaces.len() > 1 || shown.owner is Some || shown.title is Some;
    (strip, tree_has_splits && !hide_pane_title_bar, !tree_has_splits && !strip)
}

/// The chrome of a terminal pane (see `leaf_chrome_of`).
pub fn leaf_chrome(
    surfaces: &Vec<PaneSurface>,
    active_surface_id: SurfaceId,
    tree_has_splits: bool,
    hide_pane_title_bar: bool,
) -> (r: LeafChrome)
    requires
        surfaces@.len() > 0,
    ensures
        (r.show_surface_strip, r.show_title_bar, r.bare) == leaf_chrome_of(
            surfaces@,
            active_surface_id,
            tree_has_splits,
            hide_pane_title_bar,
        ),
{
    let k = match find_surface_index(surfaces, active_surface_id) {
        Some(i) => i,
        None => 0,
    };
    let shown = &surfaces[k];
    let strip = surfaces.len() > 1 || shown.owner.is_some() || shown.title.is_some();
    LeafChrome {
        show_surface_strip: strip,
        show_title_bar: tree_has_splits && !hide_pane_title_bar,
        bare: !tree_has_splits && !strip,
    }
}

/// Whether a surface tab offers closing: when the pane has several
/// surfaces, or the surface closes its pane when it is the last and has
/// an owner.
pub fn surface_can_close(surface_count: usize, surface: &PaneSurface) -> (r: bool)
    ensures
        r == (surface_count > 1 || (surface.close_pane_when_last && surface.owner is Some)),
{
    surface_count > 1 || (surface.close_pane_when_last && surface.owner.is_some())
}

} // verus!
