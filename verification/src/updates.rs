use vstd::prelude::*;

verus! {

/// Where an update check stands (with what the settings read of it).
pub enum CheckState {
    Idle,
    Checking,
    UpdateAvailable { version: String, url: String },
    UpToDate,
    Error(String),
}

/// The summary and detail lines shown for an update check. When idle, the
/// updater's own lines are shown (`idle_summary`, `idle_detail`);
/// `display_version` is the running version.
pub open spec fn update_lines(
    state: CheckState,
    idle_summary: Seq<char>,
    idle_detail: Seq<char>,
    display_version: Seq<char>,
) -> (Seq<char>, Seq<char>) {
    match state {
        CheckState::Checking => ("Checking for updates…"@, "Fetching the release feed."@),
        CheckState::UpdateAvailable { version, .. } => (
            "Update available: "@ + version@,
            "A newer build has been published."@,
        ),
        CheckState::UpToDate => ("Up to date"@, "Running "@ + display_version + " — latest published build."@),
        CheckState::Error(e) => ("Update check failed"@, e@),
        CheckState::Idle => (idle_summary, idle_detail),
    }
}

/// The summary and detail lines shown for an update check.
pub fn update_summary_and_detail(
    state: &CheckState,
    idle_summary: &str,
    idle_detail: &str,
    display_version: &str,
) -> (r: (String, String))
    ensures
        (r.0@, r.1@) == update_lines(*state, idle_summary@, idle_detail@, display_version@),
{
    match state {
        CheckState::Checking => ("Checking for updates…".to_owned(), "Fetching the release feed.".to_owned()),
        CheckState::UpdateAvailable { version, .. } => {
            let mut summary = String::new();
            summary.append("Update available: ");
            summary.append(version.as_str());
            proof {
                assert(summary@ =~= "Update available: "@ + version@);
            }
            (summary, "A newer build has been published.".to_owned())
        },
        CheckState::UpToDate => {
            let mut detail = String::new();
            detail.append("Running ");
            detail.append(display_version);
            detail.append(" — latest published build.");
            proof {
                assert(detail@ =~= "Running "@ + display_version@ + " — latest published build."@);
            }
            ("Up to date".to_owned(), detail)
        },
        CheckState::Error(e) => ("Update check failed".to_owned(), e.clone()),
        CheckState::Idle => (idle_summary.to_owned(), idle_detail.to_owned()),
    }
}

/// Where to download the update, when one is available.
pub fn update_download_url(state: &CheckState) -> (r: Option<String>)
    ensures
        match *state {
            CheckState::UpdateAvailable { url, .. } => r == Some(url),
            _ => r is None,
        },
{
    match state {
        CheckState::UpdateAvailable { url, .. } => Some(url.clone()),
        _ => None,
    }
}

} // verus!
