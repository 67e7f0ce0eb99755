//! What the terminal interface remembers between runs.
use vstd::prelude::*;

use crate::domain::path_views;
use crate::error::RepoSweepError;
use crate::fspath::FsPath;

verus! {

/// The remembered state: recently scanned paths, most recent first, and the
/// directory the browser showed last.
#[derive(Clone, Debug)]
pub struct AppState {
    pub recent_paths: Vec<FsPath>,
    pub last_browser_path: Option<FsPath>,
}

impl Default for AppState {
    fn default() -> (r: Self)
        ensures
            r.recent_paths@.len() == 0,
            r.last_browser_path is None,
    {
        AppState { recent_paths: Vec::new(), last_browser_path: None }
    }
}

/// The state that reading the stored file gave, or a fresh one when it
/// could not be read.
pub fn load(stored: Result<AppState, RepoSweepError>) -> (r: AppState)
    ensures
        stored matches Ok(s) ==> r == s,
        stored is Err ==> r.recent_paths@.len() == 0 && r.last_browser_path is None,
{
    match stored {
        Ok(s) => s,
        Err(_) => AppState::default(),
    }
}

/// The views of the recent paths.
pub open spec fn recent_views(s: AppState) -> Seq<Seq<Seq<char>>> {
    path_views(s.recent_paths@)
}

} // verus!
