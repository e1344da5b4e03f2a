//! Where the single-page application's files live.

use vstd::prelude::*;
use vstd::string::StrSliceExecFns;

verus! {

/// The directories the web layer serves the application from.
pub struct SPA {
    pub ui_dir: String,
    pub resources_dir: String,
}

impl SPA {
    /// The conventional directories.
    pub fn default() -> (s: SPA)
        ensures
            s.ui_dir@ == "./ui"@,
            s.resources_dir@ == "./resources"@,
    {
        SPA { ui_dir: "./ui".to_owned(), resources_dir: "./resources".to_owned() }
    }

    /// Explicit directories.
    pub fn new(ui_dir: &str, resources_dir: &str) -> (s: SPA)
        ensures
            s.ui_dir@ == ui_dir@,
            s.resources_dir@ == resources_dir@,
    {
        SPA { ui_dir: ui_dir.to_owned(), resources_dir: resources_dir.to_owned() }
    }
}

} // verus!
