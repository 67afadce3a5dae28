//! The options that steer a run.

use vstd::prelude::*;

verus! {

/// Command-line options, as plain values.
#[derive(Debug, Clone)]
pub struct Args {
    /// Project directory; the current directory when absent.
    pub path: Option<String>,
    /// Write the updates back to the files.
    pub update: bool,
    /// Move pinned versions to the latest release of their major series.
    pub minor: bool,
    /// Move every constraint to the absolute latest release.
    pub force_latest: bool,
    /// Take pre-releases into account.
    pub pre_release: bool,
}

impl Args {
    /// The project directory, `.` when none was given.
    pub fn project_path(&self) -> (r: String)
        ensures
            r@ == match self.path {
                Some(p) => p@,
                None => "."@,
            },
    {
        match &self.path {
            Some(p) => p.clone(),
            None => String::from_str("."),
        }
    }
}

} // verus!
