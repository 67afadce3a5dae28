//! The Python interpreter of the environment and its latest release.

use vstd::prelude::*;
use crate::text::{has_prefix, starts_with, strip_prefix, trim, trim_of};
use crate::version::{Version, VersionModel, version_in};

verus! {

/// The running interpreter's version and the latest known release.
#[derive(Debug, Clone)]
pub struct PythonInfo {
    pub current: Version,
    pub latest: Option<Version>,
}

impl PythonInfo {
    /// Whether a newer release than the current one is known.
    pub fn has_update(&self) -> (r: bool)
        ensures
            r == match self.latest {
                Some(l) => self.current@.lt(l@),
                None => false,
            },
    {
        match &self.latest {
            Some(l) => self.current.less_than(l),
            None => false,
        }
    }
}


/// The version `python --version` printed, as `Python X.Y.Z`.
pub open spec fn reported_version(out: Seq<char>) -> Option<VersionModel> {
    let t = trim_of(out);
    if has_prefix(t, "Python "@) {
        version_in(t.skip("Python "@.len() as int))
    } else {
        None
    }
}

/// Reads the version from the output of `python --version`.
pub fn python_version_from_output(out: &str) -> (r: Option<Version>)
    ensures
        match r {
            Some(v) => reported_version(out@) == Some(v@),
            None => reported_version(out@).is_none(),
        },
{
    match strip_prefix(trim(out), "Python ") {
        Some(rest) => match Version::parse(rest) {
            Ok(v) => Some(v),
            Err(_) => None,
        },
        None => None,
    }
}

/// The first Python 3 release line, newest first, whose latest version
/// parses.
pub open spec fn latest_python_from(cycles: Seq<(String, String)>, k: int) -> Option<VersionModel>
    decreases cycles.len() - k,
{
    if k < 0 || k >= cycles.len() {
        None
    } else if has_prefix(cycles[k].0@, "3."@) && version_in(cycles[k].1@).is_some() {
        version_in(cycles[k].1@)
    } else {
        latest_python_from(cycles, k + 1)
    }
}

/// The latest Python 3 release, from the release lines (name and latest
/// version) listed newest first.
pub fn latest_python_release(cycles: &Vec<(String, String)>) -> (r: Option<Version>)
    ensures
        match r {
            Some(v) => latest_python_from(cycles@, 0) == Some(v@),
            None => latest_python_from(cycles@, 0).is_none(),
        },
{
    let mut k: usize = 0;
    while k < cycles.len()
        invariant
            k <= cycles@.len(),
            latest_python_from(cycles@, 0) == latest_python_from(cycles@, k as int),
        decreases cycles@.len() - k,
    {
        if starts_with(cycles[k].0.as_str(), "3.") {
            match Version::parse(cycles[k].1.as_str()) {
                Ok(v) => {
                    return Some(v);
                },
                Err(_) => {},
            }
        }
        k = k + 1;
    }
    None
}

} // verus!
