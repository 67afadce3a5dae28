//! Python lock files, which give the installed versions.

use vstd::prelude::*;
use crate::text::{file_name, file_name_of, replace_all, same_text, to_lower};
use crate::toml_doc::{entry, items_of, parse_document, text_of};
use crate::version::Version;

verus! {

/// The lock file names this parser recognises.
pub open spec fn is_lockfile_name(n: Seq<char>) -> bool {
    n == "uv.lock"@ || n == "poetry.lock"@ || n == "pdm.lock"@ || n == "Pipfile.lock"@ || n
        == "conda-lock.yml"@
}

/// The lock files read for installed versions, in order of preference.
pub open spec fn readable_lockfile(n: Seq<char>) -> bool {
    n == "uv.lock"@ || n == "poetry.lock"@ || n == "pdm.lock"@
}

/// Why a lock file gave no versions.
#[derive(Debug, Clone, Copy, PartialEq, Eq, Structural)]
pub enum LockfileError {
    /// A lock file of a kind that is not read.
    Unsupported,
    /// Not valid TOML, or a package without a string name and version.
    Invalid,
}

pub open spec fn distinct_names(v: Seq<(String, Version)>) -> bool {
    forall|k: int, l: int| 0 <= k < l < v.len() ==> (#[trigger] v[k]).0@ != (#[trigger] v[l]).0@
}

/// Sets the version of `name`, replacing an earlier one.
pub(crate) fn record(out: &mut Vec<(String, Version)>, name: String, version: Version)
    requires
        distinct_names(old(out)@),
    ensures
        distinct_names(final(out)@),
        exists|k: int| 0 <= k < final(out)@.len() && (#[trigger] final(out)@[k]).0@ == name@,
{
    let mut i: usize = 0;
    while i < out.len()
        invariant
            i <= out@.len(),
            out@ == old(out)@,
            distinct_names(out@),
            forall|k: int| 0 <= k < i ==> (#[trigger] out@[k]).0@ != name@,
        decreases out@.len() - i,
    {
        if same_text(out[i].0.as_str(), name.as_str()) {
            let ghost before = out@;
            assert(before[i as int].0@ == name@);
            assert(distinct_names(before));
            out.set(i, (name, version));
            assert forall|k: int, l: int| 0 <= k < l < out@.len() implies (#[trigger] out@[k]).0@
                != (#[trigger] out@[l]).0@ by {
                if k != i as int && l != i as int {
                    assert(out@[k] == before[k] && out@[l] == before[l]);
                } else if k == i as int {
                    assert(out@[l] == before[l]);
                    assert(before[k].0@ == out@[k].0@);
                } else {
                    assert(out@[k] == before[k]);
                    assert(before[l].0@ == out@[l].0@);
                }
            }
            assert(out@[i as int].0@ == name@);
            return;
        }
        i = i + 1;
    }
    let ghost before = out@;
    out.push((name, version));
    assert forall|k: int, l: int| 0 <= k < l < out@.len() implies (#[trigger] out@[k]).0@
        != (#[trigger] out@[l]).0@ by {
        assert(out@[k] == before[k]);
        if l < before.len() {
            assert(out@[l] == before[l]);
        }
    }
    assert(out@[before.len() as int].0@ == name@);
}

/// Sets the version of `name` unless it has one already.
pub(crate) fn record_first(out: &mut Vec<(String, Version)>, name: String, version: Version)
    requires
        distinct_names(old(out)@),
    ensures
        distinct_names(final(out)@),
        exists|k: int| 0 <= k < final(out)@.len() && (#[trigger] final(out)@[k]).0@ == name@,
{
    let mut i: usize = 0;
    while i < out.len()
        invariant
            i <= out@.len(),
            out@ == old(out)@,
            distinct_names(out@),
            forall|k: int| 0 <= k < i ==> (#[trigger] out@[k]).0@ != name@,
        decreases out@.len() - i,
    {
        if same_text(out[i].0.as_str(), name.as_str()) {
            assert(out@[i as int].0@ == name@);
            return;
        }
        i = i + 1;
    }
    record(out, name, version);
}

/// Reader of Python lock files.
#[derive(Debug, Clone)]
pub struct LockfileParser;

impl LockfileParser {
    pub fn new() -> (r: LockfileParser) {
        LockfileParser
    }

    /// Whether the file is one of the known lock files.
    pub fn can_parse(&self, path: &str) -> (r: bool)
        ensures
            r == is_lockfile_name(file_name_of(path@)),
    {
        let n = file_name(path);
        same_text(n, "uv.lock") || same_text(n, "poetry.lock") || same_text(n, "pdm.lock")
            || same_text(n, "Pipfile.lock") || same_text(n, "conda-lock.yml")
    }

    /// The installed versions a `uv.lock`, `poetry.lock` or `pdm.lock`
    /// text records: each `[[package]]`'s name, lower case with `-` for
    /// `_`, with its version; a later entry of a name wins and versions
    /// that do not parse are skipped.
    pub fn parse(&self, path: &str, content: &str) -> (r: Result<Vec<(String, Version)>, LockfileError>)
        ensures
            !readable_lockfile(file_name_of(path@)) ==> r == Err::<Vec<(String, Version)>, _>(
                LockfileError::Unsupported,
            ),
            r matches Ok(v) ==> distinct_names(v@),
    {
        let n = file_name(path);
        if !(same_text(n, "uv.lock") || same_text(n, "poetry.lock") || same_text(n, "pdm.lock")) {
            return Err(LockfileError::Unsupported);
        }
        assert(readable_lockfile(file_name_of(path@)));
        let doc = match parse_document(content) {
            Some(d) => d,
            None => {
                return Err(LockfileError::Invalid);
            },
        };
        let packages = match entry(&doc, "package") {
            Some(p) => match items_of(p) {
                Some(items) => items,
                None => {
                    return Err(LockfileError::Invalid);
                },
            },
            None => {
                return Err(LockfileError::Invalid);
            },
        };
        let mut out: Vec<(String, Version)> = Vec::new();
        let mut i: usize = 0;
        while i < packages.len()
            invariant
                i <= packages@.len(),
                distinct_names(out@),
                readable_lockfile(file_name_of(path@)),
            decreases packages@.len() - i,
        {
            let name = match entry(&packages[i], "name") {
                Some(x) => text_of(x),
                None => None,
            };
            let version = match entry(&packages[i], "version") {
                Some(x) => text_of(x),
                None => None,
            };
            match (name, version) {
                (Some(name), Some(version)) => {
                    let lowered = to_lower(name);
                    let normalized = replace_all(lowered.as_str(), "_", "-");
                    match Version::parse(version) {
                        Ok(v) => {
                            record(&mut out, normalized, v);
                        },
                        Err(_) => {},
                    }
                },
                _ => {
                    return Err(LockfileError::Invalid);
                },
            }
            i = i + 1;
        }
        Ok(out)
    }

    /// Reads the preferred lock file among the files of a directory (name
    /// and text): `uv.lock`, then `poetry.lock`, then `pdm.lock`; no
    /// versions when none is there.
    pub fn find_and_parse(&self, files: &Vec<(String, String)>) -> (r: Result<
        Vec<(String, Version)>,
        LockfileError,
    >)
        ensures
            r matches Ok(v) ==> distinct_names(v@),
    {
        let mut k: usize = 0;
        while k < 3
            invariant
                k <= 3,
            decreases 3 - k,
        {
            let wanted = if k == 0 {
                "uv.lock"
            } else if k == 1 {
                "poetry.lock"
            } else {
                "pdm.lock"
            };
            let mut i: usize = 0;
            while i < files.len()
                invariant
                    i <= files@.len(),
                decreases files@.len() - i,
            {
                if same_text(file_name(files[i].0.as_str()), wanted) {
                    return self.parse(files[i].0.as_str(), files[i].1.as_str());
                }
                i = i + 1;
            }
            k = k + 1;
        }
        Ok(Vec::new())
    }
}

} // verus!
