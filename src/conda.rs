//! Conda `environment.yml` dependency entries.

use vstd::prelude::*;
use crate::constraint::{spec_of, SpecModel, VersionSpec};
use crate::parser::DependencyParser;
use crate::types::Dependency;
use crate::yaml_doc::{parse_yaml, yaml_entry, yaml_is_mapping, yaml_items, yaml_text};
use crate::text::{
    char_len, file_name, file_name_of, find, find_in, has_prefix, lemma_find_from_bounds,
    lower_of, same_text, slice, starts_with, to_lower, trim, trim_of,
};

verus! {

/// The conda operators as searched for, `=` last.
pub open spec fn conda_op(k: int) -> Seq<char> {
    if k == 0 {
        ">="@
    } else if k == 1 {
        "<="@
    } else if k == 2 {
        "!="@
    } else if k == 3 {
        ">"@
    } else if k == 4 {
        "<"@
    } else {
        "="@
    }
}

/// The operator each stands for; conda's `=` pins, as `==` does.
pub open spec fn conda_written(k: int) -> Seq<char> {
    if k == 5 {
        "=="@
    } else {
        conda_op(k)
    }
}

fn conda_op_text(k: usize) -> (r: (&'static str, &'static str))
    requires
        k < 6,
    ensures
        r.0@ == conda_op(k as int),
        r.1@ == conda_written(k as int),
{
    if k == 0 {
        (">=", ">=")
    } else if k == 1 {
        ("<=", "<=")
    } else if k == 2 {
        ("!=", "!=")
    } else if k == 3 {
        (">", ">")
    } else if k == 4 {
        ("<", "<")
    } else {
        ("=", "==")
    }
}

/// The constraint `text` parses to, `Any` where it does not.
#[verifier::opaque]
pub open spec fn spec_or_any(text: Seq<char>) -> SpecModel {
    match spec_of(trim_of(text)) {
        Some(x) => x,
        None => SpecModel::Any,
    }
}

fn parse_or_any(text: &str) -> (r: VersionSpec)
    ensures
        r@ == spec_or_any(text@),
{
    reveal(spec_or_any);
    match VersionSpec::parse(text) {
        Ok(x) => x,
        Err(_) => VersionSpec::Any,
    }
}

pub open spec fn conda_entry_from(t: Seq<char>, k: int) -> Option<(Seq<char>, SpecModel)>
    decreases 6 - k,
{
    if k < 0 || k >= 6 {
        Some((lower_of(t), SpecModel::Any))
    } else {
        match find(t, conda_op(k)) {
            Some(i) => Some(
                (
                    lower_of(trim_of(t.take(i))),
                    spec_or_any(conda_written(k) + trim_of(t.skip(i + conda_op(k).len()))),
                ),
            ),
            None => conda_entry_from(t, k + 1),
        }
    }
}

/// The name and constraint of a conda entry such as `numpy>=1.24` or
/// `python=3.9.*`: the first operator found, tried in order, splits it.
pub open spec fn conda_entry(s: Seq<char>) -> Option<(Seq<char>, SpecModel)> {
    let t = trim_of(s);
    if t.len() == 0 || has_prefix(t, "#"@) {
        None
    } else {
        conda_entry_from(t, 0)
    }
}

/// The operators a pip entry may use.
pub open spec fn pip_op(k: int) -> Seq<char> {
    if k == 0 {
        "=="@
    } else if k == 1 {
        ">="@
    } else if k == 2 {
        "<="@
    } else if k == 3 {
        "~="@
    } else if k == 4 {
        "!="@
    } else if k == 5 {
        "<"@
    } else if k == 6 {
        ">"@
    } else if k == 7 {
        "^"@
    } else {
        "~"@
    }
}

fn pip_op_text(k: usize) -> (r: &'static str)
    requires
        k < 9,
    ensures
        r@ == pip_op(k as int),
{
    if k == 0 {
        "=="
    } else if k == 1 {
        ">="
    } else if k == 2 {
        "<="
    } else if k == 3 {
        "~="
    } else if k == 4 {
        "!="
    } else if k == 5 {
        "<"
    } else if k == 6 {
        ">"
    } else if k == 7 {
        "^"
    } else {
        "~"
    }
}

/// The earliest position of any operator from the `k`-th on.
pub open spec fn earliest_op_from(t: Seq<char>, k: int, best: Option<int>) -> Option<int>
    decreases 9 - k,
{
    if k < 0 || k >= 9 {
        best
    } else {
        let next = match find(t, pip_op(k)) {
            Some(p) => match best {
                Some(b) => if p < b {
                    Some(p)
                } else {
                    Some(b)
                },
                None => Some(p),
            },
            None => best,
        };
        earliest_op_from(t, k + 1, next)
    }
}

/// The name and constraint of a pip entry such as `numpy>=1.24,<2`: the
/// constraint starts at the earliest operator.
pub open spec fn pip_entry(s: Seq<char>) -> Option<(Seq<char>, SpecModel)> {
    let t = trim_of(s);
    if t.len() == 0 || has_prefix(t, "#"@) {
        None
    } else {
        match earliest_op_from(t, 0, None) {
            Some(p) => Some((lower_of(trim_of(t.take(p))), spec_or_any(trim_of(t.skip(p))))),
            None => Some((lower_of(t), SpecModel::Any)),
        }
    }
}

/// Parser of conda environment files.
#[derive(Debug, Clone)]
pub struct CondaParser;

impl CondaParser {
    pub fn new() -> (r: CondaParser) {
        CondaParser
    }

    /// `environment.yml` or `environment.yaml`.
    pub fn can_parse(&self, path: &str) -> (r: bool)
        ensures
            r == (file_name_of(path@) == "environment.yml"@ || file_name_of(path@)
                == "environment.yaml"@),
    {
        let n = file_name(path);
        same_text(n, "environment.yml") || same_text(n, "environment.yaml")
    }

    /// Parses a conda dependency entry.
    pub fn parse_conda_dependency(dep_str: &str) -> (r: Option<(String, VersionSpec)>)
        ensures
            match r {
                Some((n, s)) => conda_entry(dep_str@) == Some((n@, s@)),
                None => conda_entry(dep_str@).is_none(),
            },
    {
        let t = trim(dep_str);
        if char_len(t) == 0 || starts_with(t, "#") {
            return None;
        }
        let n = char_len(t);
        assert(conda_entry(dep_str@) == conda_entry_from(t@, 0));
        let mut k: usize = 0;
        while k < 6
            invariant
                k <= 6,
                n == t@.len(),
                conda_entry_from(t@, 0) == conda_entry_from(t@, k as int),
                t@ == trim_of(dep_str@),
                conda_entry(dep_str@) == conda_entry_from(t@, 0),
            decreases 6 - k,
        {
            let (op, written) = conda_op_text(k);
            match find_in(t, op, false) {
                Some(i) => {
                    proof {
                        lemma_find_from_bounds(t@, op@, 0, false);
                    }
                    let m = char_len(op);
                    let head = slice(t, 0, i);
                    assert(head@ =~= t@.take(i as int));
                    let tail = slice(t, i + m, n);
                    assert(tail@ =~= t@.skip(i + m));
                    let name = to_lower(trim(head));
                    let mut text = String::from_str(written);
                    text.append(trim(tail));
                    let spec = parse_or_any(text.as_str());
                    assert(text@ == conda_written(k as int) + trim_of(t@.skip(i + m)));
                    return Some((name, spec));
                },
                None => {},
            }
            k = k + 1;
        }
        Some((to_lower(t), VersionSpec::Any))
    }

    /// Parses a dependency of a conda file's `pip` section.
    pub fn parse_pip_dependency(dep_str: &str) -> (r: Option<(String, VersionSpec)>)
        ensures
            match r {
                Some((n, s)) => pip_entry(dep_str@) == Some((n@, s@)),
                None => pip_entry(dep_str@).is_none(),
            },
    {
        let t = trim(dep_str);
        if char_len(t) == 0 || starts_with(t, "#") {
            return None;
        }
        let n = char_len(t);
        let mut best: Option<usize> = None;
        let mut k: usize = 0;
        while k < 9
            invariant
                k <= 9,
                n == t@.len(),
                earliest_op_from(t@, 0, None) == earliest_op_from(
                    t@,
                    k as int,
                    match best {
                        Some(b) => Some(b as int),
                        None => None,
                    },
                ),
                best.is_some() ==> best.unwrap() <= n,
            decreases 9 - k,
        {
            let op = pip_op_text(k);
            match find_in(t, op, false) {
                Some(p) => {
                    proof {
                        lemma_find_from_bounds(t@, op@, 0, false);
                    }
                    best = match best {
                        Some(b) => if p < b {
                            Some(p)
                        } else {
                            Some(b)
                        },
                        None => Some(p),
                    };
                },
                None => {},
            }
            k = k + 1;
        }
        match best {
            Some(p) => {
                let head = slice(t, 0, p);
                assert(head@ =~= t@.take(p as int));
                let tail = slice(t, p, n);
                assert(tail@ =~= t@.skip(p as int));
                Some((to_lower(trim(head)), parse_or_any(trim(tail))))
            },
            None => Some((to_lower(t), VersionSpec::Any)),
        }
    }
}

fn listed(prefix: &str, entry: &str) -> (r: String)
    ensures
        r@ == prefix@ + entry@,
{
    let mut out = String::from_str(prefix);
    out.append(entry);
    out
}

impl CondaParser {
    /// The dependencies of an environment file's text: each string entry
    /// of `dependencies` as a conda entry, numbered from line 2 by its
    /// position, and each string of a `pip:` entry as a pip entry,
    /// numbered after it; `None` where the text is no valid YAML.
    pub fn parse(&self, content: &str, path: &str) -> (r: Option<Vec<Dependency>>)
        ensures
            match r {
                Some(v) => forall|k: int| 0 <= k < v@.len() ==> (#[trigger] v@[k]).source_file@ == path@,
                None => true,
            },
    {
        let doc = match parse_yaml(content) {
            Some(d) => d,
            None => {
                return None;
            },
        };
        let mut out: Vec<Dependency> = Vec::new();
        let deps = match yaml_entry(&doc, "dependencies") {
            Some(d) => match yaml_items(d) {
                Some(items) => items,
                None => {
                    return Some(out);
                },
            },
            None => {
                return Some(out);
            },
        };
        let mut i: usize = 0;
        while i < deps.len()
            invariant
                i <= deps@.len(),
                forall|k: int| 0 <= k < out@.len() ==> (#[trigger] out@[k]).source_file@ == path@,
            decreases deps@.len() - i,
        {
            let line_number = i.saturating_add(2);
            let dep = &deps[i];
            match yaml_text(dep) {
                Some(text) => match CondaParser::parse_conda_dependency(text) {
                    Some((name, version_spec)) => {
                        out.push(
                            Dependency {
                                name,
                                version_spec,
                                source_file: String::from_str(path),
                                line_number,
                                original_line: listed("  - ", text),
                            },
                        );
                    },
                    None => {},
                },
                None => if yaml_is_mapping(dep) {
                    match yaml_entry(dep, "pip") {
                        Some(p) => match yaml_items(p) {
                            Some(pips) => {
                                let mut j: usize = 0;
                                while j < pips.len()
                                    invariant
                                        j <= pips@.len(),
                                        forall|k: int|
                                            0 <= k < out@.len() ==> (#[trigger] out@[k]).source_file@
                                                == path@,
                                    decreases pips@.len() - j,
                                {
                                    match yaml_text(&pips[j]) {
                                        Some(text) => match CondaParser::parse_pip_dependency(text) {
                                            Some((name, version_spec)) => {
                                                out.push(
                                                    Dependency {
                                                        name,
                                                        version_spec,
                                                        source_file: String::from_str(path),
                                                        line_number: line_number.saturating_add(
                                                            j,
                                                        ).saturating_add(1),
                                                        original_line: listed("    - ", text),
                                                    },
                                                );
                                            },
                                            None => {},
                                        },
                                        None => {},
                                    }
                                    j = j + 1;
                                }
                            },
                            None => {},
                        },
                        None => {},
                    }
                },
            }
            i = i + 1;
        }
        Some(out)
    }
}

impl DependencyParser for CondaParser {
    fn can_parse(&self, path: &str) -> bool {
        CondaParser::can_parse(self, path)
    }
}

} // verus!
