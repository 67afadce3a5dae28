//! `requirements.txt` files.

use vstd::prelude::*;
use crate::constraint::{spec_of, SpecModel, VersionSpec};
use crate::parser::DependencyParser;
use crate::text::{
    count_char, count_in, file_name, file_name_of, find, find_char, find_char_in, find_in,
    has_prefix, has_suffix, lemma_find_from_bounds, lines, lines_of, lower_of, replace_all,
    replaced, slice, char_len, starts_with, ends_with, to_lower, trim, trim_of, views,
};
use crate::types::Dependency;

verus! {

/// The text before the first `c`, trimmed; all of `s` without one.
pub open spec fn cut_at(s: Seq<char>, c: char) -> Seq<char> {
    match find_char(s, c) {
        Some(i) => trim_of(s.take(i)),
        None => s,
    }
}

fn cut(s: &str, c: char) -> (r: &str)
    ensures
        r@ == cut_at(s@, c),
{
    match find_char_in(s, c) {
        Some(i) => {
            proof {
                lemma_find_from_bounds(s@, seq![c], 0, false);
            }
            let head = slice(s, 0, i);
            assert(head@ =~= s@.take(i as int));
            trim(head)
        },
        None => s,
    }
}

/// The version operators, two-char ones first.
pub open spec fn requirement_op(k: int) -> Seq<char> {
    if k == 0 {
        "=="@
    } else if k == 1 {
        ">="@
    } else if k == 2 {
        "<="@
    } else if k == 3 {
        "~="@
    } else if k == 4 {
        "!="@
    } else if k == 5 {
        ">"@
    } else {
        "<"@
    }
}

fn requirement_op_text(k: usize) -> (r: &'static str)
    requires
        k < 7,
    ensures
        r@ == requirement_op(k as int),
{
    if k == 0 {
        "=="
    } else if k == 1 {
        ">="
    } else if k == 2 {
        "<="
    } else if k == 3 {
        "~="
    } else if k == 4 {
        "!="
    } else if k == 5 {
        ">"
    } else {
        "<"
    }
}

/// Where the version starts: the first occurrence of the first operator,
/// tried in order, that stands outside the extras' brackets.
pub open spec fn version_start_from(s: Seq<char>, k: int) -> Option<int>
    decreases 7 - k,
{
    if k < 0 || k >= 7 {
        None
    } else {
        match find(s, requirement_op(k)) {
            Some(i) => if count_char(s.take(i), '[') == count_char(s.take(i), ']') {
                Some(i)
            } else {
                version_start_from(s, k + 1)
            },
            None => version_start_from(s, k + 1),
        }
    }
}

/// The package (with extras) and the version text of a requirement.
pub open spec fn split_requirement(s: Seq<char>) -> (Seq<char>, Seq<char>) {
    match version_start_from(s, 0) {
        Some(i) => (trim_of(s.take(i)), trim_of(s.skip(i))),
        None => (trim_of(s), seq![]),
    }
}

/// The constraint a version text gives: `Any` when empty, what it parses
/// to, else kept whole as `Complex`.
pub open spec fn spec_or_complex(v: Seq<char>) -> SpecModel {
    if v.len() == 0 {
        SpecModel::Any
    } else {
        match spec_of(trim_of(v)) {
            Some(x) => x,
            None => SpecModel::Complex(v),
        }
    }
}

/// The name and constraint one line declares; blank lines, comments and
/// pip options (`-r`, `--index-url`, ...) declare none.
pub open spec fn requirement_of(line: Seq<char>) -> Option<(Seq<char>, SpecModel)> {
    let t = trim_of(line);
    if t.len() == 0 || has_prefix(t, "#"@) || has_prefix(t, "-"@) {
        None
    } else {
        let clean = cut_at(cut_at(t, ';'), '#');
        if clean.len() == 0 {
            None
        } else {
            let pkg = split_requirement(clean).0;
            let ver = split_requirement(clean).1;
            let name = replaced(lower_of(cut_at(pkg, '[')), "_"@, "-"@);
            Some((name, spec_or_complex(ver)))
        }
    }
}

/// The dependencies the lines declare, numbered from `first`.
pub open spec fn requirements_of(ls: Seq<Seq<char>>) -> Seq<(Seq<char>, SpecModel, int)>
    decreases ls.len(),
{
    if ls.len() == 0 {
        seq![]
    } else {
        requirements_of(ls.drop_last()) + match requirement_of(ls.last()) {
            Some((n, s)) => seq![(n, s, ls.len() as int)],
            None => seq![],
        }
    }
}

pub open spec fn dependency_views(v: Seq<Dependency>) -> Seq<(Seq<char>, SpecModel, int)> {
    v.map_values(|d: Dependency| (d.name@, d.version_spec@, d.line_number as int))
}

/// Parses a constraint text; falls back to `Complex` rather than fail.
pub fn spec_or_complex_of(v: &str) -> (r: VersionSpec)
    ensures
        r@ == spec_or_complex(v@),
{
    if char_len(v) == 0 {
        VersionSpec::Any
    } else {
        match VersionSpec::parse(v) {
            Ok(x) => x,
            Err(_) => VersionSpec::Complex(String::from_str(v)),
        }
    }
}

/// Parser of `requirements*.txt` files.
#[derive(Debug, Clone)]
pub struct RequirementsParser;

impl RequirementsParser {
    pub fn new() -> (r: RequirementsParser) {
        RequirementsParser
    }

    /// Splits a requirement into the package with its extras and the
    /// version text.
    pub fn split_package_version(spec: &str) -> (r: (&str, &str))
        ensures
            (r.0@, r.1@) == split_requirement(spec@),
    {
        let mut k: usize = 0;
        while k < 7
            invariant
                k <= 7,
                version_start_from(spec@, 0) == version_start_from(spec@, k as int),
            decreases 7 - k,
        {
            let op = requirement_op_text(k);
            match find_in(spec, op, false) {
                Some(i) => {
                    proof {
                        lemma_find_from_bounds(spec@, op@, 0, false);
                    }
                    let n = char_len(spec);
                    let before = slice(spec, 0, i);
                    assert(before@ =~= spec@.take(i as int));
                    if count_in(before, '[') == count_in(before, ']') {
                        let after = slice(spec, i, n);
                        assert(after@ =~= spec@.skip(i as int));
                        return (trim(before), trim(after));
                    }
                },
                None => {},
            }
            k = k + 1;
        }
        proof {
            reveal_strlit("");
            assert(""@ =~= Seq::<char>::empty());
        }
        (trim(spec), "")
    }

    /// Parses one line of a requirements file.
    pub fn parse_line(line: &str, line_number: usize, source_file: &str) -> (r: Option<Dependency>)
        ensures
            match r {
                Some(d) => requirement_of(line@) == Some((d.name@, d.version_spec@))
                    && d.line_number == line_number && d.source_file@ == source_file@
                    && d.original_line@ == line@,
                None => requirement_of(line@).is_none(),
            },
    {
        proof {
            reveal_strlit("_");
        }
        let t = trim(line);
        if char_len(t) == 0 || starts_with(t, "#") || starts_with(t, "-") {
            return None;
        }
        let clean = cut(cut(t, ';'), '#');
        if char_len(clean) == 0 {
            return None;
        }
        let (pkg, ver) = RequirementsParser::split_package_version(clean);
        let lowered = to_lower(cut(pkg, '['));
        let name = replace_all(lowered.as_str(), "_", "-");
        let version_spec = spec_or_complex_of(ver);
        Some(
            Dependency {
                name,
                version_spec,
                source_file: String::from_str(source_file),
                line_number,
                original_line: String::from_str(line),
            },
        )
    }

    /// The dependencies a requirements text declares, each with its line
    /// number counted from 1.
    pub fn parse(&self, content: &str, path: &str) -> (r: Vec<Dependency>)
        ensures
            dependency_views(r@) == requirements_of(lines_of(content@)),
            forall|k: int| 0 <= k < r@.len() ==> (#[trigger] r@[k]).source_file@ == path@,
    {
        let ls = lines(content);
        let ghost lv = lines_of(content@);
        let mut out: Vec<Dependency> = Vec::new();
        let mut i: usize = 0;
        assert(lv.take(0) =~= Seq::<Seq<char>>::empty());
        assert(dependency_views(out@) =~= Seq::<(Seq<char>, SpecModel, int)>::empty());
        while i < ls.len()
            invariant
                views(ls@) == lv,
                i <= ls@.len(),
                dependency_views(out@) == requirements_of(lv.take(i as int)),
                forall|k: int| 0 <= k < out@.len() ==> (#[trigger] out@[k]).source_file@ == path@,
            decreases ls@.len() - i,
        {
            let line = ls[i];
            assert(lv[i as int] == line@);
            assert(lv.take(i + 1).drop_last() =~= lv.take(i as int));
            match RequirementsParser::parse_line(line, i + 1, path) {
                Some(d) => {
                    let ghost before = dependency_views(out@);
                    let ghost dv = (d.name@, d.version_spec@, d.line_number as int);
                    out.push(d);
                    assert(dependency_views(out@) =~= before.push(dv));
                },
                None => {},
            }
            assert(dependency_views(out@) =~= requirements_of(lv.take(i + 1)));
            i = i + 1;
        }
        assert(lv.take(ls@.len() as int) =~= lv);
        out
    }

    /// `requirements*.txt`.
    pub fn can_parse(&self, path: &str) -> (r: bool)
        ensures
            r == (has_prefix(file_name_of(path@), "requirements"@) && has_suffix(
                file_name_of(path@),
                ".txt"@,
            )),
    {
        let n = file_name(path);
        starts_with(n, "requirements") && ends_with(n, ".txt")
    }
}

impl DependencyParser for RequirementsParser {
    fn can_parse(&self, path: &str) -> bool {
        RequirementsParser::can_parse(self, path)
    }
}

} // verus!
