//! `pyproject.toml` files: PEP 621, Poetry, PDM and PEP 735 dependency lists.

use vstd::prelude::*;
use crate::constraint::{spec_of, SpecModel, VersionSpec};
use crate::parser::DependencyParser;
use crate::text::{char_len, file_name, file_name_of, find, find_char, find_char_in, find_from, find_in, lemma_find_from_bounds, lines, lines_of, lower_of, replace_all, replaced, same_text, slice, to_lower, trim, trim_of, views};
use crate::toml_doc::{entries_of, entry, items_of, parse_document, text_of};
use crate::types::Dependency;

verus! {

/// Whether a line is the one that declares `pkg`: it names the package
/// (case-insensitively), holds `=` or the exact name, and the name is not
/// only in a comment.
pub open spec fn declares(line: Seq<char>, pkg: Seq<char>) -> bool {
    let pl = lower_of(pkg);
    &&& find_from(lower_of(line), pl, 0, false).is_some()
    &&& (find_char(line, '=').is_some() || find(line, pkg).is_some())
    &&& match find_char(line, '#') {
        Some(ci) => find_from(lower_of(line.take(ci)), pl, 0, false).is_some(),
        None => true,
    }
}

/// The first line from `from` on that declares `pkg`, counted from 1.
pub open spec fn declaring_line(ls: Seq<Seq<char>>, pkg: Seq<char>, from: int) -> Option<int>
    decreases ls.len() - from,
{
    if from < 0 || from >= ls.len() {
        None
    } else if declares(ls[from], pkg) {
        Some(from + 1)
    } else {
        declaring_line(ls, pkg, from + 1)
    }
}

/// The line number and text of a declaration; line 1 and a synthesised
/// `pkg = "version"` when no line declares the package.
pub open spec fn declaration_of(content: Seq<char>, pkg: Seq<char>, version: Seq<char>) -> (
    int,
    Seq<char>,
) {
    let ls = lines_of(content);
    match declaring_line(ls, pkg, 0) {
        Some(n) => (n, trim_of(ls[n - 1])),
        None => (1, pkg + " = \""@ + version + "\""@),
    }
}

/// The operators a dependency string may use, in the order tried.
pub open spec fn dependency_op(k: int) -> Seq<char> {
    if k == 0 {
        ">="@
    } else if k == 1 {
        "<="@
    } else if k == 2 {
        "=="@
    } else if k == 3 {
        "!="@
    } else if k == 4 {
        "~="@
    } else if k == 5 {
        ">"@
    } else if k == 6 {
        "<"@
    } else if k == 7 {
        "^"@
    } else {
        "~"@
    }
}

fn dependency_op_text(k: usize) -> (r: &'static str)
    requires
        k < 9,
    ensures
        r@ == dependency_op(k as int),
{
    if k == 0 {
        ">="
    } else if k == 1 {
        "<="
    } else if k == 2 {
        "=="
    } else if k == 3 {
        "!="
    } else if k == 4 {
        "~="
    } else if k == 5 {
        ">"
    } else if k == 6 {
        "<"
    } else if k == 7 {
        "^"
    } else {
        "~"
    }
}

/// Where the first operator, tried in order, occurs.
pub open spec fn op_position_from(s: Seq<char>, k: int) -> Option<int>
    decreases 9 - k,
{
    if k < 0 || k >= 9 {
        None
    } else {
        match find(s, dependency_op(k)) {
            Some(i) => Some(i),
            None => op_position_from(s, k + 1),
        }
    }
}

/// The part of a dependency string before markers and extras.
pub open spec fn dependency_core(dep: Seq<char>) -> Seq<char> {
    let t = trim_of(dep);
    let unmarked = trim_of(
        match find_char(t, ';') {
            Some(i) => t.take(i),
            None => t,
        },
    );
    match find_char(unmarked, '[') {
        Some(i) => unmarked.take(i),
        None => unmarked,
    }
}

/// The normalised name of a package: lower case, `_` as `-`.
pub open spec fn normalized(pkg: Seq<char>) -> Seq<char> {
    replaced(lower_of(pkg), "_"@, "-"@)
}

/// The package name, constraint and version text a dependency string
/// such as `requests[socks]>=2.28; python_version>"3.8"` declares; `None`
/// where it is empty or its constraint does not parse.
pub open spec fn dependency_entry(dep: Seq<char>) -> Option<(Seq<char>, SpecModel, Seq<char>)> {
    let core = dependency_core(dep);
    match op_position_from(core, 0) {
        Some(i) => {
            let pkg = trim_of(core.take(i));
            let vpart = trim_of(core.skip(i));
            match spec_of(trim_of(vpart)) {
                Some(s) => Some((pkg, s, vpart)),
                None => None,
            }
        },
        None => if core.len() > 0 {
            Some((trim_of(core), SpecModel::Any, seq![]))
        } else {
            None
        },
    }
}

pub open spec fn name_views(v: Seq<Dependency>) -> Seq<Seq<char>> {
    v.map_values(|d: Dependency| d.name@)
}

/// Parser of `pyproject.toml` files.
#[derive(Debug, Clone)]
pub struct PyProjectParser;

impl PyProjectParser {
    pub fn new() -> (r: PyProjectParser) {
        PyProjectParser
    }

    /// A file named `pyproject.toml`, in any directory.
    pub fn can_parse(&self, path: &str) -> (r: bool)
        ensures
            r == (file_name_of(path@) == "pyproject.toml"@),
    {
        same_text(file_name(path), "pyproject.toml")
    }

    /// The line that declares a package, and its text.
    pub fn find_line_in_content(content: &str, pkg_name: &str, version_str: &str) -> (r: (
        usize,
        String,
    ))
        ensures
            (r.0 as int, r.1@) == declaration_of(content@, pkg_name@, version_str@),
    {
        let ls = lines(content);
        let ghost lv = lines_of(content@);
        let pl = to_lower(pkg_name);
        let mut i: usize = 0;
        while i < ls.len()
            invariant
                views(ls@) == lv,
                lv == lines_of(content@),
                pl@ == lower_of(pkg_name@),
                i <= ls@.len(),
                declaring_line(lv, pkg_name@, 0) == declaring_line(lv, pkg_name@, i as int),
            decreases ls@.len() - i,
        {
            let line = ls[i];
            assert(lv[i as int] == line@);
            let ll = to_lower(line);
            let mut found = false;
            if find_in(ll.as_str(), pl.as_str(), false).is_some() && (find_char_in(line, '=').is_some()
                || find_in(line, pkg_name, false).is_some()) {
                match find_char_in(line, '#') {
                    Some(ci) => {
                        proof {
                            lemma_find_from_bounds(line@, seq!['#'], 0, false);
                        }
                        let head = slice(line, 0, ci);
                        assert(head@ =~= line@.take(ci as int));
                        let hl = to_lower(head);
                        found = find_in(hl.as_str(), pl.as_str(), false).is_some();
                    },
                    None => {
                        found = true;
                    },
                }
            }
            assert(found == declares(lv[i as int], pkg_name@));
            if found {
                return (i + 1, String::from_str(trim(line)));
            }
            i = i + 1;
        }
        let mut text = String::from_str(pkg_name);
        text.append(" = \"");
        text.append(version_str);
        text.append("\"");
        (1, text)
    }

    fn dependency_core_of(dep_str: &str) -> (r: &str)
        ensures
            r@ == dependency_core(dep_str@),
    {
        let t = trim(dep_str);
        let unmarked = match find_char_in(t, ';') {
            Some(i) => {
                proof {
                    lemma_find_from_bounds(t@, seq![';'], 0, false);
                }
                let x = slice(t, 0, i);
                assert(x@ =~= t@.take(i as int));
                trim(x)
            },
            None => trim(t),
        };
        match find_char_in(unmarked, '[') {
            Some(i) => {
                proof {
                    lemma_find_from_bounds(unmarked@, seq!['['], 0, false);
                }
                let x = slice(unmarked, 0, i);
                assert(x@ =~= unmarked@.take(i as int));
                x
            },
            None => unmarked,
        }
    }

    /// Parses a PEP 508 dependency string of a pyproject list.
    pub fn parse_dependency_string(dep_str: &str, path: &str, content: &str) -> (r: Option<
        Dependency,
    >)
        ensures
            match r {
                Some(d) => match dependency_entry(dep_str@) {
                    Some((pkg, s, v)) => d.name@ == normalized(pkg) && d.version_spec@ == s
                        && d.source_file@ == path@ && (d.line_number as int, d.original_line@)
                        == declaration_of(content@, pkg, v),
                    None => false,
                },
                None => dependency_entry(dep_str@).is_none(),
            },
    {
        proof {
            reveal_strlit("_");
            reveal_strlit("");
        }
        let core = PyProjectParser::dependency_core_of(dep_str);
        let n = char_len(core);
        let mut k: usize = 0;
        while k < 9
            invariant
                k <= 9,
                n == core@.len(),
                core@ == dependency_core(dep_str@),
                op_position_from(core@, 0) == op_position_from(core@, k as int),
            decreases 9 - k,
        {
            let op = dependency_op_text(k);
            match find_in(core, op, false) {
                Some(i) => {
                    proof {
                        lemma_find_from_bounds(core@, op@, 0, false);
                    }
                    let head = slice(core, 0, i);
                    assert(head@ =~= core@.take(i as int));
                    let tail = slice(core, i, n);
                    assert(tail@ =~= core@.skip(i as int));
                    let pkg = trim(head);
                    let vpart = trim(tail);
                    let spec = match VersionSpec::parse(vpart) {
                        Ok(s) => s,
                        Err(_) => {
                            return None;
                        },
                    };
                    let (line_number, original_line) = PyProjectParser::find_line_in_content(
                        content,
                        pkg,
                        vpart,
                    );
                    let lowered = to_lower(pkg);
                    return Some(
                        Dependency {
                            name: replace_all(lowered.as_str(), "_", "-"),
                            version_spec: spec,
                            source_file: String::from_str(path),
                            line_number,
                            original_line,
                        },
                    );
                },
                None => {},
            }
            k = k + 1;
        }
        if n == 0 {
            return None;
        }
        let pkg = trim(core);
        let (line_number, original_line) = PyProjectParser::find_line_in_content(content, pkg, "");
        let lowered = to_lower(pkg);
        Some(
            Dependency {
                name: replace_all(lowered.as_str(), "_", "-"),
                version_spec: VersionSpec::Any,
                source_file: String::from_str(path),
                line_number,
                original_line,
            },
        )
    }

    /// A Poetry entry `name = "<constraint>"` (or a table with `version`),
    /// given the constraint text; `None` where it does not parse.
    pub fn poetry_dependency(name: &str, version_str: &str, path: &str, content: &str) -> (r:
        Option<Dependency>)
        ensures
            match r {
                Some(d) => spec_of(trim_of(version_str@)) == Some(d.version_spec@) && d.name@
                    == normalized(name@) && d.source_file@ == path@ && (
                    d.line_number as int,
                    d.original_line@,
                ) == declaration_of(content@, name@, version_str@),
                None => spec_of(trim_of(version_str@)).is_none(),
            },
    {
        proof {
            reveal_strlit("_");
        }
        let (line_number, original_line) = PyProjectParser::find_line_in_content(
            content,
            name,
            version_str,
        );
        let spec = match VersionSpec::parse(version_str) {
            Ok(s) => s,
            Err(_) => {
                return None;
            },
        };
        let lowered = to_lower(name);
        Some(
            Dependency {
                name: replace_all(lowered.as_str(), "_", "-"),
                version_spec: spec,
                source_file: String::from_str(path),
                line_number,
                original_line,
            },
        )
    }

    /// Keeps the first dependency of each name, in order.
    pub fn dedup_by_name(deps: Vec<Dependency>) -> (r: Vec<Dependency>)
        ensures
            forall|k: int, l: int|
                0 <= k < l < r@.len() ==> (#[trigger] r@[k]).name@ != (#[trigger] r@[l]).name@,
            forall|k: int|
                0 <= k < deps@.len() ==> exists|l: int|
                    0 <= l < r@.len() && (#[trigger] r@[l]).name@ == (#[trigger] deps@[k]).name@,
            forall|l: int|
                0 <= l < r@.len() ==> exists|k: int|
                    0 <= k < deps@.len() && (#[trigger] r@[l]).source_file@
                        == (#[trigger] deps@[k]).source_file@,
    {
        let mut out: Vec<Dependency> = Vec::new();
        let mut i: usize = 0;
        while i < deps.len()
            invariant
                i <= deps@.len(),
                forall|k: int, l: int|
                    0 <= k < l < out@.len() ==> (#[trigger] out@[k]).name@ != (#[trigger] out@[l]).name@,
                forall|k: int|
                    0 <= k < i ==> exists|l: int|
                        0 <= l < out@.len() && (#[trigger] out@[l]).name@ == (#[trigger] deps@[k]).name@,
                forall|l: int|
                    0 <= l < out@.len() ==> exists|k: int|
                        0 <= k < deps@.len() && (#[trigger] out@[l]).source_file@
                            == (#[trigger] deps@[k]).source_file@,
            decreases deps@.len() - i,
        {
            let mut seen = false;
            let mut j: usize = 0;
            while j < out.len()
                invariant
                    j <= out@.len(),
                    i < deps@.len(),
                    seen ==> exists|l: int| 0 <= l < out@.len() && (#[trigger] out@[l]).name@ == deps@[i as int].name@,
                    !seen ==> forall|l: int| 0 <= l < j ==> (#[trigger] out@[l]).name@ != deps@[i as int].name@,
                decreases out@.len() - j,
            {
                if same_text(out[j].name.as_str(), deps[i].name.as_str()) {
                    seen = true;
                }
                j = j + 1;
            }
            if !seen {
                let ghost before = out@;
                out.push(deps[i].duplicate());
                proof {
                    assert forall|k: int, l: int|
                        0 <= k < l < out@.len() implies (#[trigger] out@[k]).name@ != (#[trigger] out@[l]).name@ by {
                        if l == out@.len() - 1 {
                            assert(out@[k] == before[k]);
                        } else {
                            assert(out@[k] == before[k]);
                            assert(out@[l] == before[l]);
                        }
                    }
                    assert forall|k: int| 0 <= k < i + 1 implies exists|l: int|
                        0 <= l < out@.len() && (#[trigger] out@[l]).name@ == (#[trigger] deps@[k]).name@ by {
                        if k < i {
                            let l = choose|l: int| 0 <= l < before.len() && (#[trigger] before[l]).name@ == deps@[k].name@;
                            assert(out@[l] == before[l]);
                        } else {
                            assert(out@[before.len() as int].name@ == deps@[k].name@);
                        }
                    }
                    assert forall|l: int| 0 <= l < out@.len() implies exists|k: int|
                        0 <= k < deps@.len() && (#[trigger] out@[l]).source_file@
                            == (#[trigger] deps@[k]).source_file@ by {
                        if l < before.len() {
                            assert(out@[l] == before[l]);
                        } else {
                            assert(out@[l].source_file@ == deps@[i as int].source_file@);
                        }
                    }
                }
            }
            i = i + 1;
        }
        out
    }
}

pub open spec fn all_from(v: Seq<Dependency>, path: Seq<char>) -> bool {
    forall|k: int| 0 <= k < v.len() ==> (#[trigger] v[k]).source_file@ == path
}

/// Adds the dependencies of a TOML array of dependency strings.
fn push_strings(out: &mut Vec<Dependency>, list: Option<&toml::Value>, path: &str, content: &str)
    requires
        all_from(old(out)@, path@),
    ensures
        all_from(final(out)@, path@),
{
    let items = match list {
        Some(v) => match items_of(v) {
            Some(items) => items,
            None => {
                return;
            },
        },
        None => {
            return;
        },
    };
    let mut i: usize = 0;
    while i < items.len()
        invariant
            i <= items@.len(),
            all_from(out@, path@),
        decreases items@.len() - i,
    {
        match text_of(&items[i]) {
            Some(text) => match PyProjectParser::parse_dependency_string(text, path, content) {
                Some(d) => {
                    out.push(d);
                },
                None => {},
            },
            None => {},
        }
        i = i + 1;
    }
}

/// Adds the dependencies of a TOML table whose values are such arrays.
fn push_groups(out: &mut Vec<Dependency>, table: Option<&toml::Value>, path: &str, content: &str)
    requires
        all_from(old(out)@, path@),
    ensures
        all_from(final(out)@, path@),
{
    let groups = match table {
        Some(v) => match entries_of(v) {
            Some(g) => g,
            None => {
                return;
            },
        },
        None => {
            return;
        },
    };
    let mut i: usize = 0;
    while i < groups.len()
        invariant
            i <= groups@.len(),
            all_from(out@, path@),
        decreases groups@.len() - i,
    {
        push_strings(out, Some(groups[i].1), path, content);
        i = i + 1;
    }
}

/// Adds the dependencies of a Poetry table: `name = "constraint"` or
/// `name = { version = "constraint", ... }`, `python` skipped when asked.
fn push_poetry(
    out: &mut Vec<Dependency>,
    table: Option<&toml::Value>,
    skip_python: bool,
    path: &str,
    content: &str,
)
    requires
        all_from(old(out)@, path@),
    ensures
        all_from(final(out)@, path@),
{
    let deps = match table {
        Some(v) => match entries_of(v) {
            Some(d) => d,
            None => {
                return;
            },
        },
        None => {
            return;
        },
    };
    let mut i: usize = 0;
    while i < deps.len()
        invariant
            i <= deps@.len(),
            all_from(out@, path@),
        decreases deps@.len() - i,
    {
        let (name, value) = deps[i];
        if !(skip_python && same_text(name, "python")) {
            let version = match text_of(value) {
                Some(t) => Some(t),
                None => match entry(value, "version") {
                    Some(x) => text_of(x),
                    None => None,
                },
            };
            match version {
                Some(t) => match PyProjectParser::poetry_dependency(name, t, path, content) {
                    Some(d) => {
                        out.push(d);
                    },
                    None => {},
                },
                None => {},
            }
        }
        i = i + 1;
    }
}

fn section<'a>(v: Option<&'a toml::Value>, key: &str) -> (r: Option<&'a toml::Value>) {
    match v {
        Some(x) => entry(x, key),
        None => None,
    }
}

impl PyProjectParser {
    /// The dependencies a `pyproject.toml` text declares, in the order
    /// PEP 621 (required, then optional), Poetry (main, legacy dev, groups),
    /// PDM (main, dev) and PEP 735 groups, the first of each name kept;
    /// `None` where the text is no valid TOML.
    pub fn parse(&self, content: &str, path: &str) -> (r: Option<Vec<Dependency>>)
        ensures
            match r {
                Some(v) => all_from(v@, path@) && forall|k: int, l: int|
                    0 <= k < l < v@.len() ==> (#[trigger] v@[k]).name@ != (#[trigger] v@[l]).name@,
                None => true,
            },
    {
        let doc = match parse_document(content) {
            Some(d) => d,
            None => {
                return None;
            },
        };
        let mut all: Vec<Dependency> = Vec::new();
        let project = entry(&doc, "project");
        push_strings(&mut all, section(project, "dependencies"), path, content);
        push_groups(&mut all, section(project, "optional-dependencies"), path, content);
        let poetry = section(entry(&doc, "tool"), "poetry");
        push_poetry(&mut all, section(poetry, "dependencies"), true, path, content);
        push_poetry(&mut all, section(poetry, "dev-dependencies"), false, path, content);
        match section(poetry, "group") {
            Some(g) => match entries_of(g) {
                Some(groups) => {
                    let mut i: usize = 0;
                    while i < groups.len()
                        invariant
                            i <= groups@.len(),
                            all_from(all@, path@),
                        decreases groups@.len() - i,
                    {
                        push_poetry(&mut all, entry(groups[i].1, "dependencies"), true, path, content);
                        i = i + 1;
                    }
                },
                None => {},
            },
            None => {},
        }
        let pdm = section(entry(&doc, "tool"), "pdm");
        push_strings(&mut all, section(pdm, "dependencies"), path, content);
        push_groups(&mut all, section(pdm, "dev-dependencies"), path, content);
        push_groups(&mut all, entry(&doc, "dependency-groups"), path, content);
        let kept = PyProjectParser::dedup_by_name(all);
        assert forall|l: int| 0 <= l < kept@.len() implies (#[trigger] kept@[l]).source_file@
            == path@ by {
            let k = choose|k: int|
                0 <= k < all@.len() && kept@[l].source_file@ == (#[trigger] all@[k]).source_file@;
        }
        Some(kept)
    }
}

impl DependencyParser for PyProjectParser {
    fn can_parse(&self, path: &str) -> bool {
        PyProjectParser::can_parse(self, path)
    }
}

} // verus!
