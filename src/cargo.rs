//! Cargo projects: `Cargo.toml` constraints and the lock file.

use vstd::prelude::*;
use crate::constraint::{contains_char, spec_of, VersionSpec};
use crate::text::{
    char_len, file_name, file_name_of, find_char, find_char_in, has_prefix, join_path, joined,
    lines, lines_of, same_text, slice, starts_with, trim, trim_of, trim_start, trim_start_of,
    views,
};
use crate::toml_doc::{entries_of, entry, items_of, parse_document, text_of};
use crate::types::Dependency;
use crate::version::VersionError;

verus! {

/// A `Cargo.toml` found in the project.
#[derive(Debug, Clone)]
pub struct DetectedFile {
    pub path: String,
}

/// Finds the manifests and the lock file of a Cargo project.
#[derive(Debug, Clone)]
pub struct ProjectDetector {
    pub project_path: String,
}

impl ProjectDetector {
    pub fn new(project_path: String) -> (r: ProjectDetector)
        ensures
            r.project_path@ == project_path@,
    {
        ProjectDetector { project_path }
    }

    /// Whether `Cargo.lock` is among the files of the project directory.
    pub fn has_lockfile(&self, present: &Vec<String>) -> (r: bool)
        ensures
            r == crate::npm::present_in(present@, "Cargo.lock"@),
    {
        let mut i: usize = 0;
        while i < present.len()
            invariant
                i <= present@.len(),
                forall|k: int| 0 <= k < i ==> (#[trigger] present@[k])@ != "Cargo.lock"@,
            decreases present@.len() - i,
        {
            if crate::text::same_text(present[i].as_str(), "Cargo.lock") {
                return true;
            }
            i = i + 1;
        }
        false
    }

    /// The member patterns of the `[workspace]` of a root `Cargo.toml`
    /// text (string items of `members`); `None` where the text is no valid
    /// TOML, and none without a workspace.
    pub fn workspace_members(&self, cargo_toml: &str) -> (r: Option<Vec<String>>) {
        let doc = match parse_document(cargo_toml) {
            Some(d) => d,
            None => {
                return None;
            },
        };
        let mut out: Vec<String> = Vec::new();
        let members = match entry(&doc, "workspace") {
            Some(w) => if entries_of(w).is_some() {
                match entry(w, "members") {
                    Some(m) => items_of(m),
                    None => None,
                }
            } else {
                None
            },
            None => None,
        };
        match members {
            Some(items) => {
                let mut i: usize = 0;
                while i < items.len()
                    invariant
                        i <= items@.len(),
                    decreases items@.len() - i,
                {
                    match text_of(&items[i]) {
                        Some(t) => {
                            out.push(String::from_str(t));
                        },
                        None => {},
                    }
                    i = i + 1;
                }
            },
            None => {},
        }
        Some(out)
    }

    /// The manifest path (a glob pattern where the member has `*`) of a
    /// workspace member.
    pub fn member_manifest(&self, pattern: &str) -> (r: String)
        ensures
            r@ == joined(joined(self.project_path@, pattern@), "Cargo.toml"@),
    {
        let dir = join_path(self.project_path.as_str(), pattern);
        join_path(dir.as_str(), "Cargo.toml")
    }

    /// The path of `Cargo.lock`.
    pub fn lockfile_path(&self) -> (r: String)
        ensures
            r@ == joined(self.project_path@, "Cargo.lock"@),
    {
        join_path(self.project_path.as_str(), "Cargo.lock")
    }
}

/// The constraint text a Cargo requirement stands for: written with an
/// operator, a wildcard or a comma it is taken as is; a bare version
/// means a caret requirement.
pub open spec fn cargo_requirement(t: Seq<char>) -> Seq<char> {
    if has_prefix(t, "^"@) || has_prefix(t, "~"@) || has_prefix(t, ">"@) || has_prefix(t, "<"@)
        || has_prefix(t, "="@) || contains_char(t, '*') || contains_char(t, ',') {
        t
    } else {
        "^"@ + t
    }
}

/// Whether a line declares the dependency `name`: trimmed, it starts with
/// the name, holds `=` or `{`, and after the name (and spaces) comes `=`
/// or `.`.
pub open spec fn declares_crate(line: Seq<char>, name: Seq<char>) -> bool {
    let t = trim_of(line);
    let after = trim_start_of(t.skip(name.len() as int));
    &&& has_prefix(t, name)
    &&& (find_char(t, '=').is_some() || find_char(t, '{').is_some())
    &&& (has_prefix(after, "="@) || has_prefix(after, "."@))
}

/// The first line from `from` on that declares `name`, counted from 1;
/// 1 when none does.
pub open spec fn crate_line(ls: Seq<Seq<char>>, name: Seq<char>, from: int) -> int
    decreases ls.len() - from,
{
    if from < 0 || from >= ls.len() {
        1
    } else if declares_crate(ls[from], name) {
        from + 1
    } else {
        crate_line(ls, name, from + 1)
    }
}

pub open spec fn all_from(v: Seq<Dependency>, path: Seq<char>) -> bool {
    forall|k: int| 0 <= k < v.len() ==> (#[trigger] v[k]).source_file@ == path
}

/// The version text of a dependency entry: a string, or the `version` of
/// a table that names no `git` or `path` source.
fn extract_version<'a>(value: &'a toml::Value) -> (r: Option<&'a str>) {
    match text_of(value) {
        Some(t) => Some(t),
        None => match entries_of(value) {
            Some(_) => {
                if entry(value, "git").is_some() || entry(value, "path").is_some() {
                    None
                } else {
                    match entry(value, "version") {
                        Some(v) => text_of(v),
                        None => None,
                    }
                }
            },
            None => None,
        },
    }
}

/// Reader of `Cargo.toml` files.
#[derive(Debug, Clone)]
pub struct CargoTomlParser;

impl CargoTomlParser {
    pub fn new() -> (r: CargoTomlParser) {
        CargoTomlParser
    }

    /// A file named `Cargo.toml`.
    pub fn can_parse(&self, path: &str) -> (r: bool)
        ensures
            r == (file_name_of(path@) == "Cargo.toml"@),
    {
        same_text(file_name(path), "Cargo.toml")
    }

    /// The line that declares a dependency, counted from 1.
    pub fn find_line_number(content: &str, name: &str) -> (r: usize)
        ensures
            r as int == crate_line(lines_of(content@), name@, 0),
    {
        let ls = lines(content);
        let ghost lv = lines_of(content@);
        let m = char_len(name);
        let mut i: usize = 0;
        while i < ls.len()
            invariant
                views(ls@) == lv,
                lv == lines_of(content@),
                m == name@.len(),
                i <= ls@.len(),
                crate_line(lv, name@, 0) == crate_line(lv, name@, i as int),
            decreases ls@.len() - i,
        {
            let line = ls[i];
            assert(lv[i as int] == line@);
            let t = trim(line);
            let mut hit = false;
            if starts_with(t, name) && (find_char_in(t, '=').is_some() || find_char_in(t, '{').is_some()) {
                let rest = slice(t, m, char_len(t));
                assert(rest@ =~= t@.skip(m as int));
                let after = trim_start(rest);
                hit = starts_with(after, "=") || starts_with(after, ".");
            }
            assert(hit == declares_crate(lv[i as int], name@));
            if hit {
                return i + 1;
            }
            i = i + 1;
        }
        1
    }

    /// The dependencies of one table of a `Cargo.toml`.
    fn deps_table(
        table: Option<&toml::Value>,
        path: &str,
        content: &str,
        ls: &Vec<&str>,
        out: &mut Vec<Dependency>,
    )
        requires
            all_from(old(out)@, path@),
        ensures
            all_from(final(out)@, path@),
    {
        let entries = match table {
            Some(t) => match entries_of(t) {
                Some(e) => e,
                None => {
                    return;
                },
            },
            None => {
                return;
            },
        };
        let mut i: usize = 0;
        while i < entries.len()
            invariant
                i <= entries@.len(),
                all_from(out@, path@),
            decreases entries@.len() - i,
        {
            let (name, value) = entries[i];
            match extract_version(value) {
                Some(version_text) => {
                    let line_number = CargoTomlParser::find_line_number(content, name);
                    let idx: usize = if line_number == 0 {
                        0
                    } else {
                        line_number - 1
                    };
                    let original_line = if idx < ls.len() {
                        String::from_str(ls[idx])
                    } else {
                        String::new()
                    };
                    match CargoTomlParser::parse_cargo_version(version_text) {
                        Ok(version_spec) => {
                            out.push(
                                Dependency {
                                    name: String::from_str(name),
                                    version_spec,
                                    source_file: String::from_str(path),
                                    line_number,
                                    original_line,
                                },
                            );
                        },
                        Err(_) => {},
                    }
                },
                None => {},
            }
            i = i + 1;
        }
    }

    /// The dependencies of a `Cargo.toml` text: `[dependencies]`,
    /// `[dev-dependencies]`, `[build-dependencies]`,
    /// `[workspace.dependencies]` and each target's dependencies and
    /// dev-dependencies; entries from git or a path are skipped. `None`
    /// where the text is no valid TOML.
    pub fn parse(&self, content: &str, path: &str) -> (r: Option<Vec<Dependency>>)
        ensures
            match r {
                Some(v) => all_from(v@, path@),
                None => true,
            },
    {
        let doc = match parse_document(content) {
            Some(d) => d,
            None => {
                return None;
            },
        };
        let ls = lines(content);
        let mut out: Vec<Dependency> = Vec::new();
        CargoTomlParser::deps_table(entry(&doc, "dependencies"), path, content, &ls, &mut out);
        CargoTomlParser::deps_table(entry(&doc, "dev-dependencies"), path, content, &ls, &mut out);
        CargoTomlParser::deps_table(entry(&doc, "build-dependencies"), path, content, &ls, &mut out);
        match entry(&doc, "workspace") {
            Some(w) => {
                CargoTomlParser::deps_table(entry(w, "dependencies"), path, content, &ls, &mut out);
            },
            None => {},
        }
        match entry(&doc, "target") {
            Some(t) => match entries_of(t) {
                Some(targets) => {
                    let mut i: usize = 0;
                    while i < targets.len()
                        invariant
                            i <= targets@.len(),
                            all_from(out@, path@),
                        decreases targets@.len() - i,
                    {
                        let tv = targets[i].1;
                        if entries_of(tv).is_some() {
                            CargoTomlParser::deps_table(entry(tv, "dependencies"), path, content, &ls, &mut out);
                            CargoTomlParser::deps_table(entry(tv, "dev-dependencies"), path, content, &ls, &mut out);
                        }
                        i = i + 1;
                    }
                },
                None => {},
            },
            None => {},
        }
        Some(out)
    }

    /// Parses a Cargo version requirement.
    pub fn parse_cargo_version(s: &str) -> (r: Result<VersionSpec, VersionError>)
        ensures
            match r {
                Ok(x) => spec_of(trim_of(cargo_requirement(trim_of(s@)))) == Some(x@),
                Err(_) => spec_of(trim_of(cargo_requirement(trim_of(s@)))).is_none(),
            },
    {
        let t = trim(s);
        if starts_with(t, "^") || starts_with(t, "~") || starts_with(t, ">") || starts_with(t, "<")
            || starts_with(t, "=") || find_char_in(t, '*').is_some() || find_char_in(t, ',').is_some() {
            return VersionSpec::parse(t);
        }
        let mut text = String::from_str("^");
        text.append(t);
        VersionSpec::parse(text.as_str())
    }
}

} // verus!
