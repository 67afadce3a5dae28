//! npm projects: `package.json`, lock files and their names.

use vstd::prelude::*;
use crate::constraint::{spec_of, VersionSpec};
use crate::text::{
    char_len, find_char, find_char_in, find_from, find_in, has_prefix, join_path, joined,
    lemma_find_from_bounds, lines, lines_of, same_text, slice, starts_with, trim, trim_of, views,
};
use crate::json_doc::{json_items, json_member, json_members, json_text, parse_json};
use crate::lockfiles::{distinct_names, record, record_first};
use crate::yaml_doc::{parse_yaml, yaml_entry, yaml_keys, yaml_text};
use crate::text::{contains_text, strip_prefix};
use crate::types::Dependency;
use crate::version::{Version, VersionError, version_in};

verus! {

/// The lock file kinds of npm, pnpm, yarn and bun.
#[derive(Debug, Clone, Copy, PartialEq, Eq, Structural)]
pub enum LockfileType {
    Npm,
    Pnpm,
    Yarn,
    Bun,
}

impl LockfileType {
    /// The lock file's name.
    pub open spec fn file(self) -> Seq<char> {
        match self {
            LockfileType::Npm => "package-lock.json"@,
            LockfileType::Pnpm => "pnpm-lock.yaml"@,
            LockfileType::Yarn => "yarn.lock"@,
            LockfileType::Bun => "bun.lockb"@,
        }
    }
}

fn lockfile_name(t: LockfileType) -> (r: &'static str)
    ensures
        r@ == t.file(),
{
    match t {
        LockfileType::Npm => "package-lock.json",
        LockfileType::Pnpm => "pnpm-lock.yaml",
        LockfileType::Yarn => "yarn.lock",
        LockfileType::Bun => "bun.lockb",
    }
}

pub open spec fn present_in(names: Seq<String>, n: Seq<char>) -> bool {
    exists|i: int| 0 <= i < names.len() && (#[trigger] names[i])@ == n
}

fn is_present(names: &Vec<String>, n: &str) -> (r: bool)
    ensures
        r == present_in(names@, n@),
{
    let mut i: usize = 0;
    while i < names.len()
        invariant
            i <= names@.len(),
            forall|k: int| 0 <= k < i ==> (#[trigger] names@[k])@ != n@,
        decreases names@.len() - i,
    {
        if same_text(names[i].as_str(), n) {
            return true;
        }
        i = i + 1;
    }
    false
}

/// A `package.json` found in the project.
#[derive(Debug, Clone)]
pub struct DetectedFile {
    pub path: String,
}

/// Finds the npm manifests and the lock file of a project.
#[derive(Debug, Clone)]
pub struct ProjectDetector {
    pub project_path: String,
}

impl ProjectDetector {
    pub fn new(project_path: String) -> (r: ProjectDetector)
        ensures
            r.project_path@ == project_path@,
    {
        ProjectDetector { project_path }
    }

    /// The lock file in use, given the names of the files in the project
    /// directory: npm's, then pnpm's, yarn's and bun's.
    pub fn detect_lockfile(&self, present: &Vec<String>) -> (r: Option<LockfileType>)
        ensures
            r == if present_in(present@, LockfileType::Npm.file()) {
                Some(LockfileType::Npm)
            } else if present_in(present@, LockfileType::Pnpm.file()) {
                Some(LockfileType::Pnpm)
            } else if present_in(present@, LockfileType::Yarn.file()) {
                Some(LockfileType::Yarn)
            } else if present_in(present@, LockfileType::Bun.file()) {
                Some(LockfileType::Bun)
            } else {
                None
            },
    {
        if is_present(present, lockfile_name(LockfileType::Npm)) {
            Some(LockfileType::Npm)
        } else if is_present(present, lockfile_name(LockfileType::Pnpm)) {
            Some(LockfileType::Pnpm)
        } else if is_present(present, lockfile_name(LockfileType::Yarn)) {
            Some(LockfileType::Yarn)
        } else if is_present(present, lockfile_name(LockfileType::Bun)) {
            Some(LockfileType::Bun)
        } else {
            None
        }
    }

    /// The workspace patterns of a root `package.json` text: its
    /// `workspaces` array, or the `packages` array of a `workspaces`
    /// object (yarn); only string items count. `None` where there are none
    /// of either form or the text is no valid JSON.
    pub fn get_workspaces(&self, package_json: &str) -> (r: Option<Vec<String>>) {
        let doc = match parse_json(package_json) {
            Some(d) => d,
            None => {
                return None;
            },
        };
        let ws = match json_member(&doc, "workspaces") {
            Some(w) => w,
            None => {
                return None;
            },
        };
        let items = match json_items(ws) {
            Some(a) => a,
            None => match json_member(ws, "packages") {
                Some(p) => match json_items(p) {
                    Some(a) => a,
                    None => {
                        return None;
                    },
                },
                None => {
                    return None;
                },
            },
        };
        let mut out: Vec<String> = Vec::new();
        let mut i: usize = 0;
        while i < items.len()
            invariant
                i <= items@.len(),
            decreases items@.len() - i,
        {
            match json_text(&items[i]) {
                Some(t) => {
                    out.push(String::from_str(t));
                },
                None => {},
            }
            i = i + 1;
        }
        Some(out)
    }

    /// The glob pattern for the manifests of a workspace pattern.
    pub fn workspace_manifest_pattern(&self, pattern: &str) -> (r: String)
        ensures
            r@ == joined(joined(self.project_path@, pattern@), "package.json"@),
    {
        let dir = join_path(self.project_path.as_str(), pattern);
        join_path(dir.as_str(), "package.json")
    }

    /// The path of the lock file of the given kind.
    pub fn lockfile_path(&self, lockfile_type: LockfileType) -> (r: String)
        ensures
            r@ == joined(self.project_path@, lockfile_type.file()),
    {
        join_path(self.project_path.as_str(), lockfile_name(lockfile_type))
    }
}

/// The text before the first `(`: a pnpm version without its peer suffix.
pub open spec fn before_paren(s: Seq<char>) -> Seq<char> {
    match find_char(s, '(') {
        Some(i) => s.take(i),
        None => s,
    }
}

fn strip_peer_suffix(s: &str) -> (r: &str)
    ensures
        r@ == before_paren(s@),
{
    match find_char_in(s, '(') {
        Some(i) => {
            proof {
                lemma_find_from_bounds(s@, seq!['('], 0, false);
            }
            let r = slice(s, 0, i);
            assert(r@ =~= s@.take(i as int));
            r
        },
        None => s,
    }
}

/// The name and version text of a pnpm package key: `name@version` or
/// `@scope/name@version`, a peer suffix `(...)` dropped.
pub open spec fn pnpm_key_parts(key: Seq<char>) -> Option<(Seq<char>, Seq<char>)> {
    if has_prefix(key, "@"@) {
        let rest = key.skip(1);
        match find_char(rest, '@') {
            Some(at) => Some((key.take(at + 1), before_paren(rest.skip(at + 1)))),
            None => None,
        }
    } else {
        match find_char(key, '@') {
            Some(at) => Some((key.take(at), before_paren(key.skip(at + 1)))),
            None => None,
        }
    }
}

/// Reader of npm-family lock files.
#[derive(Debug, Clone)]
pub struct LockfileParser;

impl LockfileParser {
    pub fn new() -> (r: LockfileParser) {
        LockfileParser
    }

    /// Splits a pnpm package key into name and version.
    pub fn parse_pnpm_package_key(key: &str) -> (r: Option<(String, Version)>)
        ensures
            match r {
                Some((n, v)) => exists|t: Seq<char>|
                    pnpm_key_parts(key@) == Some((n@, t)) && version_in(t) == Some(v@),
                None => match pnpm_key_parts(key@) {
                    Some((_, t)) => version_in(t).is_none(),
                    None => true,
                },
            },
    {
        proof {
            reveal_strlit("@");
        }
        let n = char_len(key);
        let (name, vtext) = if starts_with(key, "@") {
            let rest = slice(key, 1, n);
            assert(rest@ =~= key@.skip(1));
            match find_char_in(rest, '@') {
                Some(at) => {
                    proof {
                        lemma_find_from_bounds(rest@, seq!['@'], 0, false);
                    }
                    let name = slice(key, 0, at + 1);
                    assert(name@ =~= key@.take(at + 1));
                    let tail = slice(rest, at + 1, n - 1);
                    assert(tail@ =~= rest@.skip(at + 1));
                    (name, strip_peer_suffix(tail))
                },
                None => {
                    return None;
                },
            }
        } else {
            match find_char_in(key, '@') {
                Some(at) => {
                    proof {
                        lemma_find_from_bounds(key@, seq!['@'], 0, false);
                    }
                    let name = slice(key, 0, at);
                    assert(name@ =~= key@.take(at as int));
                    let tail = slice(key, at + 1, n);
                    assert(tail@ =~= key@.skip(at + 1));
                    (name, strip_peer_suffix(tail))
                },
                None => {
                    return None;
                },
            }
        };
        assert(pnpm_key_parts(key@) == Some((name@, vtext@)));
        match Version::parse(vtext) {
            Ok(v) => Some((String::from_str(name), v)),
            Err(_) => None,
        }
    }
}

/// The first line, counted from 1, that holds `"name"`; 1 if none does.
pub open spec fn line_of_key(ls: Seq<Seq<char>>, name: Seq<char>, from: int) -> int
    decreases ls.len() - from,
{
    if from < 0 || from >= ls.len() {
        1
    } else if find_from(ls[from], "\""@ + name + "\""@, 0, false).is_some() {
        from + 1
    } else {
        line_of_key(ls, name, from + 1)
    }
}

/// Reader of `package.json` files.
#[derive(Debug, Clone)]
pub struct PackageJsonParser;

impl PackageJsonParser {
    pub fn new() -> (r: PackageJsonParser) {
        PackageJsonParser
    }

    /// Parses an npm version range; npm's caret and tilde mean what they
    /// mean elsewhere.
    pub fn parse_npm_version(s: &str) -> (r: Result<VersionSpec, VersionError>)
        ensures
            match r {
                Ok(x) => spec_of(trim_of(trim_of(s@))) == Some(x@),
                Err(_) => spec_of(trim_of(trim_of(s@))).is_none(),
            },
    {
        VersionSpec::parse(trim(s))
    }

    /// The line of the manifest that names the package.
    pub fn find_line_number(content: &str, package_name: &str) -> (r: usize)
        ensures
            r as int == line_of_key(lines_of(content@), package_name@, 0),
    {
        let ls = lines(content);
        let ghost lv = lines_of(content@);
        let mut key = String::from_str("\"");
        key.append(package_name);
        key.append("\"");
        let mut i: usize = 0;
        while i < ls.len()
            invariant
                views(ls@) == lv,
                lv == lines_of(content@),
                i <= ls@.len(),
                key@ == "\""@ + package_name@ + "\""@,
                line_of_key(lv, package_name@, 0) == line_of_key(lv, package_name@, i as int),
            decreases ls@.len() - i,
        {
            let line = ls[i];
            assert(lv[i as int] == line@);
            if find_in(line, key.as_str(), false).is_some() {
                assert(find_from(lv[i as int], "\""@ + package_name@ + "\""@, 0, false).is_some());
                assert(line_of_key(lv, package_name@, i as int) == i + 1);
                return i + 1;
            }
            i = i + 1;
        }
        1
    }
}


/// A version text that names a registry release, not git, a file, a link
/// or a workspace member.
pub open spec fn from_registry(v: Seq<char>) -> bool {
    !(has_prefix(v, "git"@) || has_prefix(v, "file:"@) || has_prefix(v, "link:"@) || has_prefix(
        v,
        "workspace:"@,
    ) || find_from(v, "github:"@, 0, false).is_some() || find_from(v, "://"@, 0, false).is_some())
}

pub open spec fn all_from(v: Seq<Dependency>, path: Seq<char>) -> bool {
    forall|k: int| 0 <= k < v.len() ==> (#[trigger] v[k]).source_file@ == path
}

impl PackageJsonParser {
    /// Whether a version text names a registry release.
    pub fn is_registry_version(v: &str) -> (r: bool)
        ensures
            r == from_registry(v@),
    {
        !(starts_with(v, "git") || starts_with(v, "file:") || starts_with(v, "link:") || starts_with(
            v,
            "workspace:",
        ) || contains_text(v, "github:") || contains_text(v, "://"))
    }

    fn parse_deps(
        section: Option<&serde_json::Value>,
        path: &str,
        content: &str,
        ls: &Vec<&str>,
        out: &mut Vec<Dependency>,
    )
        requires
            all_from(old(out)@, path@),
        ensures
            all_from(final(out)@, path@),
    {
        let members = match section {
            Some(s) => match json_members(s) {
                Some(m) => m,
                None => {
                    return;
                },
            },
            None => {
                return;
            },
        };
        let mut i: usize = 0;
        while i < members.len()
            invariant
                i <= members@.len(),
                all_from(out@, path@),
            decreases members@.len() - i,
        {
            let (name, value) = members[i];
            match json_text(value) {
                Some(v) => {
                    if PackageJsonParser::is_registry_version(v) {
                        match PackageJsonParser::parse_npm_version(v) {
                            Ok(version_spec) => {
                                let line_number = PackageJsonParser::find_line_number(content, name);
                                let idx: usize = if line_number == 0 {
                                    0
                                } else {
                                    line_number - 1
                                };
                                let original_line = if idx < ls.len() {
                                    String::from_str(ls[idx])
                                } else {
                                    String::new()
                                };
                                out.push(
                                    Dependency {
                                        name: String::from_str(name),
                                        version_spec,
                                        source_file: String::from_str(path),
                                        line_number,
                                        original_line,
                                    },
                                );
                            },
                            Err(_) => {},
                        }
                    }
                },
                None => {},
            }
            i = i + 1;
        }
    }

    /// The registry dependencies of a `package.json` text: its
    /// `dependencies`, `devDependencies`, `peerDependencies` and
    /// `optionalDependencies`, each with the line that names it; `None`
    /// where the text is no valid JSON.
    pub fn parse(&self, content: &str, path: &str) -> (r: Option<Vec<Dependency>>)
        ensures
            match r {
                Some(v) => all_from(v@, path@),
                None => true,
            },
    {
        let doc = match parse_json(content) {
            Some(d) => d,
            None => {
                return None;
            },
        };
        let ls = lines(content);
        let mut out: Vec<Dependency> = Vec::new();
        PackageJsonParser::parse_deps(json_member(&doc, "dependencies"), path, content, &ls, &mut out);
        PackageJsonParser::parse_deps(json_member(&doc, "devDependencies"), path, content, &ls, &mut out);
        PackageJsonParser::parse_deps(json_member(&doc, "peerDependencies"), path, content, &ls, &mut out);
        PackageJsonParser::parse_deps(
            json_member(&doc, "optionalDependencies"),
            path,
            content,
            &ls,
            &mut out,
        );
        Some(out)
    }
}


/// The package name of a yarn or pnpm spec `name@range` (or
/// `@scope/name@range`): the text before the version's `@`.
pub open spec fn spec_package_name(spec: Seq<char>) -> Option<Seq<char>> {
    if has_prefix(spec, "@"@) {
        match find_char(spec.skip(1), '@') {
            Some(at) => Some(spec.take(at + 1)),
            None => None,
        }
    } else {
        match find_char(spec, '@') {
            Some(at) => Some(spec.take(at)),
            None => None,
        }
    }
}

fn extract_package_name(spec: &str) -> (r: Option<String>)
    ensures
        match r {
            Some(n) => spec_package_name(spec@) == Some(n@),
            None => spec_package_name(spec@).is_none(),
        },
{
    proof {
        reveal_strlit("@");
    }
    let n = char_len(spec);
    if starts_with(spec, "@") {
        let rest = slice(spec, 1, n);
        assert(rest@ =~= spec@.skip(1));
        match find_char_in(rest, '@') {
            Some(at) => {
                proof {
                    lemma_find_from_bounds(rest@, seq!['@'], 0, false);
                }
                let name = slice(spec, 0, at + 1);
                assert(name@ =~= spec@.take(at + 1));
                Some(String::from_str(name))
            },
            None => None,
        }
    } else {
        match find_char_in(spec, '@') {
            Some(at) => {
                proof {
                    lemma_find_from_bounds(spec@, seq!['@'], 0, false);
                }
                let name = slice(spec, 0, at);
                assert(name@ =~= spec@.take(at as int));
                Some(String::from_str(name))
            },
            None => None,
        }
    }
}

/// Strips every leading and trailing `c`.
fn strip_around(s: &str, c: char) -> (r: &str) {
    let n = char_len(s);
    let mut a: usize = 0;
    while a < n && crate::text::char_at(s, a) == c
        invariant
            n == s@.len(),
            a <= n,
        decreases n - a,
    {
        a = a + 1;
    }
    let mut b: usize = n;
    while b > a && crate::text::char_at(s, b - 1) == c
        invariant
            n == s@.len(),
            a <= b <= n,
        decreases b,
    {
        b = b - 1;
    }
    slice(s, a, b)
}

/// Strips every leading occurrence of `p` (non-empty).
fn strip_leading_text<'a>(s: &'a str, p: &str) -> (r: &'a str)
    requires
        p@.len() > 0,
{
    let mut cur = s;
    let mut fuel: usize = char_len(s);
    while fuel > 0
        invariant
            p@.len() > 0,
            cur@.len() <= fuel,
        decreases fuel,
    {
        match strip_prefix(cur, p) {
            Some(rest) => {
                cur = rest;
            },
            None => {
                return cur;
            },
        }
        fuel = fuel - 1;
    }
    cur
}

/// The packages a yarn entry header names (`"a@^1", "a@~1.2":`).
fn parse_yarn_header(line: &str) -> (r: Vec<String>) {
    let mut body = line;
    let mut n = char_len(body);
    while n > 0 && crate::text::char_at(body, n - 1) == ':'
        invariant
            n == body@.len(),
        decreases n,
    {
        body = slice(body, 0, n - 1);
        n = n - 1;
    }
    let mut out: Vec<String> = Vec::new();
    let mut rest = body;
    loop
        decreases rest@.len(),
    {
        let len = char_len(rest);
        let (part, next) = match find_in(rest, ", ", false) {
            Some(i) => {
                proof {
                    lemma_find_from_bounds(rest@, ", "@, 0, false);
                    reveal_strlit(", ");
                }
                (slice(rest, 0, i), Some(slice(rest, i + 2, len)))
            },
            None => (rest, None),
        };
        let cleaned = strip_around(trim(part), '"');
        match extract_package_name(cleaned) {
            Some(name) => {
                out.push(name);
            },
            None => {},
        }
        match next {
            Some(nx) => {
                rest = nx;
            },
            None => {
                return out;
            },
        }
    }
}

/// The version of a yarn `version "1.2.3"` (or `version: "1.2.3"`) line.
fn parse_yarn_version_line(line: &str) -> (r: Option<Version>) {
    proof {
        reveal_strlit("version");
    }
    let after = trim(strip_leading_text(line, "version"));
    let mut cur = after;
    let mut n = char_len(cur);
    while n > 0 && crate::text::char_at(cur, 0) == ':'
        invariant
            n == cur@.len(),
        decreases n,
    {
        cur = slice(cur, 1, n);
        n = n - 1;
    }
    let text = strip_around(trim(cur), '"');
    match Version::parse(text) {
        Ok(v) => Some(v),
        Err(_) => None,
    }
}

fn is_yarn_header(line: &str, trimmed: &str) -> (r: bool) {
    char_len(trimmed) > 0 && !starts_with(trimmed, "#") && !starts_with(trimmed, "version")
        && !starts_with(trimmed, "resolved") && !starts_with(trimmed, "integrity")
        && !starts_with(trimmed, "dependencies") && !starts_with(line, " ") && !starts_with(
        line,
        "\t",
    )
}

impl LockfileParser {
    fn versions_in_members(
        members: &Vec<(&str, &serde_json::Value)>,
        strip_node_modules: bool,
        out: &mut Vec<(String, Version)>,
    )
        requires
            distinct_names(old(out)@),
        ensures
            distinct_names(final(out)@),
    {
        let mut i: usize = 0;
        while i < members.len()
            invariant
                i <= members@.len(),
                distinct_names(out@),
            decreases members@.len() - i,
        {
            let (key, data) = members[i];
            let name = if strip_node_modules {
                match strip_prefix(key, "node_modules/") {
                    Some(r) => r,
                    None => key,
                }
            } else {
                key
            };
            let skip = strip_node_modules && (char_len(key) == 0 || contains_text(
                name,
                "node_modules/",
            ));
            if !skip {
                match json_member(data, "version") {
                    Some(v) => match json_text(v) {
                        Some(t) => match Version::parse(t) {
                            Ok(version) => {
                                record(out, String::from_str(name), version);
                            },
                            Err(_) => {},
                        },
                        None => {},
                    },
                    None => {},
                }
            }
            i = i + 1;
        }
    }

    fn versions_in_keys(keys: &Vec<&serde_yaml::Value>, first_wins: bool, out: &mut Vec<(String, Version)>)
        requires
            distinct_names(old(out)@),
        ensures
            distinct_names(final(out)@),
    {
        let mut i: usize = 0;
        while i < keys.len()
            invariant
                i <= keys@.len(),
                distinct_names(out@),
            decreases keys@.len() - i,
        {
            match yaml_text(keys[i]) {
                Some(k) => match LockfileParser::parse_pnpm_package_key(k) {
                    Some((name, version)) => {
                        if first_wins {
                            record_first(out, name, version);
                        } else {
                            record(out, name, version);
                        }
                    },
                    None => {},
                },
                None => {},
            }
            i = i + 1;
        }
    }

    /// The installed versions a lock file's text records, one per package
    /// name. npm: the top-level `packages` entries (v7+) or else the
    /// `dependencies` (v6); pnpm: the `packages` keys, then `snapshots`
    /// keys for names not seen yet; yarn: each entry's first `version`;
    /// bun's binary format: none. `None` where npm's JSON or pnpm's YAML
    /// does not parse.
    pub fn parse(&self, content: &str, lockfile_type: LockfileType) -> (r: Option<Vec<(String, Version)>>)
        ensures
            match r {
                Some(v) => distinct_names(v@),
                None => true,
            },
    {
        let mut out: Vec<(String, Version)> = Vec::new();
        match lockfile_type {
            LockfileType::Npm => {
                let doc = match parse_json(content) {
                    Some(d) => d,
                    None => {
                        return None;
                    },
                };
                match json_member(&doc, "packages") {
                    Some(p) => match json_members(p) {
                        Some(members) => {
                            LockfileParser::versions_in_members(&members, true, &mut out);
                            return Some(out);
                        },
                        None => {},
                    },
                    None => {},
                }
                match json_member(&doc, "dependencies") {
                    Some(d) => match json_members(d) {
                        Some(members) => {
                            LockfileParser::versions_in_members(&members, false, &mut out);
                        },
                        None => {},
                    },
                    None => {},
                }
            },
            LockfileType::Pnpm => {
                let doc = match parse_yaml(content) {
                    Some(d) => d,
                    None => {
                        return None;
                    },
                };
                match yaml_entry(&doc, "packages") {
                    Some(p) => match yaml_keys(p) {
                        Some(keys) => {
                            LockfileParser::versions_in_keys(&keys, false, &mut out);
                        },
                        None => {},
                    },
                    None => {},
                }
                match yaml_entry(&doc, "snapshots") {
                    Some(p) => match yaml_keys(p) {
                        Some(keys) => {
                            LockfileParser::versions_in_keys(&keys, true, &mut out);
                        },
                        None => {},
                    },
                    None => {},
                }
            },
            LockfileType::Yarn => {
                let ls = lines(content);
                let mut current: Vec<String> = Vec::new();
                let mut i: usize = 0;
                while i < ls.len()
                    invariant
                        i <= ls@.len(),
                        distinct_names(out@),
                    decreases ls@.len() - i,
                {
                    let line = ls[i];
                    let trimmed = trim(line);
                    if is_yarn_header(line, trimmed) {
                        current = parse_yarn_header(trimmed);
                    }
                    if starts_with(trimmed, "version") {
                        match parse_yarn_version_line(trimmed) {
                            Some(v) => {
                                let mut k: usize = 0;
                                while k < current.len()
                                    invariant
                                        k <= current@.len(),
                                        distinct_names(out@),
                                    decreases current@.len() - k,
                                {
                                    record_first(&mut out, current[k].clone(), v.duplicate());
                                    k = k + 1;
                                }
                            },
                            None => {},
                        }
                    }
                    i = i + 1;
                }
            },
            LockfileType::Bun => {},
        }
        Some(out)
    }
}

} // verus!
