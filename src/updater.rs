//! Rewriting the version constraint on a manifest line.

use vstd::prelude::*;
use crate::constraint::{SpecModel, VersionSpec};
use crate::detector::PackageManager;
use crate::names::{holds_name, insert_name, strictly_sorted};
use crate::resolver::opt_spec;
use crate::types::{DependencyCheck, UpdateSeverity};
use crate::text::{
    char_len, ends_with, file_name, file_name_of, find_char, find_char_in, find_from,
    find_in, has_prefix, has_suffix, lemma_find_from_bounds, lower_of, replace_all, replaced,
    same_text, slice, starts_with, to_lower, trim, trim_of, lines, lines_of, views,
};

verus! {

/// The package manager a dependency file belongs to, by its name.
pub open spec fn manager_of_file(n: Seq<char>) -> Option<PackageManager> {
    if has_prefix(n, "requirements"@) {
        Some(PackageManager::Pip)
    } else if n == "pyproject.toml"@ {
        Some(PackageManager::Uv)
    } else if has_prefix(n, "environment."@) && (has_suffix(n, ".yml"@) || has_suffix(
        n,
        ".yaml"@,
    )) {
        Some(PackageManager::Conda)
    } else if n == "uv.lock"@ {
        Some(PackageManager::Uv)
    } else if n == "poetry.lock"@ {
        Some(PackageManager::Poetry)
    } else if n == "pdm.lock"@ {
        Some(PackageManager::Pdm)
    } else {
        None
    }
}

/// The package manager of a dependency file, by its file name.
pub fn detect_package_manager(path: &str) -> (r: Option<PackageManager>)
    ensures
        r == manager_of_file(file_name_of(path@)),
{
    let n = file_name(path);
    if starts_with(n, "requirements") {
        Some(PackageManager::Pip)
    } else if same_text(n, "pyproject.toml") {
        Some(PackageManager::Uv)
    } else if starts_with(n, "environment.") && (ends_with(n, ".yml") || ends_with(n, ".yaml")) {
        Some(PackageManager::Conda)
    } else if same_text(n, "uv.lock") {
        Some(PackageManager::Uv)
    } else if same_text(n, "poetry.lock") {
        Some(PackageManager::Poetry)
    } else if same_text(n, "pdm.lock") {
        Some(PackageManager::Pdm)
    } else {
        None
    }
}

/// A requirements line with the constraint replaced: `name+old` first;
/// else, for a line with extras whose name matches, the text after the
/// extras; else every occurrence of `old`.
pub open spec fn requirements_line(
    line: Seq<char>,
    name: Seq<char>,
    old: Seq<char>,
    new: Seq<char>,
) -> Seq<char> {
    let exact = replaced(line, name + old, name + new);
    if exact != line {
        exact
    } else {
        match (find_char(line, '['), find_char(line, ']')) {
            (Some(bs), Some(be)) => if bs <= be && trim_of(line.take(bs)) == name {
                line.take(be + 1) + replaced(line.skip(be + 1), old, new)
            } else {
                replaced(line, old, new)
            },
            _ => replaced(line, old, new),
        }
    }
}

/// A `pyproject.toml` line with the constraint replaced: inside double,
/// then single quotes on a line naming the package (case-insensitively);
/// else every occurrence of `old`.
pub open spec fn pyproject_line(
    line: Seq<char>,
    name: Seq<char>,
    old: Seq<char>,
    new: Seq<char>,
) -> Seq<char> {
    let dq = replaced(line, "\""@ + old + "\""@, "\""@ + new + "\""@);
    let sq = replaced(line, "'"@ + old + "'"@, "'"@ + new + "'"@);
    if find_from(lower_of(line), lower_of(name), 0, false).is_some() && dq != line {
        dq
    } else if find_from(lower_of(line), lower_of(name), 0, false).is_some() && sq != line {
        sq
    } else {
        replaced(line, old, new)
    }
}

/// A conda line with the constraint replaced: as written with `==`, then
/// with conda's single `=`, else every occurrence of `old`.
pub open spec fn conda_line(
    line: Seq<char>,
    name: Seq<char>,
    old: Seq<char>,
    new: Seq<char>,
) -> Seq<char> {
    let exact = replaced(line, name + old, name + new);
    let single = replaced(
        line,
        name + replaced(old, "=="@, "="@),
        name + replaced(new, "=="@, "="@),
    );
    if exact != line {
        exact
    } else if single != line {
        single
    } else {
        replaced(line, old, new)
    }
}

/// The line rewritten in the style of the file it comes from.
pub open spec fn rewritten_line(
    line: Seq<char>,
    name: Seq<char>,
    old: Seq<char>,
    new: Seq<char>,
    file: Seq<char>,
) -> Seq<char> {
    let n = file_name_of(file);
    if has_prefix(n, "requirements"@) || has_suffix(n, ".txt"@) {
        requirements_line(line, name, old, new)
    } else if n == "pyproject.toml"@ {
        pyproject_line(line, name, old, new)
    } else if has_prefix(n, "environment."@) && (has_suffix(n, ".yml"@) || has_suffix(
        n,
        ".yaml"@,
    )) {
        conda_line(line, name, old, new)
    } else {
        requirements_line(line, name, old, new)
    }
}

fn concat(a: &str, b: &str) -> (r: String)
    ensures
        r@ == a@ + b@,
{
    let mut out = String::from_str(a);
    out.append(b);
    out
}

fn quoted(q: &str, s: &str) -> (r: String)
    ensures
        r@ == q@ + s@ + q@,
{
    let mut out = String::from_str(q);
    out.append(s);
    out.append(q);
    out
}

/// Writes updated constraints back into dependency files.
#[derive(Debug, Clone)]
pub struct FileUpdater;

impl FileUpdater {
    pub fn new() -> (r: FileUpdater) {
        FileUpdater
    }

    /// Rewrites a requirements line.
    pub fn replace_in_requirements(
        &self,
        line: &str,
        package_name: &str,
        old_spec: &str,
        new_spec: &str,
    ) -> (r: String)
        ensures
            r@ == requirements_line(line@, package_name@, old_spec@, new_spec@),
    {
        let from = concat(package_name, old_spec);
        let to = concat(package_name, new_spec);
        let exact = replace_all(line, from.as_str(), to.as_str());
        if !same_text(exact.as_str(), line) {
            return exact;
        }
        match (find_char_in(line, '['), find_char_in(line, ']')) {
            (Some(bs), Some(be)) => {
                proof {
                    lemma_find_from_bounds(line@, seq!['['], 0, false);
                    lemma_find_from_bounds(line@, seq![']'], 0, false);
                }
                let n = char_len(line);
                let before = slice(line, 0, bs);
                assert(before@ =~= line@.take(bs as int));
                if bs <= be && same_text(trim(before), package_name) {
                    let head = slice(line, 0, be + 1);
                    assert(head@ =~= line@.take(be + 1));
                    let tail = slice(line, be + 1, n);
                    assert(tail@ =~= line@.skip(be + 1));
                    let rest = replace_all(tail, old_spec, new_spec);
                    concat(head, rest.as_str())
                } else {
                    replace_all(line, old_spec, new_spec)
                }
            },
            _ => replace_all(line, old_spec, new_spec),
        }
    }

    /// Rewrites a `pyproject.toml` line.
    pub fn replace_in_pyproject(
        &self,
        line: &str,
        package_name: &str,
        old_spec: &str,
        new_spec: &str,
    ) -> (r: String)
        ensures
            r@ == pyproject_line(line@, package_name@, old_spec@, new_spec@),
    {
        let lower_line = to_lower(line);
        let lower_name = to_lower(package_name);
        if find_in(lower_line.as_str(), lower_name.as_str(), false).is_some() {
            let from = quoted("\"", old_spec);
            let to = quoted("\"", new_spec);
            let dq = replace_all(line, from.as_str(), to.as_str());
            if !same_text(dq.as_str(), line) {
                return dq;
            }
            let from = quoted("'", old_spec);
            let to = quoted("'", new_spec);
            let sq = replace_all(line, from.as_str(), to.as_str());
            if !same_text(sq.as_str(), line) {
                return sq;
            }
        }
        replace_all(line, old_spec, new_spec)
    }

    /// Rewrites a conda environment line.
    pub fn replace_in_conda(
        &self,
        line: &str,
        package_name: &str,
        old_spec: &str,
        new_spec: &str,
    ) -> (r: String)
        ensures
            r@ == conda_line(line@, package_name@, old_spec@, new_spec@),
    {
        let from = concat(package_name, old_spec);
        let to = concat(package_name, new_spec);
        let exact = replace_all(line, from.as_str(), to.as_str());
        if !same_text(exact.as_str(), line) {
            return exact;
        }
        let conda_old = replace_all(old_spec, "==", "=");
        let conda_new = replace_all(new_spec, "==", "=");
        let from = concat(package_name, conda_old.as_str());
        let to = concat(package_name, conda_new.as_str());
        let single = replace_all(line, from.as_str(), to.as_str());
        if !same_text(single.as_str(), line) {
            return single;
        }
        replace_all(line, old_spec, new_spec)
    }

    /// Rewrites a line in the style of the file it comes from.
    pub fn replace_version_in_line(
        &self,
        line: &str,
        package_name: &str,
        old_spec: &str,
        new_spec: &str,
        file_path: &str,
    ) -> (r: String)
        ensures
            r@ == rewritten_line(line@, package_name@, old_spec@, new_spec@, file_path@),
    {
        let n = file_name(file_path);
        if starts_with(n, "requirements") || ends_with(n, ".txt") {
            self.replace_in_requirements(line, package_name, old_spec, new_spec)
        } else if same_text(n, "pyproject.toml") {
            self.replace_in_pyproject(line, package_name, old_spec, new_spec)
        } else if starts_with(n, "environment.") && (ends_with(n, ".yml") || ends_with(n, ".yaml")) {
            self.replace_in_conda(line, package_name, old_spec, new_spec)
        } else {
            self.replace_in_requirements(line, package_name, old_spec, new_spec)
        }
    }
}


/// A manifest line to rewrite.
#[derive(Debug, Clone)]
pub struct LineUpdate {
    /// The line, counted from 1.
    pub line_number: usize,
    pub name: String,
    /// The constraint as written now.
    pub old_spec: String,
    /// The constraint to write.
    pub new_spec: String,
}

/// The constraint to write for a check: under `force` the one for the
/// latest version; otherwise the target's, for patch updates and, with
/// `include_minor`, minor ones; none for major updates.
pub open spec fn chosen_spec(check: DependencyCheck, include_minor: bool, force: bool) -> Option<
    SpecModel,
> {
    if force {
        opt_spec(check.force_spec)
    } else {
        match check.severity {
            Some(UpdateSeverity::Patch) => opt_spec(check.target_spec),
            Some(UpdateSeverity::Minor) => if include_minor {
                opt_spec(check.target_spec)
            } else {
                None
            },
            _ => None,
        }
    }
}

/// The lines after the updates, applied in order; an update whose line
/// does not exist is skipped.
pub open spec fn apply_line_updates(
    ls: Seq<Seq<char>>,
    us: Seq<(int, Seq<char>, Seq<char>, Seq<char>)>,
    file: Seq<char>,
) -> Seq<Seq<char>>
    decreases us.len(),
{
    if us.len() == 0 {
        ls
    } else {
        let prev = apply_line_updates(ls, us.drop_last(), file);
        let u = us.last();
        let idx: int = if u.0 == 0 {
            0
        } else {
            u.0 - 1
        };
        if 0 <= idx < prev.len() {
            prev.update(idx, rewritten_line(prev[idx], u.1, u.2, u.3, file))
        } else {
            prev
        }
    }
}

/// The lines joined with `\n`.
pub open spec fn join_lines(ls: Seq<Seq<char>>) -> Seq<char>
    decreases ls.len(),
{
    if ls.len() == 0 {
        seq![]
    } else if ls.len() == 1 {
        ls[0]
    } else {
        join_lines(ls.drop_last()) + "\n"@ + ls.last()
    }
}

/// A file's text after the updates; a final newline is kept.
pub open spec fn updated_content(
    content: Seq<char>,
    file: Seq<char>,
    us: Seq<(int, Seq<char>, Seq<char>, Seq<char>)>,
) -> Seq<char> {
    join_lines(apply_line_updates(lines_of(content), us, file)) + if has_suffix(content, "\n"@) {
        "\n"@
    } else {
        seq![]
    }
}

pub open spec fn string_views(v: Seq<String>) -> Seq<Seq<char>> {
    v.map_values(|x: String| x@)
}

/// A file's path and text.
pub open spec fn file_views(v: Seq<(String, String)>) -> Seq<(Seq<char>, Seq<char>)> {
    v.map_values(|x: (String, String)| (x.0@, x.1@))
}

/// The rewrites planned for `file`, in the order of the checks.
pub open spec fn updates_for(
    checks: Seq<DependencyCheck>,
    file: Seq<char>,
    include_minor: bool,
    force: bool,
) -> Seq<(int, Seq<char>, Seq<char>, Seq<char>)>
    decreases checks.len(),
{
    if checks.len() == 0 {
        seq![]
    } else {
        let c = checks.last();
        updates_for(checks.drop_last(), file, include_minor, force) + match chosen_spec(
            c,
            include_minor,
            force,
        ) {
            Some(s) => if c.dependency.source_file@ == file {
                seq![
                    (
                        c.dependency.line_number as int,
                        c.dependency.name@,
                        c.dependency.version_spec@.text(),
                        s.text(),
                    ),
                ]
            } else {
                seq![]
            },
            None => seq![],
        }
    }
}

pub open spec fn update_views(us: Seq<LineUpdate>) -> Seq<(int, Seq<char>, Seq<char>, Seq<char>)> {
    us.map_values(|u: LineUpdate| (u.line_number as int, u.name@, u.old_spec@, u.new_spec@))
}

/// A package is updated in more than one file.
pub open spec fn in_several_files(
    checks: Seq<DependencyCheck>,
    include_minor: bool,
    force: bool,
    name: Seq<char>,
) -> bool {
    exists|i: int, j: int|
        0 <= i < checks.len() && 0 <= j < checks.len() && chosen_spec(
            #[trigger] checks[i],
            include_minor,
            force,
        ).is_some() && chosen_spec(#[trigger] checks[j], include_minor, force).is_some()
            && checks[i].dependency.name@ == name && checks[j].dependency.name@ == name
            && checks[i].dependency.source_file@ != checks[j].dependency.source_file@
}

/// The files rewritten, with their new text: those with a planned
/// update, in the order given.
pub open spec fn files_written(
    files: Seq<(String, String)>,
    checks: Seq<DependencyCheck>,
    include_minor: bool,
    force: bool,
) -> Seq<(Seq<char>, Seq<char>)>
    decreases files.len(),
{
    if files.len() == 0 {
        seq![]
    } else {
        let (p, c) = files.last();
        let us = updates_for(checks, p@, include_minor, force);
        files_written(files.drop_last(), checks, include_minor, force) + if us.len() > 0 {
            seq![(p@, updated_content(c@, p@, us))]
        } else {
            seq![]
        }
    }
}

/// What applying updates did.
#[derive(Debug, Clone)]
pub struct UpdateResult {
    /// The files rewritten, in the order they were given.
    pub modified_files: Vec<String>,
    /// The packages updated in more than one file, ascending.
    pub multi_file_packages: Vec<String>,
    /// The managers of the rewritten files, each once.
    pub package_managers: Vec<PackageManager>,
}

fn spec_text(s: &VersionSpec) -> (r: String)
    ensures
        r@ == s@.text(),
{
    s.to_string()
}

/// Adds a manager to the list unless it is there already.
fn add_manager(managers: &mut Vec<PackageManager>, pm: PackageManager)
    ensures
        final(managers)@ == if old(managers)@.contains(pm) {
            old(managers)@
        } else {
            old(managers)@.push(pm)
        },
{
    let mut m: usize = 0;
    while m < managers.len()
        invariant
            m <= managers@.len(),
            managers@ == old(managers)@,
            forall|k: int| 0 <= k < m ==> managers@[k] != pm,
        decreases managers@.len() - m,
    {
        if managers[m] == pm {
            assert(managers@[m as int] == pm);
            return;
        }
        m = m + 1;
    }
    managers.push(pm);
}

impl FileUpdater {
    /// The constraint to write for a check under the given policy.
    pub fn choose_spec<'a>(check: &'a DependencyCheck, include_minor: bool, force: bool) -> (r: Option<
        &'a VersionSpec,
    >)
        ensures
            match r {
                Some(s) => chosen_spec(*check, include_minor, force) == Some(s@),
                None => chosen_spec(*check, include_minor, force).is_none(),
            },
    {
        if force {
            return match &check.force_spec {
                Some(s) => Some(s),
                None => None,
            };
        }
        match check.severity {
            Some(UpdateSeverity::Patch) => match &check.target_spec {
                Some(s) => Some(s),
                None => None,
            },
            Some(UpdateSeverity::Minor) => if include_minor {
                match &check.target_spec {
                    Some(s) => Some(s),
                    None => None,
                }
            } else {
                None
            },
            _ => None,
        }
    }

    /// A file's text with the updates applied to their lines.
    pub fn update_content(&self, content: &str, file_path: &str, updates: &Vec<LineUpdate>) -> (r:
        String)
        ensures
            r@ == updated_content(content@, file_path@, update_views(updates@)),
    {
        let ls = lines(content);
        let ghost lv = lines_of(content@);
        let mut text: Vec<String> = Vec::new();
        let mut i: usize = 0;
        while i < ls.len()
            invariant
                views(ls@) == lv,
                i <= ls@.len(),
                string_views(text@) == lv.take(i as int),
            decreases ls@.len() - i,
        {
            assert(lv[i as int] == ls@[i as int]@);
            let ghost before = string_views(text@);
            text.push(String::from_str(ls[i]));
            assert(string_views(text@) =~= before.push(lv[i as int]));
            assert(lv.take(i + 1) =~= lv.take(i as int).push(lv[i as int]));
            i = i + 1;
        }
        assert(lv.take(ls@.len() as int) =~= lv);
        let mut k: usize = 0;
        let ghost uv = update_views(updates@);
        assert(uv.take(0) =~= Seq::<(int, Seq<char>, Seq<char>, Seq<char>)>::empty());
        while k < updates.len()
            invariant
                k <= updates@.len(),
                uv == update_views(updates@),
                string_views(text@) == apply_line_updates(lv, uv.take(k as int), file_path@),
            decreases updates@.len() - k,
        {
            let u = &updates[k];
            assert(uv.take(k + 1).drop_last() =~= uv.take(k as int));
            assert(uv.take(k + 1).last() == (u.line_number as int, u.name@, u.old_spec@, u.new_spec@));
            let idx: usize = if u.line_number == 0 {
                0
            } else {
                u.line_number - 1
            };
            if idx < text.len() {
                let line = self.replace_version_in_line(
                    text[idx].as_str(),
                    u.name.as_str(),
                    u.old_spec.as_str(),
                    u.new_spec.as_str(),
                    file_path,
                );
                let ghost before = string_views(text@);
                text.set(idx, line);
                assert(string_views(text@) =~= before.update(idx as int, line@));
            }
            k = k + 1;
        }
        assert(uv.take(updates@.len() as int) =~= uv);
        let ghost fin = string_views(text@);
        let mut out = String::new();
        let mut j: usize = 0;
        while j < text.len()
            invariant
                fin == string_views(text@),
                j <= text@.len(),
                out@ == join_lines(fin.take(j as int)),
            decreases text@.len() - j,
        {
            assert(fin[j as int] == text@[j as int]@);
            assert(fin.take(j + 1).drop_last() =~= fin.take(j as int));
            if j > 0 {
                out.append("\n");
            } else {
                assert(fin.take(1)[0] == fin[0]);
            }
            out.append(text[j].as_str());
            j = j + 1;
        }
        assert(fin.take(text@.len() as int) =~= fin);
        if ends_with(content, "\n") {
            out.append("\n");
        }
        out
    }

    /// The rewrites of one file, as planned from the checks.
    pub fn updates_for_file(
        checks: &Vec<DependencyCheck>,
        file_path: &str,
        include_minor: bool,
        force: bool,
    ) -> (r: Vec<LineUpdate>)
        ensures
            update_views(r@) == updates_for(checks@, file_path@, include_minor, force),
    {
        let mut out: Vec<LineUpdate> = Vec::new();
        let mut i: usize = 0;
        assert(checks@.take(0) =~= Seq::<DependencyCheck>::empty());
        assert(update_views(out@) =~= Seq::<(int, Seq<char>, Seq<char>, Seq<char>)>::empty());
        while i < checks.len()
            invariant
                i <= checks@.len(),
                update_views(out@) == updates_for(
                    checks@.take(i as int),
                    file_path@,
                    include_minor,
                    force,
                ),
            decreases checks@.len() - i,
        {
            let c = &checks[i];
            assert(checks@.take(i + 1).drop_last() =~= checks@.take(i as int));
            assert(checks@.take(i + 1).last() == *c);
            match FileUpdater::choose_spec(c, include_minor, force) {
                Some(s) => {
                    if same_text(c.dependency.source_file.as_str(), file_path) {
                        let u = LineUpdate {
                            line_number: c.dependency.line_number,
                            name: c.dependency.name.clone(),
                            old_spec: spec_text(&c.dependency.version_spec),
                            new_spec: spec_text(s),
                        };
                        let ghost before = update_views(out@);
                        let ghost uv = (u.line_number as int, u.name@, u.old_spec@, u.new_spec@);
                        out.push(u);
                        assert(update_views(out@) =~= before.push(uv));
                    }
                },
                None => {},
            }
            assert(update_views(out@) =~= updates_for(
                checks@.take(i + 1),
                file_path@,
                include_minor,
                force,
            ));
            i = i + 1;
        }
        assert(checks@.take(checks@.len() as int) =~= checks@);
        out
    }

    /// The packages updated in more than one file, ascending, each once.
    pub fn multi_file_packages(checks: &Vec<DependencyCheck>, include_minor: bool, force: bool) -> (r:
        Vec<String>)
        ensures
            strictly_sorted(r@),
            forall|n: Seq<char>|
                holds_name(r@, n) <==> in_several_files(checks@, include_minor, force, n),
    {
        let mut out: Vec<String> = Vec::new();
        let n = checks.len();
        let mut i: usize = 0;
        while i < n
            invariant
                n == checks@.len(),
                i <= n,
                strictly_sorted(out@),
                forall|x: Seq<char>|
                    holds_name(out@, x) <==> (in_several_files(checks@, include_minor, force, x)
                        && exists|k: int|
                        0 <= k < i && chosen_spec(#[trigger] checks@[k], include_minor, force).is_some()
                            && checks@[k].dependency.name@ == x),
            decreases n - i,
        {
            let ci = &checks[i];
            assert(checks@[i as int] == *ci);
            let mut several = false;
            if FileUpdater::choose_spec(ci, include_minor, force).is_some() {
                let mut j: usize = 0;
                while j < n
                    invariant
                        n == checks@.len(),
                        i < n,
                        j <= n,
                        checks@[i as int] == *ci,
                        chosen_spec(checks@[i as int], include_minor, force).is_some(),
                        several ==> in_several_files(
                            checks@,
                            include_minor,
                            force,
                            checks@[i as int].dependency.name@,
                        ),
                        !several ==> forall|k: int|
                            0 <= k < j ==> !(chosen_spec(#[trigger] checks@[k], include_minor, force).is_some()
                                && checks@[k].dependency.name@ == checks@[i as int].dependency.name@
                                && checks@[k].dependency.source_file@
                                != checks@[i as int].dependency.source_file@),
                    decreases n - j,
                {
                    let cj = &checks[j];
                    assert(checks@[j as int] == *cj);
                    if !several && FileUpdater::choose_spec(cj, include_minor, force).is_some()
                        && same_text(cj.dependency.name.as_str(), ci.dependency.name.as_str())
                        && !same_text(
                        cj.dependency.source_file.as_str(),
                        ci.dependency.source_file.as_str(),
                    ) {
                        assert(in_several_files(
                            checks@,
                            include_minor,
                            force,
                            checks@[i as int].dependency.name@,
                        )) by {
                            assert(checks@[j as int] == *cj);
                            assert(checks@[i as int] == *ci);
                        }
                        several = true;
                    }
                    j = j + 1;
                }
                proof {
                    if !several {
                        let x = checks@[i as int].dependency.name@;
                        assert(!in_several_files(checks@, include_minor, force, x)) by {
                            if in_several_files(checks@, include_minor, force, x) {
                                let (a, b) = choose|a: int, b: int|
                                    0 <= a < checks@.len() && 0 <= b < checks@.len() && chosen_spec(
                                        #[trigger] checks@[a],
                                        include_minor,
                                        force,
                                    ).is_some() && chosen_spec(
                                        #[trigger] checks@[b],
                                        include_minor,
                                        force,
                                    ).is_some() && checks@[a].dependency.name@ == x
                                        && checks@[b].dependency.name@ == x
                                        && checks@[a].dependency.source_file@
                                        != checks@[b].dependency.source_file@;
                                if checks@[a].dependency.source_file@
                                    != checks@[i as int].dependency.source_file@ {
                                    assert(false);
                                } else {
                                    assert(checks@[b].dependency.source_file@
                                        != checks@[i as int].dependency.source_file@);
                                    assert(false);
                                }
                            }
                        }
                    }
                }
            }
            let ghost before = out@;
            if several {
                insert_name(&mut out, ci.dependency.name.clone());
            }
            proof {
                assert forall|x: Seq<char>|
                    holds_name(out@, x) <==> (in_several_files(checks@, include_minor, force, x)
                        && exists|k: int|
                        0 <= k < i + 1 && chosen_spec(#[trigger] checks@[k], include_minor, force).is_some()
                            && checks@[k].dependency.name@ == x) by {
                    if x == checks@[i as int].dependency.name@ && chosen_spec(
                        checks@[i as int],
                        include_minor,
                        force,
                    ).is_some() {
                        assert(checks@[i as int] == *ci);
                    }
                    if holds_name(before, x) {
                        let k = choose|k: int|
                            0 <= k < i && chosen_spec(#[trigger] checks@[k], include_minor, force).is_some()
                                && checks@[k].dependency.name@ == x;
                        assert(0 <= k < i + 1);
                    }
                }
            }
            i = i + 1;
        }
        proof {
            assert forall|x: Seq<char>|
                in_several_files(checks@, include_minor, force, x) implies holds_name(out@, x) by {
                let (a, b) = choose|a: int, b: int|
                    0 <= a < checks@.len() && 0 <= b < checks@.len() && chosen_spec(
                        #[trigger] checks@[a],
                        include_minor,
                        force,
                    ).is_some() && chosen_spec(#[trigger] checks@[b], include_minor, force).is_some()
                        && checks@[a].dependency.name@ == x && checks@[b].dependency.name@ == x
                        && checks@[a].dependency.source_file@ != checks@[b].dependency.source_file@;
                assert(0 <= a < n);
            }
        }
        out
    }

    /// Applies the updates the checks call for to the given files (path and
    /// text): each file with an update comes back with its new text. The
    /// result lists the rewritten files, the packages updated in more than
    /// one file, and the managers to sync.
    pub fn apply_updates(
        &self,
        checks: &Vec<DependencyCheck>,
        include_minor: bool,
        force: bool,
        files: &Vec<(String, String)>,
    ) -> (r: (Vec<(String, String)>, UpdateResult))
        ensures
            file_views(r.0@) == files_written(files@, checks@, include_minor, force),
            string_views(r.1.modified_files@) == file_views(r.0@).map_values(
                |x: (Seq<char>, Seq<char>)| x.0,
            ),
            strictly_sorted(r.1.multi_file_packages@),
            forall|n: Seq<char>|
                holds_name(r.1.multi_file_packages@, n) <==> in_several_files(
                    checks@,
                    include_minor,
                    force,
                    n,
                ),
    {
        let mut written: Vec<(String, String)> = Vec::new();
        let mut modified: Vec<String> = Vec::new();
        let mut managers: Vec<PackageManager> = Vec::new();
        let mut f: usize = 0;
        assert(files@.take(0) =~= Seq::<(String, String)>::empty());
        assert(file_views(written@) =~= Seq::<(Seq<char>, Seq<char>)>::empty());
        assert(string_views(modified@) =~= file_views(written@).map_values(
            |x: (Seq<char>, Seq<char>)| x.0,
        ));
        while f < files.len()
            invariant
                f <= files@.len(),
                string_views(modified@) == file_views(written@).map_values(
                    |x: (Seq<char>, Seq<char>)| x.0,
                ),
                file_views(written@) == files_written(
                    files@.take(f as int),
                    checks@,
                    include_minor,
                    force,
                ),
            decreases files@.len() - f,
        {
            let (path, content) = (&files[f].0, &files[f].1);
            let updates = FileUpdater::updates_for_file(checks, path.as_str(), include_minor, force);
            if updates.len() > 0 {
                match detect_package_manager(path.as_str()) {
                    Some(pm) => {
                        add_manager(&mut managers, pm);
                    },
                    None => {},
                }
                let text = self.update_content(content.as_str(), path.as_str(), &updates);
                let ghost wb = file_views(written@).map_values(|x: (Seq<char>, Seq<char>)| x.0);
                let ghost old_written = written@;
                let ghost mb = string_views(modified@);
                written.push((path.clone(), text));
                modified.push(path.clone());
                assert(file_views(written@).map_values(|x: (Seq<char>, Seq<char>)| x.0) =~= wb.push(
                    path@,
                ));
                assert(string_views(modified@) =~= mb.push(path@));
                assert(file_views(written@) =~= file_views(old_written).push((path@, text@)));
            }
            proof {
                assert(files@.take(f + 1).drop_last() =~= files@.take(f as int));
                assert(files@.take(f + 1).last() == files@[f as int]);
                assert(update_views(updates@).len() == updates@.len());
                assert(file_views(written@) == files_written(
                    files@.take(f + 1),
                    checks@,
                    include_minor,
                    force,
                ));
            }
            f = f + 1;
        }
        assert(files@.take(files@.len() as int) =~= files@);
        let multi = FileUpdater::multi_file_packages(checks, include_minor, force);
        (
            written,
            UpdateResult {
                modified_files: modified,
                multi_file_packages: multi,
                package_managers: managers,
            },
        )
    }
}

} // verus!
