//! Globally installed Python tools and packages (uv tools, pipx, pip --user).

use vstd::prelude::*;
use crate::text::{
    char_at, char_len, ends_with, has_prefix, has_suffix, is_digit, lines, lines_of, slice,
    starts_with, trim, trim_of, views, words, words_of,
};
use crate::names::{holds_name, insert_name, strictly_sorted};
use crate::text::{lower_of, replace_all, replaced, to_lower};
use crate::text::{join_path, joined, same_text};
use crate::types::{severity_of, update_severity_between, UpdateSeverity};
use crate::json_doc::{json_member, json_members, json_text, parse_json};
use crate::resolver::models;
use crate::types::PackageInfo;
use crate::upgrade::{command_views, CommandModel, UpgradeCommand};
use crate::version::{Version, VersionModel, version_in};

verus! {

/// Where a global package was installed from.
#[derive(Debug, Clone, Copy, PartialEq, Eq, Hash, Structural)]
pub enum GlobalSource {
    Uv,
    Pipx,
    PipUser,
}

impl GlobalSource {
    pub open spec fn name(self) -> Seq<char> {
        match self {
            GlobalSource::Uv => "uv"@,
            GlobalSource::Pipx => "pipx"@,
            GlobalSource::PipUser => "pip"@,
        }
    }

    /// The source's short name: `uv`, `pipx` or `pip`.
    pub fn to_string(&self) -> (r: String)
        ensures
            r@ == self.name(),
    {
        match self {
            GlobalSource::Uv => String::from_str("uv"),
            GlobalSource::Pipx => String::from_str("pipx"),
            GlobalSource::PipUser => String::from_str("pip"),
        }
    }
}

/// A globally installed package.
#[derive(Debug, Clone)]
pub struct GlobalPackage {
    pub name: String,
    pub installed_version: Version,
    pub source: GlobalSource,
    /// The Python series of a pip --user package.
    pub python_version: Option<String>,
}

pub struct GlobalPackageModel {
    pub name: Seq<char>,
    pub installed_version: VersionModel,
    pub source: GlobalSource,
    pub python_version: Option<Seq<char>>,
}

impl View for GlobalPackage {
    type V = GlobalPackageModel;

    open spec fn view(&self) -> GlobalPackageModel {
        GlobalPackageModel {
            name: self.name@,
            installed_version: self.installed_version@,
            source: self.source,
            python_version: match self.python_version {
                Some(p) => Some(p@),
                None => None,
            },
        }
    }
}

pub open spec fn package_views(v: Seq<GlobalPackage>) -> Seq<GlobalPackageModel> {
    v.map_values(|p: GlobalPackage| p@)
}

/// A global package and the latest release of it.
#[derive(Debug, Clone)]
pub struct GlobalCheck {
    pub package: GlobalPackage,
    pub latest: Version,
    pub has_update: bool,
}

impl GlobalCheck {
    /// How far the update moves; `None` without an update.
    pub fn update_severity(&self) -> (r: Option<UpdateSeverity>)
        ensures
            r == if self.has_update {
                severity_of(self.package.installed_version@, self.latest@)
            } else {
                None
            },
    {
        if !self.has_update {
            return None;
        }
        update_severity_between(&self.package.installed_version, &self.latest)
    }
}

/// `s` without its leading `c`s.
pub open spec fn drop_leading(s: Seq<char>, c: char) -> Seq<char>
    decreases s.len(),
{
    if s.len() > 0 && s[0] == c {
        drop_leading(s.skip(1), c)
    } else {
        s
    }
}

fn trim_leading(s: &str, c: char) -> (r: &str)
    ensures
        r@ == drop_leading(s@, c),
{
    let n = char_len(s);
    let mut i: usize = 0;
    assert(s@.skip(0) =~= s@);
    while i < n && char_at(s, i) == c
        invariant
            n == s@.len(),
            i <= n,
            drop_leading(s@, c) == drop_leading(s@.skip(i as int), c),
        decreases n - i,
    {
        assert(s@.skip(i as int).skip(1) =~= s@.skip(i + 1));
        i = i + 1;
    }
    let r = slice(s, i, n);
    assert(r@ =~= s@.skip(i as int));
    r
}

/// The package one trimmed line of `uv tool list` names: `name vX.Y.Z`
/// or `name X.Y.Z`; lines of executables (`- name`) name none.
pub open spec fn uv_tool_entry(t: Seq<char>) -> Option<GlobalPackageModel> {
    let parts = words_of(t);
    if t.len() == 0 || has_prefix(t, "-"@) || parts.len() < 2 {
        None
    } else {
        match version_in(drop_leading(parts[1], 'v')) {
            Some(v) => Some(
                GlobalPackageModel {
                    name: parts[0],
                    installed_version: v,
                    source: GlobalSource::Uv,
                    python_version: None,
                },
            ),
            None => None,
        }
    }
}

pub open spec fn uv_tool_entries(ls: Seq<Seq<char>>) -> Seq<GlobalPackageModel>
    decreases ls.len(),
{
    if ls.len() == 0 {
        seq![]
    } else {
        uv_tool_entries(ls.drop_last()) + match uv_tool_entry(trim_of(ls.last())) {
            Some(e) => seq![e],
            None => seq![],
        }
    }
}

/// `-` at `i` followed by an ASCII digit.
pub open spec fn dash_before_digit(w: Seq<char>, i: int) -> bool {
    0 <= i && i + 1 < w.len() && w[i] == '-' && is_digit(w[i + 1])
}

/// The last index below `k` where a `-` is followed by a digit.
pub open spec fn last_dash_before_digit(w: Seq<char>, k: int) -> Option<int>
    decreases k,
{
    if k <= 0 {
        None
    } else if dash_before_digit(w, k - 1) {
        Some(k - 1)
    } else {
        last_dash_before_digit(w, k - 1)
    }
}

/// The name and version a `.dist-info` directory name spells: the
/// version starts after the last `-` that a digit follows.
pub open spec fn dist_info_entry(name: Seq<char>) -> Option<(Seq<char>, VersionModel)> {
    if !has_suffix(name, ".dist-info"@) {
        None
    } else {
        let w = name.take(name.len() - 10);
        match last_dash_before_digit(w, w.len() as int) {
            Some(i) => match version_in(w.skip(i + 1)) {
                Some(v) => Some((w.take(i), v)),
                None => None,
            },
            None => None,
        }
    }
}

/// Finds globally installed packages.
#[derive(Debug, Clone)]
pub struct GlobalPackageDiscovery {
    pub include_prerelease: bool,
}

impl GlobalPackageDiscovery {
    pub fn new(include_prerelease: bool) -> (r: GlobalPackageDiscovery)
        ensures
            r.include_prerelease == include_prerelease,
    {
        GlobalPackageDiscovery { include_prerelease }
    }

    fn uv_tool_line(t: &str) -> (r: Option<GlobalPackage>)
        ensures
            match r {
                Some(p) => uv_tool_entry(t@) == Some(p@),
                None => uv_tool_entry(t@).is_none(),
            },
    {
        if char_len(t) == 0 || starts_with(t, "-") {
            return None;
        }
        let parts = words(t);
        if parts.len() < 2 {
            return None;
        }
        assert(views(parts@)[0] == parts@[0]@);
        assert(views(parts@)[1] == parts@[1]@);
        let vtext = trim_leading(parts[1], 'v');
        match Version::parse(vtext) {
            Ok(v) => Some(
                GlobalPackage {
                    name: String::from_str(parts[0]),
                    installed_version: v,
                    source: GlobalSource::Uv,
                    python_version: None,
                },
            ),
            Err(_) => None,
        }
    }

    /// Reads `uv tool list` output: one package per tool line whose
    /// version parses.
    pub fn parse_uv_tool_list(&self, output: &str) -> (r: Vec<GlobalPackage>)
        ensures
            package_views(r@) == uv_tool_entries(lines_of(output@)),
    {
        let ls = lines(output);
        let ghost lv = lines_of(output@);
        let mut out: Vec<GlobalPackage> = Vec::new();
        let mut i: usize = 0;
        assert(lv.take(0) =~= Seq::<Seq<char>>::empty());
        assert(package_views(out@) =~= Seq::<GlobalPackageModel>::empty());
        while i < ls.len()
            invariant
                views(ls@) == lv,
                i <= ls@.len(),
                package_views(out@) == uv_tool_entries(lv.take(i as int)),
            decreases ls@.len() - i,
        {
            let line = ls[i];
            assert(lv[i as int] == line@);
            assert(lv.take(i + 1).drop_last() =~= lv.take(i as int));
            let t = trim(line);
            match GlobalPackageDiscovery::uv_tool_line(t) {
                Some(p) => {
                    let ghost before = package_views(out@);
                    out.push(p);
                    assert(package_views(out@) =~= before.push(p@));
                },
                None => {},
            }
            assert(package_views(out@) =~= uv_tool_entries(lv.take(i + 1)));
            i = i + 1;
        }
        assert(lv.take(ls@.len() as int) =~= lv);
        out
    }

    /// Splits a `name-version.dist-info` directory name.
    pub fn parse_dist_info_name(&self, name: &str) -> (r: Option<(String, Version)>)
        ensures
            match r {
                Some((n, v)) => dist_info_entry(name@) == Some((n@, v@)),
                None => dist_info_entry(name@).is_none(),
            },
    {
        proof {
            reveal_strlit(".dist-info");
        }
        if !ends_with(name, ".dist-info") {
            return None;
        }
        let len = char_len(name);
        let w = slice(name, 0, len - 10);
        assert(w@ =~= name@.take(name@.len() - 10));
        let wn = char_len(w);
        let mut k: usize = wn;
        while k > 0
            invariant
                wn == w@.len(),
                k <= wn,
                name@.len() >= 10,
                w@ == name@.take(name@.len() - 10),
                has_suffix(name@, ".dist-info"@),
                ".dist-info"@.len() == 10,
                last_dash_before_digit(w@, wn as int) == last_dash_before_digit(w@, k as int),
            decreases k,
        {
            let i = k - 1;
            if char_at(w, i) == '-' && i + 1 < wn {
                let d = char_at(w, i + 1);
                if '0' <= d && d <= '9' {
                    assert(dash_before_digit(w@, i as int));
                    assert(last_dash_before_digit(w@, k as int) == Some(i as int));
                    let rest = slice(w, i + 1, wn);
                    assert(rest@ =~= w@.skip(i + 1));
                    let pkg = slice(w, 0, i);
                    assert(pkg@ =~= w@.take(i as int));
                    return match Version::parse(rest) {
                        Ok(v) => Some((String::from_str(pkg), v)),
                        Err(_) => None,
                    };
                }
            }
            k = i;
        }
        None
    }
}

/// The indices of the checks with an update from `source`, in order.
pub open spec fn updates_from(checks: Seq<GlobalCheck>, source: GlobalSource) -> Seq<int>
    decreases checks.len(),
{
    if checks.len() == 0 {
        seq![]
    } else {
        let c = checks.last();
        updates_from(checks.drop_last(), source) + if c.has_update && c.package.source == source {
            seq![checks.len() - 1]
        } else {
            seq![]
        }
    }
}

fn indices_from(checks: &Vec<GlobalCheck>, source: GlobalSource) -> (r: Vec<usize>)
    ensures
        r@.map_values(|i: usize| i as int) == updates_from(checks@, source),
{
    let mut out: Vec<usize> = Vec::new();
    let mut i: usize = 0;
    assert(checks@.take(0) =~= Seq::<GlobalCheck>::empty());
    assert(out@.map_values(|i: usize| i as int) =~= Seq::<int>::empty());
    while i < checks.len()
        invariant
            i <= checks@.len(),
            out@.map_values(|i: usize| i as int) == updates_from(checks@.take(i as int), source),
        decreases checks@.len() - i,
    {
        let c = &checks[i];
        assert(checks@.take(i + 1).drop_last() =~= checks@.take(i as int));
        assert(checks@.take(i + 1).last() == checks@[i as int]);
        if c.has_update && c.package.source == source {
            let ghost before = out@.map_values(|i: usize| i as int);
            out.push(i);
            assert(out@.map_values(|i: usize| i as int) =~= before.push(i as int));
        }
        assert(out@.map_values(|i: usize| i as int) =~= updates_from(
            checks@.take(i + 1),
            source,
        ));
        i = i + 1;
    }
    assert(checks@.take(checks@.len() as int) =~= checks@);
    out
}

/// The place of a source among the groups: uv, pipx, pip.
pub open spec fn rank(s: GlobalSource) -> int {
    match s {
        GlobalSource::Uv => 0,
        GlobalSource::Pipx => 1,
        GlobalSource::PipUser => 2,
    }
}

/// Groups the checks with an update by source: one group per source that
/// has any, in the order uv, pipx, pip, each with the checks' indices in order.
pub fn group_by_source(checks: &Vec<GlobalCheck>) -> (r: Vec<(GlobalSource, Vec<usize>)>)
    ensures
        forall|k: int|
            0 <= k < r@.len() ==> (#[trigger] r@[k]).1@.len() > 0 && r@[k].1@.map_values(
                |i: usize| i as int,
            ) == updates_from(checks@, r@[k].0),
        forall|k: int, l: int| 0 <= k < l < r@.len() ==> rank(r@[k].0) < rank(r@[l].0),
        forall|s: GlobalSource|
            updates_from(checks@, s).len() > 0 ==> exists|k: int|
                0 <= k < r@.len() && (#[trigger] r@[k]).0 == s,
{
    let mut out: Vec<(GlobalSource, Vec<usize>)> = Vec::new();
    let uv = indices_from(checks, GlobalSource::Uv);
    let pipx = indices_from(checks, GlobalSource::Pipx);
    let pip = indices_from(checks, GlobalSource::PipUser);
    assert(uv@.len() == updates_from(checks@, GlobalSource::Uv).len());
    assert(pipx@.len() == updates_from(checks@, GlobalSource::Pipx).len());
    assert(pip@.len() == updates_from(checks@, GlobalSource::PipUser).len());
    let ghost u = uv.len() > 0;
    let ghost x = pipx.len() > 0;
    if uv.len() > 0 {
        out.push((GlobalSource::Uv, uv));
    }
    assert(u ==> out@[0].0 == GlobalSource::Uv);
    if pipx.len() > 0 {
        out.push((GlobalSource::Pipx, pipx));
    }
    assert(x ==> out@[out@.len() - 1].0 == GlobalSource::Pipx);
    let ghost before_pip = out@;
    if pip.len() > 0 {
        out.push((GlobalSource::PipUser, pip));
    }
    proof {
        assert(out@.len() <= 3);
        assert forall|s: GlobalSource| updates_from(checks@, s).len() > 0 implies exists|k: int|
            0 <= k < out@.len() && (#[trigger] out@[k]).0 == s by {
            match s {
                GlobalSource::Uv => {
                    assert(out@[0].0 == s);
                },
                GlobalSource::Pipx => {
                    assert(before_pip[before_pip.len() - 1].0 == s);
                    assert(out@[before_pip.len() - 1].0 == s);
                },
                GlobalSource::PipUser => {
                    assert(out@[out@.len() - 1].0 == s);
                },
            }
        }
    }
    out
}


/// The Python series a pip --user update belongs to, `unknown` if none.
pub open spec fn pip_key(c: GlobalCheck) -> Seq<char> {
    match c.package.python_version {
        Some(v) => v@,
        None => "unknown"@,
    }
}

pub open spec fn pip_update(c: GlobalCheck) -> bool {
    c.has_update && c.package.source == GlobalSource::PipUser
}

/// The names of the pip --user updates of series `key`, in order.
pub open spec fn pip_names(checks: Seq<GlobalCheck>, key: Seq<char>) -> Seq<Seq<char>>
    decreases checks.len(),
{
    if checks.len() == 0 {
        seq![]
    } else {
        let c = checks.last();
        pip_names(checks.drop_last(), key) + if pip_update(c) && pip_key(c) == key {
            seq![c.package.name@]
        } else {
            seq![]
        }
    }
}

/// Words joined with single spaces.
pub open spec fn space_joined(ws: Seq<Seq<char>>) -> Seq<char>
    decreases ws.len(),
{
    if ws.len() == 0 {
        seq![]
    } else if ws.len() == 1 {
        ws[0]
    } else {
        space_joined(ws.drop_last()) + " "@ + ws.last()
    }
}

/// Where pip --user packages of series `key` live.
pub open spec fn pip_user_dir(home: Option<Seq<char>>, key: Seq<char>) -> Seq<char> {
    match home {
        Some(h) => joined(h, ".local/lib/python"@ + key),
        None => "~/.local/lib/python"@ + key,
    }
}

/// The command for one series: an upgrade where that Python is
/// available, else a note about the leftover directory.
pub open spec fn pip_command(
    checks: Seq<GlobalCheck>,
    key: Seq<char>,
    available: Seq<String>,
    home: Option<Seq<char>>,
) -> CommandModel {
    if holds_name(available, key) {
        CommandModel::Command(
            "python"@ + key + " -m pip install --user --upgrade "@ + space_joined(
                pip_names(checks, key),
            ),
        )
    } else {
        CommandModel::Comment(
            "Python "@ + key + " is no longer installed. Consider removing "@ + pip_user_dir(
                home,
                key,
            ) + " if nothing uses it."@,
        )
    }
}

/// The commands for uv tools and pipx, each when it has an update.
pub open spec fn tool_commands(checks: Seq<GlobalCheck>) -> Seq<CommandModel> {
    (if updates_from(checks, GlobalSource::Uv).len() > 0 {
        seq![CommandModel::Command("uv tool upgrade --all"@)]
    } else {
        seq![]
    }) + (if updates_from(checks, GlobalSource::Pipx).len() > 0 {
        seq![CommandModel::Command("pipx upgrade-all"@)]
    } else {
        seq![]
    })
}

pub open spec fn has_pip_key(checks: Seq<GlobalCheck>, key: Seq<char>) -> bool {
    exists|i: int| 0 <= i < checks.len() && pip_update(#[trigger] checks[i]) && pip_key(checks[i]) == key
}

fn key_of(c: &GlobalCheck) -> (r: String)
    ensures
        r@ == pip_key(*c),
{
    match &c.package.python_version {
        Some(v) => v.clone(),
        None => String::from_str("unknown"),
    }
}

fn names_of_series(checks: &Vec<GlobalCheck>, key: &str) -> (r: String)
    ensures
        r@ == space_joined(pip_names(checks@, key@)),
{
    let mut out = String::new();
    let mut count: usize = 0;
    let mut i: usize = 0;
    assert(checks@.take(0) =~= Seq::<GlobalCheck>::empty());
    while i < checks.len()
        invariant
            i <= checks@.len(),
            out@ == space_joined(pip_names(checks@.take(i as int), key@)),
            count as int == pip_names(checks@.take(i as int), key@).len(),
            count <= i,
        decreases checks@.len() - i,
    {
        let c = &checks[i];
        assert(checks@.take(i + 1).drop_last() =~= checks@.take(i as int));
        assert(checks@.take(i + 1).last() == *c);
        let k = key_of(c);
        if c.has_update && c.package.source == GlobalSource::PipUser && same_text(k.as_str(), key) {
            let ghost before = pip_names(checks@.take(i as int), key@);
            assert(pip_names(checks@.take(i + 1), key@) =~= before.push(c.package.name@));
            assert(before.push(c.package.name@).drop_last() =~= before);
            assert(before.push(c.package.name@).last() == c.package.name@);
            if count > 0 {
                out.append(" ");
                out.append(c.package.name.as_str());
                assert(out@ =~= space_joined(before) + " "@ + c.package.name@);
            } else {
                assert(before.len() == 0);
                assert(out@ =~= Seq::<char>::empty());
                out.append(c.package.name.as_str());
                assert(out@ =~= c.package.name@);
            }
            count = count + 1;
        } else {
            assert(pip_names(checks@.take(i + 1), key@) =~= pip_names(checks@.take(i as int), key@));
        }
        i = i + 1;
    }
    assert(checks@.take(checks@.len() as int) =~= checks@);
    out
}

fn series_command(
    checks: &Vec<GlobalCheck>,
    key: &str,
    available: &Vec<String>,
    home: Option<&str>,
) -> (r: UpgradeCommand)
    ensures
        r@ == pip_command(
            checks@,
            key@,
            available@,
            match home {
                Some(h) => Some(h@),
                None => None,
            },
        ),
{
    let mut found = false;
    let mut i: usize = 0;
    while i < available.len()
        invariant
            i <= available@.len(),
            found == exists|k: int| 0 <= k < i && (#[trigger] available@[k])@ == key@,
        decreases available@.len() - i,
    {
        if same_text(available[i].as_str(), key) {
            found = true;
        }
        i = i + 1;
    }
    if found {
        let mut cmd = String::from_str("python");
        cmd.append(key);
        cmd.append(" -m pip install --user --upgrade ");
        let names = names_of_series(checks, key);
        cmd.append(names.as_str());
        UpgradeCommand::Command(cmd)
    } else {
        let mut rel = String::from_str(".local/lib/python");
        rel.append(key);
        let dir = match home {
            Some(h) => join_path(h, rel.as_str()),
            None => {
                let mut d = String::from_str("~/");
                d.append(rel.as_str());
                d
            },
        };
        proof {
            reveal_strlit("~/");
            reveal_strlit(".local/lib/python");
            reveal_strlit("~/.local/lib/python");
            assert("~/"@ + (".local/lib/python"@ + key@) =~= "~/.local/lib/python"@ + key@);
        }
        let mut note = String::from_str("Python ");
        note.append(key);
        note.append(" is no longer installed. Consider removing ");
        note.append(dir.as_str());
        note.append(" if nothing uses it.");
        UpgradeCommand::Comment(note)
    }
}

/// The upgrade commands for the checks with updates: one for all uv tools,
/// one for all pipx packages, and for each Python series of pip --user
/// packages, ascending, an upgrade command if that Python is among
/// `available_pythons`, else a note on the directory left behind (under
/// `home` when it is known).
pub fn generate_upgrade_commands(
    checks: &Vec<GlobalCheck>,
    available_pythons: &Vec<String>,
    home: Option<&str>,
) -> (r: Vec<UpgradeCommand>)
    ensures
        exists|keys: Seq<String>|
            strictly_sorted(keys) && (forall|k: Seq<char>|
                holds_name(keys, k) <==> has_pip_key(checks@, k)) && command_views(r@)
                == tool_commands(checks@) + keys.map_values(
                |k: String|
                    pip_command(
                        checks@,
                        k@,
                        available_pythons@,
                        match home {
                            Some(h) => Some(h@),
                            None => None,
                        },
                    ),
            ),
{
    let ghost hv = match home {
        Some(h) => Some(h@),
        None => None,
    };
    let mut out: Vec<UpgradeCommand> = Vec::new();
    let uv = indices_from(checks, GlobalSource::Uv);
    let pipx = indices_from(checks, GlobalSource::Pipx);
    assert(uv@.len() == updates_from(checks@, GlobalSource::Uv).len());
    assert(pipx@.len() == updates_from(checks@, GlobalSource::Pipx).len());
    if uv.len() > 0 {
        out.push(UpgradeCommand::Command(String::from_str("uv tool upgrade --all")));
    }
    if pipx.len() > 0 {
        out.push(UpgradeCommand::Command(String::from_str("pipx upgrade-all")));
    }
    assert(command_views(out@) =~= tool_commands(checks@));
    let ghost prefix = command_views(out@);
    let mut keys: Vec<String> = Vec::new();
    let mut i: usize = 0;
    while i < checks.len()
        invariant
            i <= checks@.len(),
            strictly_sorted(keys@),
            forall|k: Seq<char>|
                holds_name(keys@, k) <==> exists|j: int|
                    0 <= j < i && pip_update(#[trigger] checks@[j]) && pip_key(checks@[j]) == k,
        decreases checks@.len() - i,
    {
        let c = &checks[i];
        assert(checks@[i as int] == *c);
        let ghost before = keys@;
        if c.has_update && c.package.source == GlobalSource::PipUser {
            insert_name(&mut keys, key_of(c));
        }
        proof {
            assert forall|k: Seq<char>| holds_name(keys@, k) <==> exists|j: int|
                0 <= j < i + 1 && pip_update(#[trigger] checks@[j]) && pip_key(checks@[j]) == k by {
                if exists|j: int|
                    0 <= j < i && pip_update(#[trigger] checks@[j]) && pip_key(checks@[j]) == k {
                    let j = choose|j: int|
                        0 <= j < i && pip_update(#[trigger] checks@[j]) && pip_key(checks@[j]) == k;
                    assert(0 <= j < i + 1);
                }
                if exists|j: int|
                    0 <= j < i + 1 && pip_update(#[trigger] checks@[j]) && pip_key(checks@[j]) == k {
                    let j = choose|j: int|
                        0 <= j < i + 1 && pip_update(#[trigger] checks@[j]) && pip_key(checks@[j])
                            == k;
                    if j < i {
                        assert(holds_name(before, k));
                    }
                }
            }
        }
        i = i + 1;
    }
    let mut k: usize = 0;
    while k < keys.len()
        invariant
            k <= keys@.len(),
            prefix == tool_commands(checks@),
            hv == match home {
                Some(h) => Some(h@),
                None => None,
            },
            command_views(out@) == prefix + keys@.take(k as int).map_values(
                |x: String| pip_command(checks@, x@, available_pythons@, hv),
            ),
        decreases keys@.len() - k,
    {
        let cmd = series_command(checks, keys[k].as_str(), available_pythons, home);
        let ghost before = command_views(out@);
        out.push(cmd);
        assert(command_views(out@) =~= before.push(cmd@));
        assert(keys@.take(k + 1).map_values(|x: String| pip_command(checks@, x@, available_pythons@, hv))
            =~= keys@.take(k as int).map_values(
            |x: String| pip_command(checks@, x@, available_pythons@, hv),
        ).push(pip_command(checks@, keys@[k as int]@, available_pythons@, hv)));
        k = k + 1;
    }
    assert(keys@.take(keys@.len() as int) =~= keys@);
    assert(forall|x: Seq<char>| holds_name(keys@, x) <==> has_pip_key(checks@, x));
    out
}


/// `v` is the greatest of `vs` in major series `m` (the last of equal
/// ones), or `None` when the series has none.
pub open spec fn latest_in_major(vs: Seq<VersionModel>, m: u64, r: Option<VersionModel>) -> bool {
    match r {
        None => forall|j: int| 0 <= j < vs.len() ==> (#[trigger] vs[j]).major != m,
        Some(v) => exists|i: int|
            0 <= i < vs.len() && vs[i] == v && v.major == m && forall|j: int|
                0 <= j < vs.len() && (#[trigger] vs[j]).major == m ==> !v.lt(vs[j]) && (j > i
                    ==> vs[j].lt(v)),
    }
}

fn latest_of_major(versions: &Vec<Version>, m: u64) -> (r: Option<usize>)
    ensures
        match r {
            Some(i) => i < versions@.len() && latest_in_major(
                models(versions@),
                m,
                Some(versions@[i as int]@),
            ),
            None => latest_in_major(models(versions@), m, None),
        },
{
    let ghost vs = models(versions@);
    let mut best: Option<usize> = None;
    let mut j: usize = 0;
    while j < versions.len()
        invariant
            vs == models(versions@),
            j <= versions@.len(),
            match best {
                Some(b) => b < j && vs[b as int].major == m && forall|k: int|
                    0 <= k < j && (#[trigger] vs[k]).major == m ==> !vs[b as int].lt(vs[k]) && (k
                        > b ==> vs[k].lt(vs[b as int])),
                None => forall|k: int| 0 <= k < j ==> (#[trigger] vs[k]).major != m,
            },
        decreases versions@.len() - j,
    {
        let v = &versions[j];
        assert(vs[j as int] == v@);
        if v.major == m {
            match best {
                None => {
                    proof {
                        crate::version::lemma_order_total(vs[j as int], vs[j as int]);
                    }
                    best = Some(j);
                },
                Some(b) => {
                    if !v.less_than(&versions[b]) {
                        proof {
                            let vb = vs[b as int];
                            let vj = vs[j as int];
                            crate::version::lemma_order_total(vj, vb);
                            assert forall|k: int|
                                0 <= k < j + 1 && (#[trigger] vs[k]).major == m implies !vj.lt(vs[k])
                                    && (k > j ==> vs[k].lt(vj)) by {
                                if k < j {
                                    let vk = vs[k];
                                    if vb.lt(vj) {
                                        if vj.lt(vk) {
                                            crate::version::lemma_order_trans(vb, vj, vk);
                                        }
                                    } else {
                                        crate::version::lemma_eqv_order(vj, vb, vk);
                                    }
                                } else {
                                    crate::version::lemma_order_total(vj, vj);
                                }
                            }
                        }
                        best = Some(j);
                    } else {
                        proof {
                            let vb = vs[b as int];
                            let vj = vs[j as int];
                            assert forall|k: int|
                                0 <= k < j + 1 && (#[trigger] vs[k]).major == m implies !vb.lt(vs[k])
                                    && (k > b ==> vs[k].lt(vb)) by {
                                if k == j {
                                    crate::version::lemma_order_total(vj, vb);
                                }
                            }
                        }
                    }
                },
            }
        }
        j = j + 1;
    }
    best
}

/// Checks a global package against the registry: its target is the latest
/// release, or under `minor` the latest of its installed major series
/// (the latest release when that series has none); an update is due when
/// the target lies above the installed version.
pub fn check_global_package(package: GlobalPackage, info: &PackageInfo, minor: bool) -> (r:
    GlobalCheck)
    ensures
        r.package@ == package@,
        !minor ==> r.latest@ == info.latest@,
        minor ==> exists|t: Option<VersionModel>|
            latest_in_major(models(info.versions@), package.installed_version.major, t)
                && r.latest@ == match t {
                Some(v) => v,
                None => info.latest@,
            },
        r.has_update == package.installed_version@.lt(r.latest@),
{
    let target = if minor {
        match latest_of_major(&info.versions, package.installed_version.major) {
            Some(i) => info.versions[i].duplicate(),
            None => info.latest.duplicate(),
        }
    } else {
        info.latest.duplicate()
    };
    let has_update = package.installed_version.less_than(&target);
    GlobalCheck { package, latest: target, has_update }
}


impl GlobalPackageDiscovery {
    /// Reads `pipx list --json`: one package per virtual environment whose
    /// main package version parses; `None` where the text is no valid JSON.
    pub fn parse_pipx_json(&self, json_str: &str) -> (r: Option<Vec<GlobalPackage>>)
        ensures
            match r {
                Some(v) => forall|k: int|
                    0 <= k < v@.len() ==> (#[trigger] v@[k]).source == GlobalSource::Pipx
                        && v@[k].python_version.is_none(),
                None => true,
            },
    {
        let data = match parse_json(json_str) {
            Some(d) => d,
            None => {
                return None;
            },
        };
        let mut out: Vec<GlobalPackage> = Vec::new();
        let venvs = match json_member(&data, "venvs") {
            Some(v) => match json_members(v) {
                Some(m) => m,
                None => {
                    return Some(out);
                },
            },
            None => {
                return Some(out);
            },
        };
        let mut i: usize = 0;
        while i < venvs.len()
            invariant
                i <= venvs@.len(),
                forall|k: int|
                    0 <= k < out@.len() ==> (#[trigger] out@[k]).source == GlobalSource::Pipx
                        && out@[k].python_version.is_none(),
            decreases venvs@.len() - i,
        {
            let (name, venv) = venvs[i];
            let version = match json_member(venv, "metadata") {
                Some(m) => match json_member(m, "main_package") {
                    Some(p) => match json_member(p, "package_version") {
                        Some(v) => json_text(v),
                        None => None,
                    },
                    None => None,
                },
                None => None,
            };
            match version {
                Some(text) => match Version::parse(text) {
                    Ok(v) => {
                        out.push(
                            GlobalPackage {
                                name: String::from_str(name),
                                installed_version: v,
                                source: GlobalSource::Pipx,
                                python_version: None,
                            },
                        );
                    },
                    Err(_) => {},
                },
                None => {},
            }
            i = i + 1;
        }
        Some(out)
    }
}


/// A name as compared across sources: lower case, `-` as `_`.
pub open spec fn folded(n: Seq<char>) -> Seq<char> {
    replaced(lower_of(n), "-"@, "_"@)
}

fn fold_name(n: &str) -> (r: String)
    ensures
        r@ == folded(n@),
{
    let lowered = to_lower(n);
    replace_all(lowered.as_str(), "-", "_")
}

/// The version of the first `.dist-info` entry, from index `k` on, whose
/// name (compared lower case, `-` as `_`) starts with the package's.
pub open spec fn pipx_version_from(entries: Seq<String>, pkg: Seq<char>, k: int) -> Option<VersionModel>
    decreases entries.len() - k,
{
    if k < 0 || k >= entries.len() {
        None
    } else {
        let e = entries[k]@;
        if has_suffix(e, ".dist-info"@) && has_prefix(
            replaced(lower_of(e.take(e.len() - 10)), "-"@, "_"@),
            replaced(lower_of(pkg), "-"@, "_"@),
        ) && dist_info_entry(e).is_some() {
            Some(dist_info_entry(e).unwrap().1)
        } else {
            pipx_version_from(entries, pkg, k + 1)
        }
    }
}

/// Whether `seen` holds `x`, by view.
fn seen_name(seen: &Vec<String>, x: &str) -> (r: bool)
    ensures
        r == holds_name(seen@, x@),
{
    let mut i: usize = 0;
    while i < seen.len()
        invariant
            i <= seen@.len(),
            forall|k: int| 0 <= k < i ==> (#[trigger] seen@[k])@ != x@,
        decreases seen@.len() - i,
    {
        if same_text(seen[i].as_str(), x) {
            return true;
        }
        i = i + 1;
    }
    false
}

impl GlobalPackageDiscovery {
    /// The pip --user packages of one `site-packages` directory (its entry
    /// names): one per `.dist-info` entry that parses, skipping names
    /// (compared lower case with `-` as `_`) already in `seen`, which
    /// records each name taken.
    pub fn parse_site_packages(
        &self,
        entries: &Vec<String>,
        python_version: &str,
        seen: &mut Vec<String>,
    ) -> (r: Vec<GlobalPackage>)
        ensures
            forall|k: int|
                0 <= k < r@.len() ==> (#[trigger] r@[k]).source == GlobalSource::PipUser
                    && r@[k]@.python_version == Some(python_version@)
                    && !holds_name(old(seen)@, folded(r@[k].name@))
                    && holds_name(final(seen)@, folded(r@[k].name@)),
            forall|k: int, l: int|
                0 <= k < l < r@.len() ==> folded((#[trigger] r@[k]).name@) != folded(
                    (#[trigger] r@[l]).name@,
                ),
            forall|x: Seq<char>| holds_name(old(seen)@, x) ==> holds_name(final(seen)@, x),
    {
        let mut out: Vec<GlobalPackage> = Vec::new();
        let mut i: usize = 0;
        while i < entries.len()
            invariant
                i <= entries@.len(),
                forall|k: int|
                    0 <= k < out@.len() ==> (#[trigger] out@[k]).source == GlobalSource::PipUser
                        && out@[k]@.python_version == Some(python_version@)
                        && !holds_name(old(seen)@, folded(out@[k].name@))
                        && holds_name(seen@, folded(out@[k].name@)),
                forall|k: int, l: int|
                    0 <= k < l < out@.len() ==> folded((#[trigger] out@[k]).name@) != folded(
                        (#[trigger] out@[l]).name@,
                    ),
                forall|x: Seq<char>| holds_name(old(seen)@, x) ==> holds_name(seen@, x),
                forall|x: Seq<char>|
                    holds_name(seen@, x) ==> holds_name(old(seen)@, x) || exists|k: int|
                        0 <= k < out@.len() && folded((#[trigger] out@[k]).name@) == x,
            decreases entries@.len() - i,
        {
            if ends_with(entries[i].as_str(), ".dist-info") {
                match self.parse_dist_info_name(entries[i].as_str()) {
                    Some((name, version)) => {
                        let norm = fold_name(name.as_str());
                        if !seen_name(seen, norm.as_str()) {
                            let ghost seen_before = seen@;
                            let ghost out_before = out@;
                            let ghost nv = norm@;
                            seen.push(norm);
                            out.push(
                                GlobalPackage {
                                    name,
                                    installed_version: version,
                                    source: GlobalSource::PipUser,
                                    python_version: Some(String::from_str(python_version)),
                                },
                            );
                            proof {
                                assert(seen@[seen_before.len() as int]@ == nv);
                                assert(holds_name(seen@, nv));
                                assert forall|x: Seq<char>| holds_name(seen_before, x) implies holds_name(
                                    seen@,
                                    x,
                                ) by {
                                    let m = choose|m: int|
                                        0 <= m < seen_before.len() && (#[trigger] seen_before[m])@ == x;
                                    assert(seen@[m] == seen_before[m]);
                                }
                                assert forall|k: int|
                                    0 <= k < out@.len() implies (#[trigger] out@[k]).source
                                    == GlobalSource::PipUser && out@[k]@.python_version == Some(python_version@) && !holds_name(old(seen)@, folded(out@[k].name@)) && holds_name(
                                    seen@,
                                    folded(out@[k].name@),
                                ) by {
                                    if k < out_before.len() {
                                        assert(out@[k] == out_before[k]);
                                    }
                                }
                                assert forall|k: int, l: int|
                                    0 <= k < l < out@.len() implies folded(
                                    (#[trigger] out@[k]).name@,
                                ) != folded((#[trigger] out@[l]).name@) by {
                                    assert(out@[k] == out_before[k]);
                                    if l < out_before.len() {
                                        assert(out@[l] == out_before[l]);
                                    }
                                }
                                assert forall|x: Seq<char>| holds_name(seen@, x) implies holds_name(
                                    old(seen)@,
                                    x,
                                ) || exists|k: int|
                                    0 <= k < out@.len() && folded((#[trigger] out@[k]).name@) == x by {
                                    let m = choose|m: int| 0 <= m < seen@.len() && (#[trigger] seen@[m])@ == x;
                                    if m < seen_before.len() {
                                        assert(seen_before[m]@ == x);
                                        if !holds_name(old(seen)@, x) {
                                            let k = choose|k: int|
                                                0 <= k < out_before.len() && folded(
                                                    (#[trigger] out_before[k]).name@,
                                                ) == x;
                                            assert(out@[k] == out_before[k]);
                                        }
                                    } else {
                                        assert(folded(out@[out_before.len() as int].name@) == x);
                                    }
                                }
                            }
                        }
                    },
                    None => {},
                }
            }
            i = i + 1;
        }
        out
    }

    /// The version of a pipx package from its environment's
    /// `site-packages` entry names.
    pub fn pipx_package_version(&self, entries: &Vec<String>, package_name: &str) -> (r: Option<
        Version,
    >)
        ensures
            match r {
                Some(v) => pipx_version_from(entries@, package_name@, 0) == Some(v@),
                None => pipx_version_from(entries@, package_name@, 0).is_none(),
            },
    {
        proof {
            reveal_strlit(".dist-info");
        }
        let wanted = fold_name(package_name);
        let mut i: usize = 0;
        while i < entries.len()
            invariant
                i <= entries@.len(),
                wanted@ == folded(package_name@),
                ".dist-info"@.len() == 10,
                pipx_version_from(entries@, package_name@, 0) == pipx_version_from(
                    entries@,
                    package_name@,
                    i as int,
                ),
            decreases entries@.len() - i,
        {
            let e = entries[i].as_str();
            if ends_with(e, ".dist-info") {
                let n = char_len(e);
                let stem = slice(e, 0, n - 10);
                assert(stem@ =~= e@.take(e@.len() - 10));
                let folded_stem = fold_name(stem);
                if starts_with(folded_stem.as_str(), wanted.as_str()) {
                    match self.parse_dist_info_name(e) {
                        Some((_, version)) => {
                            return Some(version);
                        },
                        None => {},
                    }
                }
            }
            i = i + 1;
        }
        None
    }

    /// The pip --user library directories (`python3.X`, `python2.X`), the
    /// newest name first.
    pub fn python_dirs_newest_first(names: &Vec<String>) -> (r: Vec<String>)
        ensures
            forall|k: int, l: int| 0 <= k < l < r@.len() ==> crate::version::tag_lt(
                (#[trigger] r@[l])@,
                (#[trigger] r@[k])@,
            ),
            forall|x: Seq<char>|
                holds_name(r@, x) <==> (holds_name(names@, x) && (has_prefix(x, "python3."@)
                    || has_prefix(x, "python2."@))),
    {
        let mut asc: Vec<String> = Vec::new();
        let mut i: usize = 0;
        while i < names.len()
            invariant
                i <= names@.len(),
                strictly_sorted(asc@),
                forall|x: Seq<char>|
                    holds_name(asc@, x) <==> (exists|j: int|
                        0 <= j < i && (#[trigger] names@[j])@ == x && (has_prefix(x, "python3."@)
                            || has_prefix(x, "python2."@))),
            decreases names@.len() - i,
        {
            let ghost before = asc@;
            if starts_with(names[i].as_str(), "python3.") || starts_with(names[i].as_str(), "python2.") {
                insert_name(&mut asc, names[i].clone());
            }
            proof {
                assert forall|x: Seq<char>|
                    holds_name(asc@, x) <==> (exists|j: int|
                        0 <= j < i + 1 && (#[trigger] names@[j])@ == x && (has_prefix(x, "python3."@)
                            || has_prefix(x, "python2."@))) by {
                    if holds_name(before, x) {
                        let j = choose|j: int|
                            0 <= j < i && (#[trigger] names@[j])@ == x && (has_prefix(x, "python3."@)
                                || has_prefix(x, "python2."@));
                        assert(0 <= j < i + 1);
                    }
                    if exists|j: int|
                        0 <= j < i + 1 && (#[trigger] names@[j])@ == x && (has_prefix(x, "python3."@)
                            || has_prefix(x, "python2."@)) {
                        let j = choose|j: int|
                            0 <= j < i + 1 && (#[trigger] names@[j])@ == x && (has_prefix(x, "python3."@)
                                || has_prefix(x, "python2."@));
                        if j < i {
                            assert(holds_name(before, x));
                        }
                    }
                }
            }
            i = i + 1;
        }
        proof {
            assert forall|x: Seq<char>| holds_name(names@, x) && (has_prefix(x, "python3."@) || has_prefix(x, "python2."@)) implies holds_name(asc@, x) by {
                let j = choose|j: int| 0 <= j < names@.len() && (#[trigger] names@[j])@ == x;
            }
        }
        let mut out: Vec<String> = Vec::new();
        let n = asc.len();
        let mut k: usize = 0;
        while k < n
            invariant
                n == asc@.len(),
                k <= n,
                out@.len() == k,
                strictly_sorted(asc@),
                forall|m: int| 0 <= m < k ==> (#[trigger] out@[m])@ == asc@[n - 1 - m]@,
            decreases n - k,
        {
            out.push(asc[n - 1 - k].clone());
            k = k + 1;
        }
        proof {
            assert forall|k1: int, l1: int| 0 <= k1 < l1 < out@.len() implies crate::version::tag_lt(
                (#[trigger] out@[l1])@,
                (#[trigger] out@[k1])@,
            ) by {
                assert(out@[l1]@ == asc@[n - 1 - l1]@);
                assert(out@[k1]@ == asc@[n - 1 - k1]@);
            }
            assert forall|x: Seq<char>| holds_name(out@, x) <==> holds_name(asc@, x) by {
                if holds_name(out@, x) {
                    let m = choose|m: int| 0 <= m < out@.len() && (#[trigger] out@[m])@ == x;
                    assert(asc@[n - 1 - m]@ == x);
                }
                if holds_name(asc@, x) {
                    let m = choose|m: int| 0 <= m < asc@.len() && (#[trigger] asc@[m])@ == x;
                    assert(out@[n - 1 - m]@ == x);
                }
            }
        }
        out
    }
}

} // verus!
