//! Python versions installed through uv, and their patch updates.

use vstd::prelude::*;
use crate::text::{
    char_len, contains_text, find_char, find_char_in, find_from, lemma_find_from_bounds, lines,
    lines_of, same_text, slice, trim, trim_of, views, words, words_of,
};
use crate::upgrade::{command_views, CommandModel, UpgradeCommand};
use crate::text::{decimal, push_decimal, starts_with};
use crate::version::{Version, VersionModel, version_in};

verus! {

/// One line of `uv python list`.
#[derive(Debug, Clone)]
pub struct UvPythonInfo {
    /// Full name, such as `cpython-3.11.5-linux-x86_64-gnu`.
    pub full_name: String,
    pub version: Version,
    /// Where it is installed, if it is.
    pub path: Option<String>,
    /// Installed, rather than only offered for download.
    pub is_installed: bool,
    /// `cpython`, `pypy`, ...
    pub implementation: String,
}

pub struct UvPythonModel {
    pub full_name: Seq<char>,
    pub version: VersionModel,
    pub path: Option<Seq<char>>,
    pub is_installed: bool,
    pub implementation: Seq<char>,
}

impl View for UvPythonInfo {
    type V = UvPythonModel;

    open spec fn view(&self) -> UvPythonModel {
        UvPythonModel {
            full_name: self.full_name@,
            version: self.version@,
            path: match self.path {
                Some(p) => Some(p@),
                None => None,
            },
            is_installed: self.is_installed,
            implementation: self.implementation@,
        }
    }
}

/// An installed series and the latest patch release of it.
#[derive(Debug, Clone)]
pub struct UvPythonCheck {
    /// The `major.minor` series, such as `3.11`.
    pub series: String,
    pub installed_version: Version,
    pub latest_version: Version,
    pub has_update: bool,
    pub python_info: UvPythonInfo,
}

impl UvPythonCheck {
    /// Whether the update stays within the installed minor series.
    pub fn is_patch_update(&self) -> (r: bool)
        ensures
            r == (self.has_update && self.latest_version.major == self.installed_version.major
                && self.latest_version.minor == self.installed_version.minor),
    {
        self.has_update && self.latest_version.major == self.installed_version.major
            && self.latest_version.minor == self.installed_version.minor
    }
}

/// The entry that one trimmed line of `uv python list` describes: CPython
/// builds that are not free-threaded and whose version parses.
pub open spec fn uv_python_entry(t: Seq<char>) -> Option<UvPythonModel> {
    let parts = words_of(t);
    if t.len() == 0 || parts.len() == 0 {
        None
    } else {
        let full = parts[0];
        match find_char(full, '-') {
            None => None,
            Some(i) => {
                let implementation = full.take(i);
                let rest = full.skip(i + 1);
                let vtext = match find_char(rest, '-') {
                    Some(j) => rest.take(j),
                    None => rest,
                };
                let installed = find_from(t, "<download available>"@, 0, false).is_none();
                if find_from(full, "+freethreaded"@, 0, false).is_some() || implementation
                    != "cpython"@ {
                    None
                } else {
                    match version_in(vtext) {
                        Some(v) => Some(
                            UvPythonModel {
                                full_name: full,
                                version: v,
                                path: if installed && parts.len() > 1 {
                                    Some(parts[1])
                                } else {
                                    None
                                },
                                is_installed: installed,
                                implementation,
                            },
                        ),
                        None => None,
                    }
                }
            },
        }
    }
}

/// The entries of the listed lines, in order.
pub open spec fn uv_python_entries(ls: Seq<Seq<char>>) -> Seq<UvPythonModel>
    decreases ls.len(),
{
    if ls.len() == 0 {
        seq![]
    } else {
        uv_python_entries(ls.drop_last()) + match uv_python_entry(trim_of(ls.last())) {
            Some(e) => seq![e],
            None => seq![],
        }
    }
}

pub open spec fn uv_python_views(v: Seq<UvPythonInfo>) -> Seq<UvPythonModel> {
    v.map_values(|x: UvPythonInfo| x@)
}

/// Finds uv-managed Python installations.
#[derive(Debug, Clone)]
pub struct UvPythonDiscovery {}

impl UvPythonDiscovery {
    pub fn new() -> (r: UvPythonDiscovery) {
        UvPythonDiscovery {  }
    }

    fn parse_line(t: &str) -> (r: Option<UvPythonInfo>)
        ensures
            match r {
                Some(x) => uv_python_entry(t@) == Some(x@),
                None => uv_python_entry(t@).is_none(),
            },
    {
        let parts = words(t);
        if char_len(t) == 0 || parts.len() == 0 {
            return None;
        }
        let full = parts[0];
        assert(views(parts@)[0] == full@);
        let n = char_len(full);
        let i = match find_char_in(full, '-') {
            Some(i) => i,
            None => {
                return None;
            },
        };
        proof {
            lemma_find_from_bounds(full@, seq!['-'], 0, false);
        }
        let implementation = slice(full, 0, i);
        let rest = slice(full, i + 1, n);
        assert(implementation@ =~= full@.take(i as int));
        assert(rest@ =~= full@.skip(i + 1));
        let vtext = match find_char_in(rest, '-') {
            Some(j) => {
                proof {
                    lemma_find_from_bounds(rest@, seq!['-'], 0, false);
                }
                let x = slice(rest, 0, j);
                assert(x@ =~= rest@.take(j as int));
                x
            },
            None => rest,
        };
        let installed = !contains_text(t, "<download available>");
        if contains_text(full, "+freethreaded") || !same_text(implementation, "cpython") {
            return None;
        }
        match Version::parse(vtext) {
            Ok(v) => {
                let path = if installed && parts.len() > 1 {
                    assert(views(parts@)[1] == parts@[1]@);
                    Some(String::from_str(parts[1]))
                } else {
                    None
                };
                Some(
                    UvPythonInfo {
                        full_name: String::from_str(full),
                        version: v,
                        path,
                        is_installed: installed,
                        implementation: String::from_str(implementation),
                    },
                )
            },
            Err(_) => None,
        }
    }

    /// Reads `uv python list` output: one entry per CPython line that is
    /// not free-threaded and whose version parses, installed or not.
    pub fn parse_uv_python_list(&self, output: &str) -> (r: Vec<UvPythonInfo>)
        ensures
            uv_python_views(r@) == uv_python_entries(lines_of(output@)),
    {
        let ls = lines(output);
        let ghost lv = lines_of(output@);
        let mut out: Vec<UvPythonInfo> = Vec::new();
        let mut i: usize = 0;
        assert(lv.take(0) =~= Seq::<Seq<char>>::empty());
        assert(uv_python_views(out@) =~= Seq::<UvPythonModel>::empty());
        while i < ls.len()
            invariant
                views(ls@) == lv,
                i <= ls@.len(),
                uv_python_views(out@) == uv_python_entries(lv.take(i as int)),
            decreases ls@.len() - i,
        {
            let line = ls[i];
            assert(lv[i as int] == line@);
            assert(lv.take(i + 1).drop_last() =~= lv.take(i as int));
            let t = trim(line);
            match UvPythonDiscovery::parse_line(t) {
                Some(x) => {
                    out.push(x);
                    assert(uv_python_views(out@) =~= uv_python_views(out@).drop_last().push(x@));
                    assert(uv_python_views(out@).drop_last() =~= uv_python_views(
                        out@.drop_last(),
                    ));
                },
                None => {},
            }
            assert(uv_python_views(out@) =~= uv_python_entries(lv.take(i + 1)));
            i = i + 1;
        }
        assert(lv.take(ls@.len() as int) =~= lv);
        out
    }
}

/// The `major.minor` series of a version.
pub open spec fn series_of(v: VersionModel) -> Seq<char> {
    decimal(v.major as nat) + "."@ + decimal(v.minor as nat)
}

fn series_text(v: &Version) -> (r: String)
    ensures
        r@ == series_of(v@),
{
    let mut s = String::new();
    push_decimal(&mut s, v.major);
    s.append(".");
    push_decimal(&mut s, v.minor);
    s
}

fn find_series<'a>(latest: &'a Vec<(String, Version)>, series: &str) -> (r: Option<&'a Version>)
    ensures
        match r {
            Some(v) => exists|k: int| 0 <= k < latest@.len() && (#[trigger] latest@[k]).0@ == series@ && latest@[k].1 == *v,
            None => forall|k: int| 0 <= k < latest@.len() ==> (#[trigger] latest@[k]).0@ != series@,
        },
{
    let mut k: usize = 0;
    while k < latest.len()
        invariant
            k <= latest@.len(),
            forall|j: int| 0 <= j < k ==> (#[trigger] latest@[j]).0@ != series@,
        decreases latest@.len() - k,
    {
        if same_text(latest[k].0.as_str(), series) {
            return Some(&latest[k].1);
        }
        k = k + 1;
    }
    None
}

/// The Python 3 series of the release lines with the latest version of
/// each, where it parses, in order.
pub open spec fn series_latest(cycles: Seq<(String, String)>) -> Seq<(Seq<char>, VersionModel)>
    decreases cycles.len(),
{
    if cycles.len() == 0 {
        seq![]
    } else {
        let c = cycles.last();
        series_latest(cycles.drop_last()) + if crate::text::has_prefix(c.0@, "3."@) {
            match version_in(c.1@) {
                Some(v) => seq![(c.0@, v)],
                None => seq![],
            }
        } else {
            seq![]
        }
    }
}

pub open spec fn pair_views(v: Seq<(String, Version)>) -> Seq<(Seq<char>, VersionModel)> {
    v.map_values(|p: (String, Version)| (p.0@, p.1@))
}

pub open spec fn check_ok(c: UvPythonCheck) -> bool {
    &&& c.series@ == series_of(c.installed_version@)
    &&& c.python_info.is_installed
    &&& c.python_info.version@ == c.installed_version@
    &&& c.has_update == c.installed_version@.lt(c.latest_version@)
}

impl UvPythonDiscovery {
    /// The latest version of each Python 3 series, from the release lines
    /// (series name and latest version).
    pub fn latest_per_series(cycles: &Vec<(String, String)>) -> (r: Vec<(String, Version)>)
        ensures
            pair_views(r@) == series_latest(cycles@),
    {
        let mut out: Vec<(String, Version)> = Vec::new();
        let mut i: usize = 0;
        assert(cycles@.take(0) =~= Seq::<(String, String)>::empty());
        assert(pair_views(out@) =~= Seq::<(Seq<char>, VersionModel)>::empty());
        while i < cycles.len()
            invariant
                i <= cycles@.len(),
                pair_views(out@) == series_latest(cycles@.take(i as int)),
            decreases cycles@.len() - i,
        {
            assert(cycles@.take(i + 1).drop_last() =~= cycles@.take(i as int));
            assert(cycles@.take(i + 1).last() == cycles@[i as int]);
            if starts_with(cycles[i].0.as_str(), "3.") {
                match Version::parse(cycles[i].1.as_str()) {
                    Ok(v) => {
                        let ghost before = pair_views(out@);
                        let name = cycles[i].0.clone();
                        let ghost entry = (name@, v@);
                        out.push((name, v));
                        assert(pair_views(out@) =~= before.push(entry));
                    },
                    Err(_) => {},
                }
            }
            assert(pair_views(out@) =~= series_latest(cycles@.take(i + 1)));
            i = i + 1;
        }
        assert(cycles@.take(cycles@.len() as int) =~= cycles@);
        out
    }

    /// One check per series of the installed versions (the first listed
    /// of each series), against that series' latest version where it is
    /// known.
    pub fn build_checks(&self, listed: Vec<UvPythonInfo>, latest: &Vec<(String, Version)>) -> (r:
        Vec<UvPythonCheck>)
        ensures
            forall|k: int| 0 <= k < r@.len() ==> check_ok(#[trigger] r@[k]),
            forall|k: int, l: int|
                0 <= k < l < r@.len() ==> (#[trigger] r@[k]).series@ != (#[trigger] r@[l]).series@,
    {
        let mut out: Vec<UvPythonCheck> = Vec::new();
        let mut i: usize = 0;
        while i < listed.len()
            invariant
                i <= listed@.len(),
                forall|k: int| 0 <= k < out@.len() ==> check_ok(#[trigger] out@[k]),
                forall|k: int, l: int|
                    0 <= k < l < out@.len() ==> (#[trigger] out@[k]).series@ != (#[trigger] out@[l]).series@,
            decreases listed@.len() - i,
        {
            let python = &listed[i];
            if python.is_installed {
                let series = series_text(&python.version);
                let mut known = false;
                let mut j: usize = 0;
                while j < out.len()
                    invariant
                        j <= out@.len(),
                        !known ==> forall|m: int| 0 <= m < j ==> (#[trigger] out@[m]).series@ != series@,
                    decreases out@.len() - j,
                {
                    if same_text(out[j].series.as_str(), series.as_str()) {
                        known = true;
                    }
                    j = j + 1;
                }
                if !known {
                    match find_series(latest, series.as_str()) {
                        Some(l) => {
                            let has_update = python.version.less_than(l);
                            let info = UvPythonInfo {
                                full_name: python.full_name.clone(),
                                version: python.version.duplicate(),
                                path: match &python.path {
                                    Some(p) => Some(p.clone()),
                                    None => None,
                                },
                                is_installed: python.is_installed,
                                implementation: python.implementation.clone(),
                            };
                            let ghost out_before = out@;
                            out.push(
                                UvPythonCheck {
                                    series,
                                    installed_version: python.version.duplicate(),
                                    latest_version: l.duplicate(),
                                    has_update,
                                    python_info: info,
                                },
                            );
                            assert forall|k: int, l2: int|
                                0 <= k < l2 < out@.len() implies (#[trigger] out@[k]).series@
                                != (#[trigger] out@[l2]).series@ by {
                                assert(out@[k] == out_before[k]);
                                if l2 < out_before.len() {
                                    assert(out@[l2] == out_before[l2]);
                                }
                            }
                            assert forall|k: int| 0 <= k < out@.len() implies check_ok(
                                #[trigger] out@[k],
                            ) by {
                                if k < out_before.len() {
                                    assert(out@[k] == out_before[k]);
                                }
                            }
                        },
                        None => {},
                    }
                }
            }
            i = i + 1;
        }
        out
    }
}

/// `uv python install <latest>` for each check with an update, in order.
pub open spec fn uv_upgrade_commands(checks: Seq<UvPythonCheck>) -> Seq<CommandModel>
    decreases checks.len(),
{
    if checks.len() == 0 {
        seq![]
    } else {
        let c = checks.last();
        uv_upgrade_commands(checks.drop_last()) + if c.has_update {
            seq![CommandModel::Command("uv python install "@ + c.latest_version@.text)]
        } else {
            seq![]
        }
    }
}

/// The install commands for the outdated series.
pub fn generate_uv_python_upgrade_commands(checks: &Vec<UvPythonCheck>) -> (r: Vec<UpgradeCommand>)
    ensures
        command_views(r@) == uv_upgrade_commands(checks@),
{
    let mut out: Vec<UpgradeCommand> = Vec::new();
    let mut i: usize = 0;
    assert(checks@.take(0) =~= Seq::<UvPythonCheck>::empty());
    assert(command_views(out@) =~= Seq::<CommandModel>::empty());
    while i < checks.len()
        invariant
            i <= checks@.len(),
            command_views(out@) == uv_upgrade_commands(checks@.take(i as int)),
        decreases checks@.len() - i,
    {
        let c = &checks[i];
        assert(checks@.take(i + 1).drop_last() =~= checks@.take(i as int));
        if c.has_update {
            let mut cmd = String::from_str("uv python install ");
            cmd.append(c.latest_version.original.as_str());
            let ghost before = command_views(out@);
            out.push(UpgradeCommand::Command(cmd));
            assert(command_views(out@) =~= before.push(CommandModel::Command(cmd@)));
        }
        assert(command_views(out@) =~= uv_upgrade_commands(checks@.take(i + 1)));
        i = i + 1;
    }
    assert(checks@.take(checks@.len() as int) =~= checks@);
    out
}

} // verus!
