//! The table of outdated dependencies, as lines of text.

use vstd::prelude::*;
use colored::Colorize;
use crate::global::{GlobalCheck, GlobalSource};
use crate::names::{insert_name, is_permutation, sort_indices, sorted_by_keys, strictly_sorted};
use crate::text::{char_len, to_lower};
use crate::uv_python::UvPythonCheck;
use crate::types::{DependencyCheck, UpdateSeverity};
use crate::version::Version;

verus! {

/// Relies on `colored::Colorize::red`: the text as is, or wrapped in the
/// ANSI codes for red when the environment allows colors.
#[verifier::external_body]
fn paint_red(s: &str) -> (r: String)
    requires
        forall|i: int| 0 <= i < s@.len() ==> s@[i] != '\x1b',
    ensures
        r@ == s@ || r@ == "\x1b[31m"@ + s@ + "\x1b[0m"@,
{
    s.red().to_string()
}

/// Relies on `colored::Colorize::yellow`: the text as is, or wrapped in
/// the ANSI codes for yellow when the environment allows colors.
#[verifier::external_body]
fn paint_yellow(s: &str) -> (r: String)
    requires
        forall|i: int| 0 <= i < s@.len() ==> s@[i] != '\x1b',
    ensures
        r@ == s@ || r@ == "\x1b[33m"@ + s@ + "\x1b[0m"@,
{
    s.yellow().to_string()
}

/// Relies on `colored::Colorize::green`: the text as is, or wrapped in
/// the ANSI codes for green when the environment allows colors.
#[verifier::external_body]
fn paint_green(s: &str) -> (r: String)
    requires
        forall|i: int| 0 <= i < s@.len() ==> s@[i] != '\x1b',
    ensures
        r@ == s@ || r@ == "\x1b[32m"@ + s@ + "\x1b[0m"@,
{
    s.green().to_string()
}

/// The label of a severity.
pub open spec fn severity_label(s: Option<UpdateSeverity>) -> Seq<char> {
    match s {
        Some(UpdateSeverity::Major) => "MAJOR"@,
        Some(UpdateSeverity::Minor) => "minor"@,
        Some(UpdateSeverity::Patch) => "patch"@,
        None => seq![],
    }
}

/// The ANSI code that turns on a severity's color.
pub open spec fn severity_color(s: Option<UpdateSeverity>) -> Seq<char> {
    match s {
        Some(UpdateSeverity::Major) => "\x1b[31m"@,
        Some(UpdateSeverity::Minor) => "\x1b[33m"@,
        _ => "\x1b[32m"@,
    }
}

/// A text the severity may be shown as: its label, or with colors on
/// and a severity present, the label in its color.
pub open spec fn severity_shown(show_colors: bool, s: Option<UpdateSeverity>, t: Seq<char>) -> bool {
    t == severity_label(s) || (show_colors && s.is_some() && t == severity_color(s) + severity_label(
        s,
    ) + "\x1b[0m"@)
}

/// `s` padded with spaces on the right to `w` chars.
pub open spec fn pad_right(s: Seq<char>, w: int) -> Seq<char> {
    if s.len() >= w {
        s
    } else {
        s + Seq::new((w - s.len()) as nat, |i: int| ' ')
    }
}

/// `s` padded with spaces on the left to `w` chars.
pub open spec fn pad_left(s: Seq<char>, w: int) -> Seq<char> {
    if s.len() >= w {
        s
    } else {
        Seq::new((w - s.len()) as nat, |i: int| ' ') + s
    }
}

pub open spec fn version_text(v: Option<Version>) -> Seq<char> {
    match v {
        Some(x) => x@.text,
        None => seq![],
    }
}

pub open spec fn current_text(c: DependencyCheck) -> Seq<char> {
    match c.current() {
        Some(v) => v.text,
        None => seq![],
    }
}

/// The checks that have a target, in order.
pub open spec fn shown_checks(cs: Seq<DependencyCheck>) -> Seq<DependencyCheck>
    decreases cs.len(),
{
    if cs.len() == 0 {
        seq![]
    } else {
        shown_checks(cs.drop_last()) + if cs.last().target.is_some() {
            seq![cs.last()]
        } else {
            seq![]
        }
    }
}

pub open spec fn name_of(c: DependencyCheck) -> Seq<char> {
    c.dependency.name@
}

pub open spec fn target_text(c: DependencyCheck) -> Seq<char> {
    version_text(c.target)
}

/// The text of column `col` (name, from, to) of a check.
pub open spec fn column(c: DependencyCheck, col: int) -> Seq<char> {
    if col == 0 {
        name_of(c)
    } else if col == 1 {
        current_text(c)
    } else {
        target_text(c)
    }
}

/// The width of column `col` over `cs`: its longest text.
pub open spec fn widest(cs: Seq<DependencyCheck>, col: int) -> int
    decreases cs.len(),
{
    if cs.len() == 0 {
        0
    } else {
        let w = widest(cs.drop_last(), col);
        let l = column(cs.last(), col).len() as int;
        if l > w {
            l
        } else {
            w
        }
    }
}

/// One row of the table, with `sev` as the severity's text.
pub open spec fn row_text(
    c: DependencyCheck,
    name_w: int,
    from_w: int,
    to_w: int,
    sev: Seq<char>,
) -> Seq<char> {
    "  "@ + pad_right(name_of(c), name_w) + "  "@ + pad_left(current_text(c), from_w) + " → "@
        + pad_right(target_text(c), to_w) + "  "@ + sev + match c.target {
        Some(t) => if t@.lt(c.latest@) {
            "  ("@ + c.latest@.text + " available)"@
        } else {
            seq![]
        },
        None => seq![],
    }
}

fn spaces(n: usize) -> (r: String)
    ensures
        r@ == Seq::new(n as nat, |i: int| ' '),
{
    let mut out = String::new();
    let mut i: usize = 0;
    while i < n
        invariant
            i <= n,
            out@ == Seq::new(i as nat, |k: int| ' '),
        decreases n - i,
    {
        out.append(" ");
        proof {
            reveal_strlit(" ");
        }
        assert(out@ =~= Seq::new((i + 1) as nat, |k: int| ' '));
        i = i + 1;
    }
    out
}

fn push_padded(out: &mut String, s: &str, w: usize, left: bool)
    ensures
        final(out)@ == old(out)@ + if left {
            pad_left(s@, w as int)
        } else {
            pad_right(s@, w as int)
        },
{
    let n = char_len(s);
    if n >= w {
        out.append(s);
    } else if left {
        let pad = spaces(w - n);
        out.append(pad.as_str());
        out.append(s);
    } else {
        out.append(s);
        let pad = spaces(w - n);
        out.append(pad.as_str());
    }
    proof {
        if n < w {
            assert(final(out)@ =~= old(out)@ + if left {
                pad_left(s@, w as int)
            } else {
                pad_right(s@, w as int)
            });
        }
    }
}

/// Renders the dependency checks as a table.
#[derive(Debug, Clone)]
pub struct TableRenderer {
    pub show_colors: bool,
}

fn current_of(c: &DependencyCheck) -> (r: &str)
    ensures
        r@ == current_text(*c),
{
    match c.current_version() {
        Some(v) => v.original.as_str(),
        None => {
            proof {
                reveal_strlit("");
            }
            ""
        },
    }
}

fn target_of(c: &DependencyCheck) -> (r: &str)
    ensures
        r@ == target_text(*c),
{
    match &c.target {
        Some(v) => v.original.as_str(),
        None => {
            proof {
                reveal_strlit("");
            }
            ""
        },
    }
}

impl TableRenderer {
    pub fn new(show_colors: bool) -> (r: TableRenderer)
        ensures
            r.show_colors == show_colors,
    {
        TableRenderer { show_colors }
    }

    /// The severity's label, colored when colors are on and the
    /// environment allows them; empty without a severity.
    pub fn format_severity(&self, severity: Option<UpdateSeverity>) -> (r: String)
        ensures
            severity_shown(self.show_colors, severity, r@),
    {
        proof {
            reveal_strlit("MAJOR");
            reveal_strlit("minor");
            reveal_strlit("patch");
            reveal_strlit("\x1b[0m");
        }
        match severity {
            Some(UpdateSeverity::Major) => {
                if self.show_colors {
                    paint_red("MAJOR")
                } else {
                    String::from_str("MAJOR")
                }
            },
            Some(UpdateSeverity::Minor) => {
                if self.show_colors {
                    paint_yellow("minor")
                } else {
                    String::from_str("minor")
                }
            },
            Some(UpdateSeverity::Patch) => {
                if self.show_colors {
                    paint_green("patch")
                } else {
                    String::from_str("patch")
                }
            },
            None => {
                proof {
                    reveal_strlit("");
                }
                String::new()
            },
        }
    }
}

impl TableRenderer {
    fn row(&self, c: &DependencyCheck, name_w: usize, from_w: usize, to_w: usize) -> (r: String)
        ensures
            exists|sev: Seq<char>|
                severity_shown(self.show_colors, c.severity, sev) && r@ == row_text(
                    *c,
                    name_w as int,
                    from_w as int,
                    to_w as int,
                    sev,
                ),
    {
        let mut out = String::from_str("  ");
        push_padded(&mut out, c.dependency.name.as_str(), name_w, false);
        out.append("  ");
        push_padded(&mut out, current_of(c), from_w, true);
        out.append(" → ");
        push_padded(&mut out, target_of(c), to_w, false);
        out.append("  ");
        let sev = self.format_severity(c.severity);
        out.append(sev.as_str());
        if c.has_newer_available() {
            out.append("  (");
            out.append(c.latest.original.as_str());
            out.append(" available)");
        } else {
            proof {
                reveal_strlit("");
            }
        }
        assert(out@ =~= row_text(*c, name_w as int, from_w as int, to_w as int, sev@));
        out
    }

    /// The table of the checks that have a target: a title, a blank line
    /// and one row each, columns padded to their widest entry; or a single
    /// line saying all is up to date.
    pub fn render(&self, checks: &Vec<DependencyCheck>) -> (r: Vec<String>)
        ensures
            ({
                let sc = shown_checks(checks@);
                if sc.len() == 0 {
                    r@.len() == 1 && r@[0]@ == "All dependencies are up to date!"@
                } else {
                    &&& r@.len() == sc.len() + 2
                    &&& r@[0]@ == "Outdated dependencies:"@
                    &&& r@[1]@ == Seq::<char>::empty()
                    &&& forall|k: int|
                        0 <= k < sc.len() ==> exists|sev: Seq<char>|
                            severity_shown(self.show_colors, (#[trigger] sc[k]).severity, sev)
                                && r@[k + 2]@ == row_text(
                                sc[k],
                                widest(sc, 0),
                                widest(sc, 1),
                                widest(sc, 2),
                                sev,
                            )
                }
            }),
    {
        let ghost sc = shown_checks(checks@);
        let mut nw: usize = 0;
        let mut fw: usize = 0;
        let mut tw: usize = 0;
        let mut count: usize = 0;
        let mut i: usize = 0;
        assert(checks@.take(0) =~= Seq::<DependencyCheck>::empty());
        while i < checks.len()
            invariant
                i <= checks@.len(),
                nw == widest(shown_checks(checks@.take(i as int)), 0),
                fw == widest(shown_checks(checks@.take(i as int)), 1),
                tw == widest(shown_checks(checks@.take(i as int)), 2),
                count == shown_checks(checks@.take(i as int)).len(),
                count <= i,
            decreases checks@.len() - i,
        {
            let c = &checks[i];
            assert(checks@.take(i + 1).drop_last() =~= checks@.take(i as int));
            assert(checks@.take(i + 1).last() == *c);
            if c.target.is_some() {
                let ghost before = shown_checks(checks@.take(i as int));
                assert(shown_checks(checks@.take(i + 1)) =~= before.push(*c));
                assert(before.push(*c).drop_last() =~= before);
                let a = char_len(c.dependency.name.as_str());
                let b = char_len(current_of(c));
                let d = char_len(target_of(c));
                if a > nw {
                    nw = a;
                }
                if b > fw {
                    fw = b;
                }
                if d > tw {
                    tw = d;
                }
                count = count + 1;
            }
            i = i + 1;
        }
        assert(checks@.take(checks@.len() as int) =~= checks@);
        let mut lines: Vec<String> = Vec::new();
        if count == 0 {
            lines.push(String::from_str("All dependencies are up to date!"));
            return lines;
        }
        lines.push(String::from_str("Outdated dependencies:"));
        proof {
            reveal_strlit("");
        }
        lines.push(String::new());
        let mut j: usize = 0;
        let mut shown: usize = 0;
        assert(checks@.take(0) =~= Seq::<DependencyCheck>::empty());
        while j < checks.len()
            invariant
                j <= checks@.len(),
                sc == shown_checks(checks@),
                nw == widest(sc, 0),
                fw == widest(sc, 1),
                tw == widest(sc, 2),
                shown == shown_checks(checks@.take(j as int)).len(),
                lines@.len() == shown + 2,
                lines@[0]@ == "Outdated dependencies:"@,
                lines@[1]@ == Seq::<char>::empty(),
                shown_checks(checks@.take(j as int)) == sc.take(shown as int),
                shown <= sc.len(),
                shown <= j,
                forall|k: int|
                    0 <= k < shown ==> exists|sev: Seq<char>|
                        severity_shown(self.show_colors, (#[trigger] sc[k]).severity, sev)
                            && lines@[k + 2]@ == row_text(sc[k], nw as int, fw as int, tw as int, sev),
            decreases checks@.len() - j,
        {
            let c = &checks[j];
            assert(checks@.take(j + 1).drop_last() =~= checks@.take(j as int));
            assert(checks@.take(j + 1).last() == *c);
            proof {
                lemma_shown_prefix(checks@, j as int + 1);
            }
            if c.target.is_some() {
                let line = self.row(c, nw, fw, tw);
                let ghost before = lines@;
                lines.push(line);
                proof {
                    assert(shown_checks(checks@.take(j + 1)) =~= shown_checks(
                        checks@.take(j as int),
                    ).push(*c));
                    let b = shown_checks(checks@.take(j + 1));
                    assert(b.len() == shown + 1);
                    assert(b[shown as int] == *c);
                    assert(b == sc.take(b.len() as int));
                    assert(sc[shown as int] == b[shown as int]);
                    assert forall|k: int| 0 <= k < shown + 1 implies exists|sev: Seq<char>|
                        severity_shown(self.show_colors, (#[trigger] sc[k]).severity, sev)
                            && lines@[k + 2]@ == row_text(sc[k], nw as int, fw as int, tw as int, sev) by {
                        if k < shown {
                            assert(lines@[k + 2] == before[k + 2]);
                        }
                    }
                }
                shown = shown + 1;
            }
            j = j + 1;
        }
        assert(checks@.take(checks@.len() as int) =~= checks@);
        lines
    }
}

/// The shown checks of a prefix are a prefix of those of the whole.
proof fn lemma_shown_prefix(cs: Seq<DependencyCheck>, n: int)
    requires
        0 <= n <= cs.len(),
    ensures
        shown_checks(cs.take(n)) == shown_checks(cs).take(shown_checks(cs.take(n)).len() as int),
        shown_checks(cs.take(n)).len() <= shown_checks(cs).len(),
    decreases cs.len() - n,
{
    if n == cs.len() {
        assert(cs.take(n) =~= cs);
        assert(shown_checks(cs).take(shown_checks(cs).len() as int) =~= shown_checks(cs));
    } else {
        lemma_shown_prefix(cs, n + 1);
        let a = shown_checks(cs.take(n));
        let b = shown_checks(cs.take(n + 1));
        assert(cs.take(n + 1).drop_last() =~= cs.take(n));
        assert(b == a + if cs[n].target.is_some() {
            seq![cs[n]]
        } else {
            seq![]
        });
        assert(a =~= b.take(a.len() as int));
        assert(a =~= shown_checks(cs).take(a.len() as int));
    }
}


/// A latest-version cell: the version text, or with colors on and an
/// update present, that text in the update's color.
pub open spec fn latest_shown(show_colors: bool, s: Option<UpdateSeverity>, text: Seq<char>, t: Seq<char>) -> bool {
    t == text || (show_colors && s.is_some() && t == severity_color(s) + text + "\x1b[0m"@)
}

fn paint_latest(show_colors: bool, s: Option<UpdateSeverity>, text: &str) -> (r: String)
    requires
        forall|i: int| 0 <= i < text@.len() ==> text@[i] != '\x1b',
    ensures
        latest_shown(show_colors, s, text@, r@),
{
    if !show_colors {
        return String::from_str(text);
    }
    match s {
        Some(UpdateSeverity::Major) => paint_red(text),
        Some(UpdateSeverity::Minor) => paint_yellow(text),
        Some(UpdateSeverity::Patch) => paint_green(text),
        None => String::from_str(text),
    }
}

fn no_escape(s: &str) -> (r: bool)
    ensures
        r == forall|i: int| 0 <= i < s@.len() ==> s@[i] != '\x1b',
{
    let n = char_len(s);
    let mut i: usize = 0;
    while i < n
        invariant
            n == s@.len(),
            i <= n,
            forall|k: int| 0 <= k < i ==> s@[k] != '\x1b',
        decreases n - i,
    {
        if crate::text::char_at(s, i) == '\x1b' {
            return false;
        }
        i = i + 1;
    }
    true
}

/// A row of three cells: the first padded right, the others left.
pub open spec fn three_cells(a: Seq<char>, aw: int, b: Seq<char>, bw: int, c: Seq<char>, cw: int) -> Seq<char> {
    "  "@ + pad_right(a, aw) + "  "@ + pad_left(b, bw) + "  "@ + pad_left(c, cw)
}

fn row_of_cells(a: &str, aw: usize, b: &str, bw: usize, c: &str, cw: usize) -> (r: String)
    ensures
        r@ == three_cells(a@, aw as int, b@, bw as int, c@, cw as int),
{
    let mut out = String::from_str("  ");
    push_padded(&mut out, a, aw, false);
    out.append("  ");
    push_padded(&mut out, b, bw, true);
    out.append("  ");
    push_padded(&mut out, c, cw, true);
    assert(out@ =~= three_cells(a@, aw as int, b@, bw as int, c@, cw as int));
    out
}

fn wider(w: usize, s: &str) -> (r: usize)
    ensures
        r as int == if s@.len() > w {
            s@.len() as int
        } else {
            w as int
        },
{
    let n = char_len(s);
    if n > w {
        n
    } else {
        w
    }
}

/// Renders the versions of uv-managed Pythons that have updates.
#[derive(Debug, Clone)]
pub struct UvPythonTableRenderer {
    pub show_colors: bool,
}

impl UvPythonTableRenderer {
    pub fn new(show_colors: bool) -> (r: UvPythonTableRenderer)
        ensures
            r.show_colors == show_colors,
    {
        UvPythonTableRenderer { show_colors }
    }

    /// The table of the series with updates, sorted by series: a title,
    /// then either a line saying all is up to date, or a column header and
    /// one row per update; nothing for no checks.
    pub fn render(&self, checks: &Vec<UvPythonCheck>) -> (r: Vec<String>)
        ensures
            checks@.len() == 0 ==> r@.len() == 0,
            checks@.len() > 0 ==> r@.len() >= 2 && r@[0]@ == "uv-managed Python installations:"@,
    {
        let mut lines: Vec<String> = Vec::new();
        if checks.len() == 0 {
            return lines;
        }
        lines.push(String::from_str("uv-managed Python installations:"));
        let mut updates: Vec<usize> = Vec::new();
        let mut keys: Vec<String> = Vec::new();
        let mut sw: usize = 6;
        let mut iw: usize = 9;
        let mut lw: usize = 6;
        let mut i: usize = 0;
        while i < checks.len()
            invariant
                i <= checks@.len(),
                updates@.len() == keys@.len(),
                forall|k: int| 0 <= k < updates@.len() ==> (#[trigger] updates@[k]) < checks@.len(),
                lines@.len() == 1,
                lines@[0]@ == "uv-managed Python installations:"@,
            decreases checks@.len() - i,
        {
            let c = &checks[i];
            if c.has_update {
                updates.push(i);
                keys.push(c.series.clone());
                sw = wider(sw, c.series.as_str());
                iw = wider(iw, c.installed_version.original.as_str());
                lw = wider(lw, c.latest_version.original.as_str());
            }
            i = i + 1;
        }
        if updates.len() == 0 {
            lines.push(String::from_str("  All Python versions up to date."));
            return lines;
        }
        lines.push(row_of_cells("Series", sw, "Installed", iw, "Latest", lw));
        let order = sort_indices(&keys);
        let mut k: usize = 0;
        while k < order.len()
            invariant
                is_permutation(order@, keys@.len()),
                updates@.len() == keys@.len(),
                forall|m: int| 0 <= m < updates@.len() ==> (#[trigger] updates@[m]) < checks@.len(),
                k <= order@.len(),
                lines@.len() >= 2,
                lines@[0]@ == "uv-managed Python installations:"@,
            decreases order@.len() - k,
        {
            let c = &checks[updates[order[k]]];
            let latest = c.latest_version.original.as_str();
            let shown = if self.show_colors && no_escape(latest) {
                if c.is_patch_update() {
                    paint_latest(true, Some(UpdateSeverity::Patch), latest)
                } else {
                    paint_latest(true, Some(UpdateSeverity::Minor), latest)
                }
            } else {
                String::from_str(latest)
            };
            lines.push(
                row_of_cells(
                    c.series.as_str(),
                    sw,
                    c.installed_version.original.as_str(),
                    iw,
                    shown.as_str(),
                    lw,
                ),
            );
            k = k + 1;
        }
        lines
    }
}

/// Renders global packages grouped by where they came from.
#[derive(Debug, Clone)]
pub struct GlobalTableRenderer {
    pub show_colors: bool,
}

impl GlobalTableRenderer {
    pub fn new(show_colors: bool) -> (r: GlobalTableRenderer)
        ensures
            r.show_colors == show_colors,
    {
        GlobalTableRenderer { show_colors }
    }

    /// One group: its header, then a line saying all is up to date, or a
    /// column header and a row per update, sorted by lower-cased name.
    fn group(&self, header: &str, checks: &Vec<GlobalCheck>, members: &Vec<usize>, lines: &mut Vec<String>)
        requires
            forall|k: int| 0 <= k < members@.len() ==> (#[trigger] members@[k]) < checks@.len(),
        ensures
            final(lines)@.len() >= old(lines)@.len() + 2,
            final(lines)@.take(old(lines)@.len() as int) == old(lines)@,
            final(lines)@[old(lines)@.len() as int]@ == header@,
    {
        let ghost start = old(lines)@;
        lines.push(String::from_str(header));
        let mut updates: Vec<usize> = Vec::new();
        let mut keys: Vec<String> = Vec::new();
        let mut pw: usize = 7;
        let mut iw: usize = 9;
        let mut lw: usize = 6;
        let mut i: usize = 0;
        while i < members.len()
            invariant
                i <= members@.len(),
                forall|k: int| 0 <= k < members@.len() ==> (#[trigger] members@[k]) < checks@.len(),
                updates@.len() == keys@.len(),
                forall|k: int| 0 <= k < updates@.len() ==> (#[trigger] updates@[k]) < checks@.len(),
                lines@.len() == start.len() + 1,
                lines@.take(start.len() as int) == start,
                lines@[start.len() as int]@ == header@,
            decreases members@.len() - i,
        {
            let c = &checks[members[i]];
            if c.has_update {
                updates.push(members[i]);
                keys.push(to_lower(c.package.name.as_str()));
                pw = wider(pw, c.package.name.as_str());
                iw = wider(iw, c.package.installed_version.original.as_str());
                lw = wider(lw, c.latest.original.as_str());
            }
            i = i + 1;
        }
        if updates.len() == 0 {
            let ghost before = lines@;
            lines.push(String::from_str("  All packages up to date."));
            assert(lines@.take(start.len() as int) =~= before.take(start.len() as int));
            return;
        }
        let ghost before = lines@;
        lines.push(row_of_cells("Package", pw, "Installed", iw, "Latest", lw));
        assert(lines@.take(start.len() as int) =~= before.take(start.len() as int));
        assert(lines@[start.len() as int] == before[start.len() as int]);
        let order = sort_indices(&keys);
        let mut k: usize = 0;
        while k < order.len()
            invariant
                is_permutation(order@, keys@.len()),
                updates@.len() == keys@.len(),
                forall|m: int| 0 <= m < updates@.len() ==> (#[trigger] updates@[m]) < checks@.len(),
                k <= order@.len(),
                lines@.len() >= start.len() + 2,
                lines@.take(start.len() as int) == start,
                lines@[start.len() as int]@ == header@,
            decreases order@.len() - k,
        {
            let c = &checks[updates[order[k]]];
            let latest = c.latest.original.as_str();
            let shown = if no_escape(latest) {
                paint_latest(self.show_colors, c.update_severity(), latest)
            } else {
                String::from_str(latest)
            };
            let ghost before = lines@;
            lines.push(
                row_of_cells(
                    c.package.name.as_str(),
                    pw,
                    c.package.installed_version.original.as_str(),
                    iw,
                    shown.as_str(),
                    lw,
                ),
            );
            assert(lines@.take(start.len() as int) =~= before.take(start.len() as int));
            assert(lines@[start.len() as int] == before[start.len() as int]);
            k = k + 1;
        }
    }

    /// The table of global packages: uv tools, then pipx, then pip --user
    /// per Python series (ascending), groups separated by a blank line,
    /// each listing its updates or saying all is up to date; nothing for no
    /// checks.
    pub fn render(&self, checks: &Vec<GlobalCheck>) -> (r: Vec<String>)
        ensures
            checks@.len() == 0 ==> r@.len() == 0,
            checks@.len() > 0 ==> r@.len() >= 2,
    {
        let mut lines: Vec<String> = Vec::new();
        if checks.len() == 0 {
            return lines;
        }
        let mut uv: Vec<usize> = Vec::new();
        let mut pipx: Vec<usize> = Vec::new();
        let mut series: Vec<String> = Vec::new();
        let mut i: usize = 0;
        while i < checks.len()
            invariant
                i <= checks@.len(),
                forall|k: int| 0 <= k < uv@.len() ==> (#[trigger] uv@[k]) < checks@.len(),
                forall|k: int| 0 <= k < pipx@.len() ==> (#[trigger] pipx@[k]) < checks@.len(),
                strictly_sorted(series@),
                i > 0 ==> (uv@.len() > 0 || pipx@.len() > 0 || series@.len() > 0),
            decreases checks@.len() - i,
        {
            match checks[i].package.source {
                GlobalSource::Uv => {
                    uv.push(i);
                },
                GlobalSource::Pipx => {
                    pipx.push(i);
                },
                GlobalSource::PipUser => {
                    let key = match &checks[i].package.python_version {
                        Some(v) => v.clone(),
                        None => String::from_str("unknown"),
                    };
                    let ghost kv = key@;
                    insert_name(&mut series, key);
                    assert(crate::names::holds_name(series@, kv));
                },
            }
            i = i + 1;
        }
        let mut first = true;
        if uv.len() > 0 {
            first = false;
            self.group("uv tools:", checks, &uv, &mut lines);
        }
        if pipx.len() > 0 {
            if !first {
                lines.push(String::new());
            }
            first = false;
            self.group("pipx:", checks, &pipx, &mut lines);
        }
        let mut s: usize = 0;
        while s < series.len()
            invariant
                s <= series@.len(),
                !first ==> lines@.len() >= 2,
                first ==> lines@.len() == 0,
                s > 0 ==> !first,
                (uv@.len() > 0 || pipx@.len() > 0) ==> !first,
            decreases series@.len() - s,
        {
            let mut members: Vec<usize> = Vec::new();
            let mut j: usize = 0;
            while j < checks.len()
                invariant
                    j <= checks@.len(),
                    s < series@.len(),
                    forall|k: int| 0 <= k < members@.len() ==> (#[trigger] members@[k]) < checks@.len(),
                decreases checks@.len() - j,
            {
                let c = &checks[j];
                let is_pip = match c.package.source {
                    GlobalSource::PipUser => true,
                    _ => false,
                };
                if is_pip {
                    let key_matches = match &c.package.python_version {
                        Some(v) => crate::text::same_text(v.as_str(), series[s].as_str()),
                        None => crate::text::same_text("unknown", series[s].as_str()),
                    };
                    if key_matches {
                        members.push(j);
                    }
                }
                j = j + 1;
            }
            if !first {
                lines.push(String::new());
            }
            first = false;
            let mut header = String::from_str("pip --user (Python ");
            header.append(series[s].as_str());
            header.append("):");
            self.group(header.as_str(), checks, &members, &mut lines);
            s = s + 1;
        }
        lines
    }
}

} // verus!
