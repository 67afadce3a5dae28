//! Turning what a registry lists into a [`PackageInfo`]: releases that are
//! withdrawn or unparseable are dropped, the rest sorted, and the
//! pre-release policy applied.

use vstd::prelude::*;
use crate::resolver::models;
use crate::types::PackageInfo;
use crate::version::{Version, VersionModel, version_in};

verus! {

/// A release as a registry lists it: its version text and, for each of
/// its files, whether that file was yanked.
#[derive(Debug, Clone)]
pub struct Release {
    pub version: String,
    pub yanked: Vec<bool>,
}

/// Why no package information could be built.
#[derive(Debug, Clone, Copy, PartialEq, Eq, Structural)]
pub enum RegistryError {
    /// No release is available and parseable.
    NoVersions,
    /// Only pre-releases are available and the policy excludes them.
    NoStableVersions,
}

/// A release counts when it has a file that was not yanked.
pub open spec fn available(yanked: Seq<bool>) -> bool {
    exists|i: int| 0 <= i < yanked.len() && !yanked[i]
}

/// The versions of the available releases that parse, in listed order.
pub open spec fn listed_versions(rs: Seq<Release>) -> Seq<VersionModel>
    decreases rs.len(),
{
    if rs.len() == 0 {
        seq![]
    } else {
        let r = rs.last();
        listed_versions(rs.drop_last()) + if available(r.yanked@) {
            match version_in(r.version@) {
                Some(v) => seq![v],
                None => seq![],
            }
        } else {
            seq![]
        }
    }
}

/// `v` inserted into `s` after every element not above it.
pub open spec fn insert_sorted(s: Seq<VersionModel>, v: VersionModel) -> Seq<VersionModel>
    decreases s.len(),
{
    if s.len() == 0 {
        seq![v]
    } else if v.lt(s.last()) {
        insert_sorted(s.drop_last(), v).push(s.last())
    } else {
        s.push(v)
    }
}

/// `s` sorted ascending; equal versions keep their order.
pub open spec fn sorted_versions(s: Seq<VersionModel>) -> Seq<VersionModel>
    decreases s.len(),
{
    if s.len() == 0 {
        seq![]
    } else {
        insert_sorted(sorted_versions(s.drop_last()), s.last())
    }
}

/// The versions of `s` that are no pre-release, in order.
pub open spec fn stable_only(s: Seq<VersionModel>) -> Seq<VersionModel>
    decreases s.len(),
{
    if s.len() == 0 {
        seq![]
    } else {
        stable_only(s.drop_last()) + if s.last().pre.is_none() {
            seq![s.last()]
        } else {
            seq![]
        }
    }
}

proof fn lemma_insert_at(s: Seq<VersionModel>, v: VersionModel, j: int)
    requires
        0 <= j <= s.len(),
        forall|k: int| j <= k < s.len() ==> v.lt(#[trigger] s[k]),
        j == 0 || !v.lt(s[j - 1]),
    ensures
        insert_sorted(s, v) == s.insert(j, v),
    decreases s.len(),
{
    if s.len() == 0 {
        assert(s.insert(j, v) =~= seq![v]);
    } else if j == s.len() {
        assert(s.insert(j, v) =~= s.push(v));
    } else {
        assert(v.lt(s.last()));
        let t = s.drop_last();
        lemma_insert_at(t, v, j);
        assert(t.insert(j, v).push(s.last()) =~= s.insert(j, v));
    }
}

/// Sorts versions ascending, keeping equal ones in their order.
pub fn sort_versions(vs: Vec<Version>) -> (r: Vec<Version>)
    ensures
        models(r@) == sorted_versions(models(vs@)),
{
    let mut out: Vec<Version> = Vec::new();
    let mut i: usize = 0;
    let n = vs.len();
    let ghost input = models(vs@);
    assert(input.take(0) =~= Seq::<VersionModel>::empty());
    assert(models(out@) =~= Seq::<VersionModel>::empty());
    while i < n
        invariant
            n == vs@.len(),
            input == models(vs@),
            i <= n,
            models(out@) == sorted_versions(input.take(i as int)),
        decreases n - i,
    {
        let v = vs[i].duplicate();
        assert(input[i as int] == v@);
        let mut j: usize = out.len();
        while j > 0 && v.less_than(&out[j - 1])
            invariant
                j <= out@.len(),
                forall|k: int| j <= k < out@.len() ==> v@.lt(#[trigger] models(out@)[k]),
            decreases j,
        {
            j = j - 1;
        }
        let ghost before = models(out@);
        proof {
            if j > 0 {
                assert(before[j - 1] == out@[j - 1]@);
            }
            lemma_insert_at(before, v@, j as int);
        }
        out.insert(j, v);
        assert(models(out@) =~= before.insert(j as int, input[i as int]));
        assert(input.take(i + 1).drop_last() =~= input.take(i as int));
        i = i + 1;
    }
    assert(input.take(n as int) =~= input);
    out
}

fn is_available(yanked: &Vec<bool>) -> (r: bool)
    ensures
        r == available(yanked@),
{
    let mut i: usize = 0;
    while i < yanked.len()
        invariant
            i <= yanked@.len(),
            forall|k: int| 0 <= k < i ==> yanked@[k],
        decreases yanked@.len() - i,
    {
        if !yanked[i] {
            return true;
        }
        i = i + 1;
    }
    false
}

fn stable_versions(vs: &Vec<Version>) -> (r: Vec<Version>)
    ensures
        models(r@) == stable_only(models(vs@)),
{
    let mut out: Vec<Version> = Vec::new();
    let mut i: usize = 0;
    let ghost input = models(vs@);
    assert(input.take(0) =~= Seq::<VersionModel>::empty());
    assert(models(out@) =~= Seq::<VersionModel>::empty());
    while i < vs.len()
        invariant
            input == models(vs@),
            i <= vs@.len(),
            models(out@) == stable_only(input.take(i as int)),
        decreases vs@.len() - i,
    {
        assert(input.take(i + 1).drop_last() =~= input.take(i as int));
        assert(input[i as int] == vs@[i as int]@);
        if !vs[i].is_prerelease() {
            let ghost before = models(out@);
            out.push(vs[i].duplicate());
            assert(models(out@) =~= before.push(input[i as int]));
        }
        i = i + 1;
    }
    assert(input.take(vs@.len() as int) =~= input);
    out
}

/// Builds the package information from the listed releases: the versions
/// of available releases that parse, sorted; pre-releases left out unless
/// `include_prerelease`; the latest of those as `latest`; the latest
/// release that is no pre-release as `latest_stable`.
pub fn package_info_from_releases(
    name: &str,
    releases: &Vec<Release>,
    include_prerelease: bool,
) -> (r: Result<PackageInfo, RegistryError>)
    ensures
        ({
            let all = sorted_versions(listed_versions(releases@));
            let shown = if include_prerelease {
                all
            } else {
                stable_only(all)
            };
            match r {
                Err(e) => if all.len() == 0 {
                    e == RegistryError::NoVersions
                } else {
                    shown.len() == 0 && e == RegistryError::NoStableVersions
                },
                Ok(info) => {
                    &&& shown.len() > 0
                    &&& info.name@ == name@
                    &&& models(info.versions@) == shown
                    &&& info.latest@ == shown.last()
                    &&& match info.latest_stable {
                        Some(s) => stable_only(all).len() > 0 && s@ == stable_only(all).last(),
                        None => stable_only(all).len() == 0,
                    }
                },
            }
        }),
{
    let mut listed: Vec<Version> = Vec::new();
    let mut i: usize = 0;
    assert(releases@.take(0) =~= Seq::<Release>::empty());
    assert(models(listed@) =~= Seq::<VersionModel>::empty());
    while i < releases.len()
        invariant
            i <= releases@.len(),
            models(listed@) == listed_versions(releases@.take(i as int)),
        decreases releases@.len() - i,
    {
        let rel = &releases[i];
        assert(releases@.take(i + 1).drop_last() =~= releases@.take(i as int));
        assert(releases@.take(i + 1).last() == *rel);
        if is_available(&rel.yanked) {
            match Version::parse(rel.version.as_str()) {
                Ok(v) => {
                    let ghost before = models(listed@);
                    listed.push(v);
                    assert(models(listed@) =~= before.push(v@));
                },
                Err(_) => {},
            }
        }
        assert(models(listed@) =~= listed_versions(releases@.take(i + 1)));
        i = i + 1;
    }
    assert(releases@.take(releases@.len() as int) =~= releases@);
    let all = sort_versions(listed);
    if all.len() == 0 {
        return Err(RegistryError::NoVersions);
    }
    let stable = stable_versions(&all);
    let latest_stable = if stable.len() > 0 {
        assert(models(stable@)[stable@.len() - 1] == stable@[stable@.len() - 1]@);
        Some(stable[stable.len() - 1].duplicate())
    } else {
        None
    };
    let shown = if include_prerelease {
        all
    } else {
        stable
    };
    if shown.len() == 0 {
        return Err(RegistryError::NoStableVersions);
    }
    assert(models(shown@)[shown@.len() - 1] == shown@[shown@.len() - 1]@);
    let latest = shown[shown.len() - 1].duplicate();
    Ok(PackageInfo { name: String::from_str(name), versions: shown, latest, latest_stable })
}


/// The versions the keys spell, pre-releases kept only when asked for.
pub open spec fn keyed_versions(keys: Seq<String>, include_prerelease: bool) -> Seq<VersionModel>
    decreases keys.len(),
{
    if keys.len() == 0 {
        seq![]
    } else {
        keyed_versions(keys.drop_last(), include_prerelease) + match version_in(keys.last()@) {
            Some(v) => if include_prerelease || v.pre.is_none() {
                seq![v]
            } else {
                seq![]
            },
            None => seq![],
        }
    }
}

/// Builds npm package information: the versions its keys spell (without
/// pre-releases unless asked for), sorted; `latest` from the `latest`
/// dist-tag when it parses, else the greatest version, else `0.0.0`.
pub fn npm_package_info(
    name: &str,
    keys: &Vec<String>,
    latest_tag: Option<&str>,
    include_prerelease: bool,
) -> (r: PackageInfo)
    ensures
        ({
            let vs = sorted_versions(keyed_versions(keys@, include_prerelease));
            &&& r.name@ == name@
            &&& models(r.versions@) == vs
            &&& match latest_tag {
                Some(t) if version_in(t@).is_some() => r.latest@ == version_in(t@).unwrap(),
                _ => if vs.len() > 0 {
                    r.latest@ == vs.last()
                } else {
                    r.latest.major == 0 && r.latest.minor == 0 && r.latest.patch == 0
                        && r.latest.pre_release.is_none()
                },
            }
            &&& match r.latest_stable {
                Some(s) => stable_only(vs).len() > 0 && s@ == stable_only(vs).last(),
                None => stable_only(vs).len() == 0,
            }
        }),
{
    let mut listed: Vec<Version> = Vec::new();
    let mut i: usize = 0;
    assert(keys@.take(0) =~= Seq::<String>::empty());
    assert(models(listed@) =~= Seq::<VersionModel>::empty());
    while i < keys.len()
        invariant
            i <= keys@.len(),
            models(listed@) == keyed_versions(keys@.take(i as int), include_prerelease),
        decreases keys@.len() - i,
    {
        assert(keys@.take(i + 1).drop_last() =~= keys@.take(i as int));
        assert(keys@.take(i + 1).last() == keys@[i as int]);
        match Version::parse(keys[i].as_str()) {
            Ok(v) => {
                if include_prerelease || !v.is_prerelease() {
                    let ghost before = models(listed@);
                    listed.push(v);
                    assert(models(listed@) =~= before.push(v@));
                }
            },
            Err(_) => {},
        }
        assert(models(listed@) =~= keyed_versions(keys@.take(i + 1), include_prerelease));
        i = i + 1;
    }
    assert(keys@.take(keys@.len() as int) =~= keys@);
    let versions = sort_versions(listed);
    let stable = stable_versions(&versions);
    let latest_stable = if stable.len() > 0 {
        assert(models(stable@)[stable@.len() - 1] == stable@[stable@.len() - 1]@);
        Some(stable[stable.len() - 1].duplicate())
    } else {
        None
    };
    let tagged = match latest_tag {
        Some(t) => match Version::parse(t) {
            Ok(v) => Some(v),
            Err(_) => None,
        },
        None => None,
    };
    let latest = match tagged {
        Some(v) => v,
        None => if versions.len() > 0 {
            assert(models(versions@)[versions@.len() - 1] == versions@[versions@.len() - 1]@);
            versions[versions.len() - 1].duplicate()
        } else {
            Version::new(0, 0, 0)
        },
    };
    PackageInfo { name: String::from_str(name), versions, latest, latest_stable }
}

} // verus!
