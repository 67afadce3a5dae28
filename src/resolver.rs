//! Resolution of one dependency against what a registry offers.

use vstd::prelude::*;
use crate::cli::Args;
use crate::constraint::{SpecModel, VersionSpec};
use crate::types::{
    opt_version, severity_of, update_severity_between, Dependency, DependencyCheck, PackageInfo,
    UpdateSeverity,
};
use crate::version::{lemma_eqv_order, lemma_order_total, lemma_order_trans, Version, VersionModel};

verus! {

pub open spec fn opt_ref(o: Option<&Version>) -> Option<VersionModel> {
    match o {
        Some(v) => Some(v@),
        None => None,
    }
}

pub open spec fn opt_spec(o: Option<VersionSpec>) -> Option<SpecModel> {
    match o {
        Some(s) => Some(s@),
        None => None,
    }
}

pub open spec fn models(vs: Seq<Version>) -> Seq<VersionModel> {
    vs.map_values(|v: Version| v@)
}

/// For an unbounded constraint (`>=`, `>`), the one major series it is
/// searched in: the higher of its base's and the installed version's.
pub open spec fn unbounded_major(spec: SpecModel, installed: Option<VersionModel>) -> Option<u64> {
    match spec {
        SpecModel::Minimum(b) | SpecModel::GreaterThan(b) => Some(
            match installed {
                Some(i) => if i.major > b.major {
                    i.major
                } else {
                    b.major
                },
                None => b.major,
            },
        ),
        _ => None,
    }
}

/// Whether `v` counts as in range: it meets the constraint, lies in the
/// searched major series of an unbounded constraint, and otherwise does
/// not pass the constraint's highest major.
pub open spec fn in_range_ok(spec: SpecModel, installed: Option<VersionModel>, v: VersionModel) -> bool {
    spec.admits(v) && match unbounded_major(spec, installed) {
        Some(m) => v.major == m,
        None => match spec.max_major() {
            Some(m) => v.major <= m,
            None => true,
        },
    }
}

/// The major series that a pinned version moves within under the minor policy.
pub open spec fn policy_major(spec: SpecModel, installed: Option<VersionModel>) -> Option<u64> {
    match spec.base() {
        Some(b) => Some(
            match unbounded_major(spec, installed) {
                Some(m) => m,
                None => b.major,
            },
        ),
        None => None,
    }
}

/// The filter of a search: in range, or (`same_major`) in the policy's series.
pub open spec fn keeps(
    spec: SpecModel,
    installed: Option<VersionModel>,
    same_major: bool,
    v: VersionModel,
) -> bool {
    if same_major {
        policy_major(spec, installed) == Some(v.major)
    } else {
        in_range_ok(spec, installed, v)
    }
}

/// `r` is the greatest version of `vs` that the filter keeps (the last of
/// equal ones), `None` when it keeps none.
pub open spec fn is_latest(
    vs: Seq<VersionModel>,
    spec: SpecModel,
    installed: Option<VersionModel>,
    same_major: bool,
    r: Option<VersionModel>,
) -> bool {
    match r {
        None => forall|j: int| 0 <= j < vs.len() ==> !keeps(spec, installed, same_major, #[trigger] vs[j]),
        Some(v) => exists|i: int|
            0 <= i < vs.len() && vs[i] == v && keeps(spec, installed, same_major, v) && forall|j: int|
                0 <= j < vs.len() && keeps(spec, installed, same_major, #[trigger] vs[j]) ==> !v.lt(vs[j])
                    && (j > i ==> vs[j].lt(v)),
    }
}

/// The installed version, else the constraint's base version.
pub open spec fn current_of(spec: SpecModel, installed: Option<VersionModel>) -> Option<VersionModel> {
    match installed {
        Some(v) => Some(v),
        None => spec.base(),
    }
}

/// The version to move to: the in-range version if it lies above the
/// current one, else the latest if that does, else none.
pub open spec fn target_of(
    current: VersionModel,
    in_range: Option<VersionModel>,
    latest: VersionModel,
) -> Option<VersionModel> {
    match in_range {
        Some(ir) if current.lt(ir) => Some(ir),
        _ => if current.lt(latest) {
            Some(latest)
        } else {
            None
        },
    }
}

/// The constraint the policy writes: pinned versions move only under the
/// force or minor flag; others move to the in-range version (the latest
/// under force) unless that is their base already or below the installed one.
pub open spec fn policy_update(
    spec: SpecModel,
    installed: Option<VersionModel>,
    in_range: Option<VersionModel>,
    latest: VersionModel,
    same_major_latest: Option<VersionModel>,
    minor: bool,
    force: bool,
) -> Option<SpecModel> {
    match spec {
        SpecModel::Pinned(cv) => if force {
            if !cv.eqv(latest) {
                Some(SpecModel::Pinned(latest))
            } else {
                None
            }
        } else if minor {
            match same_major_latest {
                Some(t) => if !cv.eqv(t) {
                    Some(SpecModel::Pinned(t))
                } else {
                    None
                },
                None => None,
            }
        } else {
            None
        },
        _ => {
            let tv = if force {
                Some(latest)
            } else {
                in_range
            };
            match tv {
                None => None,
                Some(t) => if (match spec.base() {
                    Some(b) => b.eqv(t),
                    None => false,
                }) {
                    None
                } else if (match installed {
                    Some(i) => t.lt(i),
                    None => false,
                }) {
                    None
                } else {
                    Some(spec.retarget(t))
                },
            }
        },
    }
}

/// Versions whose major leaves room for the next major release.
pub open spec fn majors_fit(vs: Seq<VersionModel>, latest: VersionModel) -> bool {
    latest.major < u64::MAX && forall|j: int| 0 <= j < vs.len() ==> (#[trigger] vs[j]).major < u64::MAX
}

/// A dependency whose installed version is the latest, and whose in-range
/// version is that version too, gets no target.
pub proof fn lemma_up_to_date_has_no_target(
    spec: SpecModel,
    installed: VersionModel,
    in_range: VersionModel,
    latest: VersionModel,
)
    requires
        installed.eqv(latest),
        in_range.eqv(latest),
    ensures
        current_of(spec, Some(installed)) == Some(installed),
        target_of(installed, Some(in_range), latest).is_none(),
{
    lemma_order_total(installed, latest);
    lemma_eqv_order(in_range, latest, installed);
    lemma_order_total(installed, in_range);
}

/// A move to a higher major is major, whatever the minor and patch do.
pub proof fn lemma_major_move_is_major(current: VersionModel, target: VersionModel)
    requires
        target.major > current.major,
    ensures
        severity_of(current, target) == Some(UpdateSeverity::Major),
{
}

fn keeps_version(
    spec: &VersionSpec,
    installed: Option<&Version>,
    same_major: bool,
    v: &Version,
) -> (r: bool)
    ensures
        r == keeps(spec@, opt_ref(installed), same_major, v@),
{
    let unbounded: Option<u64> = match spec {
        VersionSpec::Minimum(b) | VersionSpec::GreaterThan(b) => Some(
            match installed {
                Some(i) => if i.major > b.major {
                    i.major
                } else {
                    b.major
                },
                None => b.major,
            },
        ),
        _ => None,
    };
    if same_major {
        match spec.base_version() {
            Some(b) => {
                let m = match unbounded {
                    Some(m) => m,
                    None => b.major,
                };
                v.major == m
            },
            None => false,
        }
    } else {
        if !spec.satisfies(v) {
            return false;
        }
        match unbounded {
            Some(m) => v.major == m,
            None => match spec.max_major() {
                Some(m) => v.major <= m,
                None => true,
            },
        }
    }
}

fn latest_index(
    versions: &Vec<Version>,
    spec: &VersionSpec,
    installed: Option<&Version>,
    same_major: bool,
) -> (r: Option<usize>)
    ensures
        match r {
            Some(i) => i < versions@.len() && is_latest(
                models(versions@),
                spec@,
                opt_ref(installed),
                same_major,
                Some(versions@[i as int]@),
            ),
            None => is_latest(models(versions@), spec@, opt_ref(installed), same_major, None),
        },
{
    let ghost vs = models(versions@);
    let ghost sp = spec@;
    let ghost inst = opt_ref(installed);
    let mut best: Option<usize> = None;
    let mut j: usize = 0;
    while j < versions.len()
        invariant
            vs == models(versions@),
            sp == spec@,
            inst == opt_ref(installed),
            j <= versions@.len(),
            match best {
                Some(b) => b < j && keeps(sp, inst, same_major, vs[b as int]) && forall|k: int|
                    0 <= k < j && keeps(sp, inst, same_major, #[trigger] vs[k]) ==> !vs[b as int].lt(
                        vs[k],
                    ) && (k > b ==> vs[k].lt(vs[b as int])),
                None => forall|k: int| 0 <= k < j ==> !keeps(sp, inst, same_major, #[trigger] vs[k]),
            },
        decreases versions@.len() - j,
    {
        let v = &versions[j];
        assert(vs[j as int] == v@);
        if keeps_version(spec, installed, same_major, v) {
            match best {
                None => {
                    proof {
                        lemma_order_total(vs[j as int], vs[j as int]);
                    }
                    best = Some(j);
                },
                Some(b) => {
                    if !v.less_than(&versions[b]) {
                        proof {
                            let vb = vs[b as int];
                            let vj = vs[j as int];
                            lemma_order_total(vj, vb);
                            assert forall|k: int|
                                0 <= k < j + 1 && keeps(sp, inst, same_major, #[trigger] vs[k])
                                    implies !vj.lt(vs[k]) && (k > j ==> vs[k].lt(vj)) by {
                                if k < j {
                                    let vk = vs[k];
                                    if vb.lt(vj) {
                                        if vj.lt(vk) {
                                            lemma_order_trans(vb, vj, vk);
                                        }
                                    } else {
                                        lemma_eqv_order(vj, vb, vk);
                                    }
                                } else {
                                    lemma_order_total(vj, vj);
                                }
                            }
                        }
                        best = Some(j);
                    } else {
                        proof {
                            let vb = vs[b as int];
                            let vj = vs[j as int];
                            assert forall|k: int|
                                0 <= k < j + 1 && keeps(sp, inst, same_major, #[trigger] vs[k])
                                    implies !vb.lt(vs[k]) && (k > b ==> vs[k].lt(vb)) by {
                                if k == j {
                                    lemma_order_total(vj, vb);
                                }
                            }
                        }
                    }
                },
            }
        }
        j = j + 1;
    }
    best
}

/// Decides updates for dependencies; holds the policy flags and nothing else.
#[derive(Debug, Clone)]
pub struct DependencyResolver {
    pub args: Args,
}

fn pick(versions: &Vec<Version>, i: Option<usize>) -> (r: Option<Version>)
    requires
        i.is_some() ==> i.unwrap() < versions@.len(),
    ensures
        opt_version(r) == match i {
            Some(k) => Some(versions@[k as int]@),
            None => None,
        },
{
    match i {
        Some(k) => Some(versions[k].duplicate()),
        None => None,
    }
}

impl DependencyResolver {
    pub fn new(args: Args) -> (r: DependencyResolver)
        ensures
            r.args.minor == args.minor,
            r.args.force_latest == args.force_latest,
    {
        DependencyResolver { args }
    }

    fn choose_update(
        &self,
        spec: &VersionSpec,
        installed: Option<&Version>,
        in_range: &Option<Version>,
        latest: &Version,
        same_major_latest: &Option<Version>,
    ) -> (r: Option<VersionSpec>)
        requires
            spec@ is Range ==> latest.major < u64::MAX && (in_range.is_some()
                ==> in_range.unwrap().major < u64::MAX),
        ensures
            opt_spec(r) == policy_update(
                spec@,
                opt_ref(installed),
                opt_version(*in_range),
                latest@,
                opt_version(*same_major_latest),
                self.args.minor,
                self.args.force_latest,
            ),
    {
        if let VersionSpec::Pinned(cv) = spec {
            if self.args.force_latest {
                if !cv.equals(latest) {
                    return Some(VersionSpec::Pinned(latest.duplicate()));
                }
                return None;
            } else if self.args.minor {
                if let Some(t) = same_major_latest {
                    if !cv.equals(t) {
                        return Some(VersionSpec::Pinned(t.duplicate()));
                    }
                }
                return None;
            } else {
                return None;
            }
        }
        let target: &Version = if self.args.force_latest {
            latest
        } else {
            match in_range {
                Some(t) => t,
                None => {
                    return None;
                },
            }
        };
        let same_as_base = match spec.base_version() {
            Some(b) => b.equals(target),
            None => false,
        };
        if same_as_base {
            return None;
        }
        if let Some(i) = installed {
            if target.less_than(i) {
                return None;
            }
        }
        Some(spec.with_version(target))
    }

    /// Resolves one dependency: the latest version in range, the version to
    /// move to and its severity, the constraints to write for it and for
    /// the absolute latest, and the constraint the policy picks.
    pub fn resolve(
        &self,
        dependency: &Dependency,
        package_info: &PackageInfo,
        installed: Option<&Version>,
    ) -> (r: DependencyCheck)
        requires
            dependency.version_spec@ is Range ==> majors_fit(
                models(package_info.versions@),
                package_info.latest@,
            ),
        ensures
            r.dependency.name@ == dependency.name@,
            r.dependency.version_spec@ == dependency.version_spec@,
            r.dependency.source_file@ == dependency.source_file@,
            r.dependency.line_number == dependency.line_number,
            r.dependency.original_line@ == dependency.original_line@,
            opt_version(r.installed) == opt_ref(installed),
            r.latest@ == package_info.latest@,
            is_latest(
                models(package_info.versions@),
                dependency.version_spec@,
                opt_ref(installed),
                false,
                opt_version(r.in_range),
            ),
            match current_of(dependency.version_spec@, opt_ref(installed)) {
                None => r.target.is_none() && r.target_spec.is_none() && r.severity.is_none()
                    && r.force_spec.is_none(),
                Some(c) => {
                    &&& opt_version(r.target) == target_of(
                        c,
                        opt_version(r.in_range),
                        package_info.latest@,
                    )
                    &&& opt_spec(r.target_spec) == match opt_version(r.target) {
                        Some(t) => Some(dependency.version_spec@.retarget(t)),
                        None => None,
                    }
                    &&& r.severity == match opt_version(r.target) {
                        Some(t) => severity_of(c, t),
                        None => None,
                    }
                    &&& opt_spec(r.force_spec) == if c.lt(package_info.latest@) {
                        Some(dependency.version_spec@.retarget(package_info.latest@))
                    } else {
                        None
                    }
                },
            },
            exists|same_major_latest: Option<VersionModel>|
                is_latest(
                    models(package_info.versions@),
                    dependency.version_spec@,
                    opt_ref(installed),
                    true,
                    same_major_latest,
                ) && opt_spec(r.update_to) == policy_update(
                    dependency.version_spec@,
                    opt_ref(installed),
                    opt_version(r.in_range),
                    package_info.latest@,
                    same_major_latest,
                    self.args.minor,
                    self.args.force_latest,
                ),
    {
        let spec = &dependency.version_spec;
        let versions = &package_info.versions;
        let latest = &package_info.latest;
        let ghost vs = models(versions@);
        let ir_index = latest_index(versions, spec, installed, false);
        let in_range = pick(versions, ir_index);
        let sm_index = latest_index(versions, spec, installed, true);
        let same_major_latest = pick(versions, sm_index);
        proof {
            if let Some(k) = ir_index {
                assert(vs[k as int] == versions@[k as int]@);
            }
        }
        let current: Option<&Version> = match installed {
            Some(v) => Some(v),
            None => spec.base_version(),
        };
        let mut target: Option<Version> = None;
        let mut target_spec: Option<VersionSpec> = None;
        let mut severity: Option<UpdateSeverity> = None;
        let mut force_spec: Option<VersionSpec> = None;
        if let Some(c) = current {
            let above_in_range = match &in_range {
                Some(ir) => c.less_than(ir),
                None => false,
            };
            if above_in_range {
                target = pick(versions, ir_index);
            } else if c.less_than(latest) {
                target = Some(latest.duplicate());
            }
            if let Some(t) = &target {
                target_spec = Some(spec.with_version(t));
                severity = update_severity_between(c, t);
            }
            if c.less_than(latest) {
                force_spec = Some(spec.with_version(latest));
            }
        }
        let update_to = self.choose_update(spec, installed, &in_range, latest, &same_major_latest);
        proof {
            assert(is_latest(vs, spec@, opt_ref(installed), true, opt_version(same_major_latest)));
        }
        DependencyCheck {
            dependency: dependency.duplicate(),
            installed: match installed {
                Some(v) => Some(v.duplicate()),
                None => None,
            },
            in_range,
            latest: latest.duplicate(),
            target,
            target_spec,
            severity,
            force_spec,
            update_to,
        }
    }
}

} // verus!
