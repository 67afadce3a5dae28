//! The records the engine reads and writes.

use vstd::prelude::*;
use crate::constraint::VersionSpec;
use crate::version::{Version, VersionModel};

verus! {

/// A dependency as a manifest declares it.
#[derive(Debug, Clone)]
pub struct Dependency {
    /// Registry name.
    pub name: String,
    /// The declared constraint.
    pub version_spec: VersionSpec,
    /// File the dependency was found in.
    pub source_file: String,
    /// Line in that file, from 1.
    pub line_number: usize,
    /// The line as written.
    pub original_line: String,
}

impl Dependency {
    /// A copy with the same values.
    pub fn duplicate(&self) -> (r: Dependency)
        ensures
            r.name@ == self.name@,
            r.version_spec@ == self.version_spec@,
            r.source_file@ == self.source_file@,
            r.line_number == self.line_number,
            r.original_line@ == self.original_line@,
    {
        Dependency {
            name: self.name.clone(),
            version_spec: self.version_spec.duplicate(),
            source_file: self.source_file.clone(),
            line_number: self.line_number,
            original_line: self.original_line.clone(),
        }
    }
}

/// What a registry knows of a package.
#[derive(Debug, Clone)]
pub struct PackageInfo {
    pub name: String,
    /// Every known version, ascending, without duplicates.
    pub versions: Vec<Version>,
    /// The absolute latest version.
    pub latest: Version,
    /// The latest version that is no pre-release.
    pub latest_stable: Option<Version>,
}

/// What fetching several packages from a registry gave: the packages
/// found and a message for each that was not.
#[derive(Debug, Clone)]
pub struct GetPackagesResult {
    pub packages: Vec<PackageInfo>,
    pub errors: Vec<String>,
}

/// How far an update moves.
#[derive(Debug, Clone, Copy, PartialEq, Eq, Structural)]
pub enum UpdateSeverity {
    Major,
    Minor,
    Patch,
}

/// The first component that grows from `current` to `target`.
pub open spec fn severity_of(current: VersionModel, target: VersionModel) -> Option<
    UpdateSeverity,
> {
    if target.major > current.major {
        Some(UpdateSeverity::Major)
    } else if target.minor > current.minor {
        Some(UpdateSeverity::Minor)
    } else if target.patch > current.patch {
        Some(UpdateSeverity::Patch)
    } else {
        None
    }
}

/// Classifies the move from `current` to `target`: major, else minor,
/// else patch, by the first component that grows.
pub fn update_severity_between(current: &Version, target: &Version) -> (r: Option<UpdateSeverity>)
    ensures
        r == severity_of(current@, target@),
{
    if target.major > current.major {
        Some(UpdateSeverity::Major)
    } else if target.minor > current.minor {
        Some(UpdateSeverity::Minor)
    } else if target.patch > current.patch {
        Some(UpdateSeverity::Patch)
    } else {
        None
    }
}

pub open spec fn opt_version(o: Option<Version>) -> Option<VersionModel> {
    match o {
        Some(v) => Some(v@),
        None => None,
    }
}

/// The outcome of checking one dependency.
#[derive(Debug, Clone)]
pub struct DependencyCheck {
    /// The dependency checked.
    pub dependency: Dependency,
    /// The installed version, from a lock file.
    pub installed: Option<Version>,
    /// The latest version within the constraint.
    pub in_range: Option<Version>,
    /// The absolute latest version.
    pub latest: Version,
    /// The version to move to; `None` when up to date or unresolvable.
    pub target: Option<Version>,
    /// The constraint to write for `target`.
    pub target_spec: Option<VersionSpec>,
    /// How far `target` moves from the current version.
    pub severity: Option<UpdateSeverity>,
    /// The constraint to write to move to `latest` whatever the constraint says.
    pub force_spec: Option<VersionSpec>,
    /// The constraint chosen under the resolver's policy (see `Args`).
    pub update_to: Option<VersionSpec>,
}

impl DependencyCheck {
    /// The installed version, else the constraint's base version.
    pub open spec fn current(&self) -> Option<VersionModel> {
        match self.installed {
            Some(v) => Some(v@),
            None => self.dependency.version_spec@.base(),
        }
    }

    /// Whether there is a version to move to.
    pub fn has_update(&self) -> (r: bool)
        ensures
            r == self.target.is_some(),
    {
        self.target.is_some()
    }

    /// Whether the latest version lies beyond the target.
    pub fn has_newer_available(&self) -> (r: bool)
        ensures
            r == match self.target {
                Some(t) => t@.lt(self.latest@),
                None => false,
            },
    {
        match &self.target {
            Some(t) => t.less_than(&self.latest),
            None => false,
        }
    }

    /// The installed version, else the constraint's base version.
    pub fn current_version(&self) -> (r: Option<&Version>)
        ensures
            match r {
                Some(v) => self.current() == Some(v@),
                None => self.current().is_none(),
            },
    {
        match &self.installed {
            Some(v) => Some(v),
            None => self.dependency.version_spec.base_version(),
        }
    }

    /// How far the policy's update (`update_to`) moves from the current
    /// version; `None` without such an update or a current version.
    pub fn update_severity(&self) -> (r: Option<UpdateSeverity>)
        ensures
            r == match (self.current(), self.update_to) {
                (Some(c), Some(u)) => match u@.base() {
                    Some(t) => severity_of(c, t),
                    None => None,
                },
                _ => None,
            },
    {
        let current = match self.current_version() {
            Some(c) => c,
            None => {
                return None;
            },
        };
        match &self.update_to {
            Some(u) => match u.base_version() {
                Some(t) => update_severity_between(current, t),
                None => None,
            },
            None => None,
        }
    }
}

} // verus!
