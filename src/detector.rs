//! Which Python package manager a project uses, and its files.

use vstd::prelude::*;
use crate::text::{contains_text, find_from, join_path, joined};

verus! {

/// A Python package manager.
#[derive(Debug, Clone, Copy, PartialEq, Eq, Hash, Structural)]
pub enum PackageManager {
    Pip,
    Uv,
    Poetry,
    Pdm,
    Conda,
}

impl PackageManager {
    pub open spec fn name(self) -> Seq<char> {
        match self {
            PackageManager::Pip => "pip"@,
            PackageManager::Uv => "uv"@,
            PackageManager::Poetry => "poetry"@,
            PackageManager::Pdm => "pdm"@,
            PackageManager::Conda => "conda"@,
        }
    }

    /// The manager's command name.
    pub fn to_string(&self) -> (r: String)
        ensures
            r@ == self.name(),
    {
        match self {
            PackageManager::Pip => String::from_str("pip"),
            PackageManager::Uv => String::from_str("uv"),
            PackageManager::Poetry => String::from_str("poetry"),
            PackageManager::Pdm => String::from_str("pdm"),
            PackageManager::Conda => String::from_str("conda"),
        }
    }
}

/// A dependency file and the manager it belongs to.
#[derive(Debug, Clone)]
pub struct DetectedFile {
    pub path: String,
    pub package_manager: PackageManager,
}

pub open spec fn mentions(contents: Seq<char>, p: Seq<char>) -> bool {
    find_from(contents, p, 0, false).is_some()
}

/// The manager of a `pyproject.toml`: a lock file or a tool section names
/// Poetry, then PDM; a `uv.lock` names uv; a PEP 621 project with
/// dependencies defaults to uv; otherwise none.
pub open spec fn pyproject_manager(
    contents: Seq<char>,
    has_uv_lock: bool,
    has_poetry_lock: bool,
    has_pdm_lock: bool,
) -> Option<PackageManager> {
    if has_poetry_lock || mentions(contents, "[tool.poetry]"@) {
        Some(PackageManager::Poetry)
    } else if has_pdm_lock || mentions(contents, "[tool.pdm]"@) {
        Some(PackageManager::Pdm)
    } else if has_uv_lock {
        Some(PackageManager::Uv)
    } else if mentions(contents, "[project]"@) && (mentions(contents, "dependencies"@) || mentions(
        contents,
        "[project.dependencies]"@,
    )) {
        Some(PackageManager::Uv)
    } else {
        None
    }
}

/// Finds the dependency files of a Python project.
#[derive(Debug, Clone)]
pub struct ProjectDetector {
    pub project_path: String,
}

impl ProjectDetector {
    pub fn new(project_path: String) -> (r: ProjectDetector)
        ensures
            r.project_path@ == project_path@,
    {
        ProjectDetector { project_path }
    }

    /// The path of `name` in the project directory.
    pub fn file_path(&self, name: &str) -> (r: String)
        ensures
            r@ == joined(self.project_path@, name@),
    {
        join_path(self.project_path.as_str(), name)
    }

    /// Decides the manager of a `pyproject.toml` from its text and the lock
    /// files present beside it.
    pub fn detect_pyproject_manager(
        contents: &str,
        has_uv_lock: bool,
        has_poetry_lock: bool,
        has_pdm_lock: bool,
    ) -> (r: Option<PackageManager>)
        ensures
            r == pyproject_manager(contents@, has_uv_lock, has_poetry_lock, has_pdm_lock),
    {
        if has_poetry_lock || contains_text(contents, "[tool.poetry]") {
            Some(PackageManager::Poetry)
        } else if has_pdm_lock || contains_text(contents, "[tool.pdm]") {
            Some(PackageManager::Pdm)
        } else if has_uv_lock {
            Some(PackageManager::Uv)
        } else if contains_text(contents, "[project]") && (contains_text(contents, "dependencies")
            || contains_text(contents, "[project.dependencies]")) {
            Some(PackageManager::Uv)
        } else {
            None
        }
    }

    /// The command that brings the environment in line after an update.
    pub fn get_sync_command(&self, pm: &PackageManager) -> (r: &'static str)
        ensures
            r@ == match *pm {
                PackageManager::Pip => "pip install -r requirements.txt"@,
                PackageManager::Uv => "uv lock"@,
                PackageManager::Poetry => "poetry lock"@,
                PackageManager::Pdm => "pdm lock"@,
                PackageManager::Conda => "conda env update"@,
            },
    {
        match pm {
            PackageManager::Pip => "pip install -r requirements.txt",
            PackageManager::Uv => "uv lock",
            PackageManager::Poetry => "poetry lock",
            PackageManager::Pdm => "pdm lock",
            PackageManager::Conda => "conda env update",
        }
    }
}

} // verus!
