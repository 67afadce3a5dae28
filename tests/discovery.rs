use check_updates_core::global::{check_global_package, GlobalPackage, GlobalPackageDiscovery, GlobalSource};
use check_updates_core::python::{latest_python_release, python_version_from_output};
use check_updates_core::types::PackageInfo;
use check_updates_core::uv_python::{UvPythonDiscovery, UvPythonInfo};
use check_updates_core::version::Version;
use std::str::FromStr;

fn v(s: &str) -> Version {
    Version::from_str(s).unwrap()
}

#[test]
fn test_parse_pipx_json() {
    let discovery = GlobalPackageDiscovery::new(false);
    let json = r#"{
        "venvs": {
            "black": {
                "metadata": {
                    "main_package": {
                        "package_version": "24.10.0"
                    }
                }
            },
            "ruff": {
                "metadata": {
                    "main_package": {
                        "package_version": "0.14.9"
                    }
                }
            }
        }
    }"#;
    let packages = discovery.parse_pipx_json(json).unwrap();
    assert_eq!(packages.len(), 2);
    let black = packages.iter().find(|p| p.name == "black").unwrap();
    assert_eq!(black.installed_version.to_string(), "24.10.0");
    assert_eq!(black.source, GlobalSource::Pipx);
    assert!(discovery.parse_pipx_json("{").is_none());
    assert_eq!(discovery.parse_pipx_json("{}").unwrap().len(), 0);
}

fn package(installed: &str) -> GlobalPackage {
    GlobalPackage {
        name: "ruff".to_string(),
        installed_version: v(installed),
        source: GlobalSource::Uv,
        python_version: None,
    }
}

fn info(versions: &[&str]) -> PackageInfo {
    let vs: Vec<Version> = versions.iter().map(|s| v(s)).collect();
    let latest = vs.last().unwrap().clone();
    PackageInfo { name: "ruff".to_string(), versions: vs, latest: latest.clone(), latest_stable: Some(latest) }
}

#[test]
fn global_targets() {
    let i = info(&["0.9.0", "0.14.9", "0.14.10", "1.2.0"]);
    let c = check_global_package(package("0.14.9"), &i, false);
    assert_eq!(c.latest.to_string(), "1.2.0");
    assert!(c.has_update);
    let c = check_global_package(package("0.14.9"), &i, true);
    assert_eq!(c.latest.to_string(), "0.14.10");
    assert!(c.has_update);
    let c = check_global_package(package("5.0.0"), &i, true);
    assert_eq!(c.latest.to_string(), "1.2.0");
    assert!(!c.has_update);
}

#[test]
fn python_versions() {
    assert_eq!(python_version_from_output("Python 3.11.5\n").unwrap().to_string(), "3.11.5");
    assert!(python_version_from_output("pypy 3.9").is_none());
    let cycles = vec![
        ("4.0".to_string(), "4.0.1".to_string()),
        ("3.13".to_string(), "bad".to_string()),
        ("3.12".to_string(), "3.12.12".to_string()),
    ];
    assert_eq!(latest_python_release(&cycles).unwrap().to_string(), "3.12.12");
    let series = UvPythonDiscovery::latest_per_series(&cycles);
    assert_eq!(series.len(), 1);
    assert_eq!(series[0].0, "3.12");
}

fn listed(name: &str, version: &str, installed: bool) -> UvPythonInfo {
    UvPythonInfo {
        full_name: name.to_string(),
        version: v(version),
        path: None,
        is_installed: installed,
        implementation: "cpython".to_string(),
    }
}

#[test]
fn uv_series_checks() {
    let latest = vec![("3.11".to_string(), v("3.11.14")), ("3.12".to_string(), v("3.12.2"))];
    let checks = UvPythonDiscovery::new().build_checks(
        vec![
            listed("cpython-3.11.5", "3.11.5", true),
            listed("cpython-3.11.4", "3.11.4", true),
            listed("cpython-3.12.2", "3.12.2", true),
            listed("cpython-3.13.0", "3.13.0", false),
        ],
        &latest,
    );
    assert_eq!(checks.len(), 2);
    assert_eq!(checks[0].series, "3.11");
    assert_eq!(checks[0].installed_version.to_string(), "3.11.5");
    assert!(checks[0].has_update);
    assert!(checks[0].is_patch_update());
    assert_eq!(checks[1].series, "3.12");
    assert!(!checks[1].has_update);
}

fn names(xs: &[&str]) -> Vec<String> {
    xs.iter().map(|s| s.to_string()).collect()
}

#[test]
fn site_packages_and_pipx_entries() {
    let d = GlobalPackageDiscovery::new(false);
    let dirs = GlobalPackageDiscovery::python_dirs_newest_first(&names(&["python3.11", "other", "python3.9", "python2.7", "python3.12"]));
    assert_eq!(dirs, names(&["python3.9", "python3.12", "python3.11", "python2.7"]));
    let mut seen = Vec::new();
    let first = d.parse_site_packages(
        &names(&["requests-2.31.0.dist-info", "requests", "My-Pkg-1.0.dist-info", "x.txt"]),
        "3.12",
        &mut seen,
    );
    assert_eq!(first.len(), 2);
    assert_eq!(first[0].name, "requests");
    assert_eq!(first[0].python_version.as_deref(), Some("3.12"));
    let second = d.parse_site_packages(&names(&["Requests-2.0.0.dist-info", "my_pkg-0.9.dist-info", "six-1.16.0.dist-info"]), "3.11", &mut seen);
    assert_eq!(second.len(), 1);
    assert_eq!(second[0].name, "six");
    let v = d.pipx_package_version(&names(&["black-24.10.0.dist-info", "black"]), "black").unwrap();
    assert_eq!(v.to_string(), "24.10.0");
    assert!(d.pipx_package_version(&names(&["click-8.1.0.dist-info"]), "black").is_none());
}
