use check_updates_core::cli::Args;
use check_updates_core::constraint::VersionSpec;
use check_updates_core::detector::PackageManager;
use check_updates_core::registry::{
    npm_package_info, package_info_from_releases, Release, RegistryError,
};
use check_updates_core::resolver::DependencyResolver;
use check_updates_core::types::{Dependency, DependencyCheck, PackageInfo};
use check_updates_core::updater::{FileUpdater, LineUpdate};
use check_updates_core::version::Version;
use std::str::FromStr;

fn release(v: &str, yanked: Vec<bool>) -> Release {
    Release { version: v.to_string(), yanked }
}

#[test]
fn releases_are_filtered_sorted_and_split() {
    let rs = vec![
        release("2.0.0rc1", vec![false]),
        release("1.10.0", vec![false, true]),
        release("1.2.0", vec![false]),
        release("1.9.0", vec![true]),
        release("garbage", vec![false]),
        release("1.5.0", vec![]),
    ];
    let info = package_info_from_releases("pkg", &rs, false).unwrap();
    let vs: Vec<String> = info.versions.iter().map(|v| v.to_string()).collect();
    assert_eq!(vs, vec!["1.2.0", "1.10.0"]);
    assert_eq!(info.latest.to_string(), "1.10.0");
    assert_eq!(info.latest_stable.unwrap().to_string(), "1.10.0");
    assert_eq!(info.name, "pkg");

    let info = package_info_from_releases("pkg", &rs, true).unwrap();
    let vs: Vec<String> = info.versions.iter().map(|v| v.to_string()).collect();
    assert_eq!(vs, vec!["1.2.0", "1.10.0", "2.0.0rc1"]);
    assert_eq!(info.latest.to_string(), "2.0.0rc1");
    assert_eq!(info.latest_stable.unwrap().to_string(), "1.10.0");
}

#[test]
fn registry_errors() {
    let none = vec![release("1.0.0", vec![true])];
    assert_eq!(package_info_from_releases("p", &none, false).unwrap_err(), RegistryError::NoVersions);
    let pre = vec![release("1.0.0a1", vec![false])];
    assert_eq!(
        package_info_from_releases("p", &pre, false).unwrap_err(),
        RegistryError::NoStableVersions
    );
    assert!(package_info_from_releases("p", &pre, true).is_ok());
}

#[test]
fn npm_info_uses_dist_tag() {
    let keys: Vec<String> = ["4.18.2", "5.0.0-beta.1", "4.17.1", "x"].iter().map(|s| s.to_string()).collect();
    let info = npm_package_info("express", &keys, Some("4.18.2"), false);
    let vs: Vec<String> = info.versions.iter().map(|v| v.to_string()).collect();
    assert_eq!(vs, vec!["4.17.1", "4.18.2"]);
    assert_eq!(info.latest.to_string(), "4.18.2");
    let info = npm_package_info("express", &keys, None, true);
    assert_eq!(info.versions.len(), 3);
    assert_eq!(info.latest.to_string(), "5.0.0-beta.1");
    assert_eq!(info.latest_stable.unwrap().to_string(), "4.18.2");
    let info = npm_package_info("empty", &vec![], Some("nope"), false);
    assert_eq!(info.latest.to_string(), "0.0.0");
    assert!(info.latest_stable.is_none());
}

fn check(name: &str, spec: &str, file: &str, line: usize, versions: &[&str], installed: Option<&str>) -> DependencyCheck {
    let dep = Dependency {
        name: name.to_string(),
        version_spec: VersionSpec::parse(spec).unwrap(),
        source_file: file.to_string(),
        line_number: line,
        original_line: String::new(),
    };
    let vs: Vec<Version> = versions.iter().map(|v| Version::from_str(v).unwrap()).collect();
    let latest = vs.last().unwrap().clone();
    let info = PackageInfo { name: name.to_string(), versions: vs, latest: latest.clone(), latest_stable: Some(latest) };
    let inst = installed.map(|v| Version::from_str(v).unwrap());
    let resolver = DependencyResolver::new(Args {
        path: None,
        update: true,
        minor: false,
        force_latest: false,
        pre_release: false,
    });
    resolver.resolve(&dep, &info, inst.as_ref())
}

#[test]
fn updates_respect_severity_filter() {
    let serde_patch = check("serde", "==1.0.0", "requirements.txt", 1, &["1.0.0", "1.0.200"], None);
    let tokio_minor = check("tokio", "==1.0.0", "requirements.txt", 2, &["1.0.0", "1.5.0"], None);
    let content = "serde==1.0.0\ntokio==1.0.0\n";
    let files = vec![("requirements.txt".to_string(), content.to_string())];
    let updater = FileUpdater::new();
    let checks = vec![serde_patch.clone(), tokio_minor.clone()];

    let (written, result) = updater.apply_updates(&checks, false, false, &files);
    assert_eq!(written.len(), 1);
    assert_eq!(written[0].1, "serde==1.0.200\ntokio==1.0.0\n");
    assert_eq!(result.modified_files, vec!["requirements.txt".to_string()]);
    assert_eq!(result.package_managers, vec![PackageManager::Pip]);

    let (written, _) = updater.apply_updates(&checks, true, false, &files);
    assert_eq!(written[0].1, "serde==1.0.200\ntokio==1.5.0\n");

    let (written, _) = updater.apply_updates(&checks, false, true, &files);
    assert_eq!(written[0].1, "serde==1.0.200\ntokio==1.5.0\n");
}

#[test]
fn packages_in_several_files_are_listed_once_in_order() {
    let a1 = check("zeta", "==1.0.0", "requirements.txt", 1, &["1.0.0", "1.0.1"], None);
    let a2 = check("zeta", "==1.0.0", "requirements-dev.txt", 1, &["1.0.0", "1.0.1"], None);
    let a3 = check("zeta", "==1.0.0", "requirements-dev.txt", 2, &["1.0.0", "1.0.1"], None);
    let b1 = check("alpha", "==2.0.0", "requirements.txt", 2, &["2.0.0", "2.0.3"], None);
    let b2 = check("alpha", "==2.0.0", "pyproject.toml", 5, &["2.0.0", "2.0.3"], None);
    let c1 = check("mid", "==3.0.0", "requirements.txt", 3, &["3.0.0", "4.0.0"], None);
    let c2 = check("mid", "==3.0.0", "requirements-dev.txt", 3, &["3.0.0", "4.0.0"], None);
    let checks = vec![a1, a2, a3, b1, b2, c1, c2];
    assert_eq!(
        FileUpdater::multi_file_packages(&checks, false, false),
        vec!["alpha".to_string(), "zeta".to_string()]
    );
}

#[test]
fn content_rewrite_keeps_other_lines() {
    let updater = FileUpdater::new();
    let updates = vec![
        LineUpdate { line_number: 2, name: "b".to_string(), old_spec: "==1.0".to_string(), new_spec: "==1.1".to_string() },
        LineUpdate { line_number: 9, name: "z".to_string(), old_spec: "==1.0".to_string(), new_spec: "==2.0".to_string() },
    ];
    assert_eq!(updater.update_content("a==1.0\nb==1.0", "requirements.txt", &updates), "a==1.0\nb==1.1");
    assert_eq!(updater.update_content("", "requirements.txt", &updates), "");
}
