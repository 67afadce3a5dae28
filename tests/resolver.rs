use check_updates_core::cli::Args;
use check_updates_core::constraint::VersionSpec;
use check_updates_core::resolver::DependencyResolver;
use check_updates_core::types::{
    update_severity_between, Dependency, PackageInfo, UpdateSeverity,
};
use check_updates_core::version::Version;
use std::str::FromStr;

fn create_test_dependency(name: &str, spec_str: &str) -> Dependency {
    Dependency {
        name: name.to_string(),
        version_spec: VersionSpec::parse(spec_str).unwrap(),
        source_file: "test.txt".to_string(),
        line_number: 1,
        original_line: format!("{}=={}", name, spec_str),
    }
}

fn create_package_info(name: &str, versions: Vec<&str>) -> PackageInfo {
    let version_objects: Vec<Version> = versions
        .iter()
        .map(|v| Version::from_str(v).unwrap())
        .collect();
    let latest = version_objects.last().unwrap().clone();

    PackageInfo {
        name: name.to_string(),
        versions: version_objects,
        latest: latest.clone(),
        latest_stable: Some(latest),
    }
}

fn args(minor: bool, force_latest: bool) -> Args {
    Args {
        path: None,
        update: false,
        minor,
        force_latest,
        pre_release: false,
    }
}

#[test]
fn test_default_mode_pinned_no_update() {
    let resolver = DependencyResolver::new(args(false, false));
    let dep = create_test_dependency("requests", "==2.28.0");
    let pkg_info = create_package_info("requests", vec!["2.28.0", "2.32.3", "3.1.0"]);
    let result = resolver.resolve(&dep, &pkg_info, None);
    assert!(result.update_to.is_none());
}

#[test]
fn test_default_mode_range_updates_in_range() {
    let resolver = DependencyResolver::new(args(false, false));
    let dep = create_test_dependency("requests", ">=2.28.0,<3.0.0");
    let pkg_info = create_package_info("requests", vec!["2.28.0", "2.32.3", "3.1.0"]);
    let result = resolver.resolve(&dep, &pkg_info, None);
    assert!(result.update_to.is_some());
    assert_eq!(result.in_range.unwrap().to_string(), "2.32.3");
}

#[test]
fn test_default_mode_unbounded_updates_same_major() {
    let resolver = DependencyResolver::new(args(false, false));
    let dep = create_test_dependency("requests", ">=2.28.0");
    let pkg_info = create_package_info("requests", vec!["2.28.0", "2.32.3", "3.1.0"]);
    let result = resolver.resolve(&dep, &pkg_info, None);
    assert_eq!(result.in_range.as_ref().unwrap().to_string(), "2.32.3");
    assert!(result.update_to.is_some());
}

#[test]
fn test_minor_flag_pinned_updates_same_major() {
    let resolver = DependencyResolver::new(args(true, false));
    let dep = create_test_dependency("numpy", "==1.24.0");
    let pkg_info = create_package_info("numpy", vec!["1.24.0", "1.26.0", "2.1.0"]);
    let result = resolver.resolve(&dep, &pkg_info, None);
    assert!(result.update_to.is_some());
    if let Some(VersionSpec::Pinned(v)) = &result.update_to {
        assert_eq!(v.major, 1);
        assert_eq!(v.minor, 26);
    } else {
        panic!("Expected pinned version spec");
    }
}

#[test]
fn test_force_latest_flag_all_update_to_latest() {
    let resolver = DependencyResolver::new(args(false, true));
    let dep = create_test_dependency("flask", "^2.0.0");
    let pkg_info = create_package_info("flask", vec!["2.0.0", "2.3.3", "3.0.0"]);
    let result = resolver.resolve(&dep, &pkg_info, None);
    assert!(result.update_to.is_some());
    if let Some(spec) = &result.update_to {
        assert_eq!(spec.base_version().unwrap().to_string(), "3.0.0");
    }
}

#[test]
fn test_caret_constraint_same_major() {
    let resolver = DependencyResolver::new(args(false, false));
    let dep = create_test_dependency("flask", "^2.0.0");
    let pkg_info = create_package_info("flask", vec!["2.0.0", "2.3.3", "3.0.0"]);
    let result = resolver.resolve(&dep, &pkg_info, None);
    assert_eq!(result.in_range.as_ref().unwrap().to_string(), "2.3.3");
}

#[test]
fn test_no_update_when_already_latest() {
    let resolver = DependencyResolver::new(args(false, false));
    let dep = create_test_dependency("flask", ">=2.3.3");
    let pkg_info = create_package_info("flask", vec!["2.0.0", "2.3.3"]);
    let result = resolver.resolve(&dep, &pkg_info, None);
    assert!(result.update_to.is_none());
}

#[test]
fn test_unbounded_spec_with_higher_installed_version() {
    let resolver = DependencyResolver::new(args(false, false));
    let dep = create_test_dependency("mcp", ">=0.1.0");
    let pkg_info = create_package_info(
        "mcp",
        vec!["0.1.0", "0.5.0", "0.9.1", "1.0.0", "1.20.0", "1.25.0"],
    );
    let installed = Version::from_str("1.25.0").unwrap();
    let result = resolver.resolve(&dep, &pkg_info, Some(&installed));
    assert_eq!(result.in_range.as_ref().unwrap().to_string(), "1.25.0");
    assert!(result.update_to.is_some());
    assert_eq!(result.update_to.unwrap().to_string(), ">=1.25.0");
}

#[test]
fn test_unbounded_spec_with_higher_installed_but_newer_available() {
    let resolver = DependencyResolver::new(args(false, false));
    let dep = create_test_dependency("mcp", ">=0.1.0");
    let pkg_info = create_package_info(
        "mcp",
        vec!["0.1.0", "0.5.0", "0.9.1", "1.0.0", "1.20.0", "1.25.0"],
    );
    let installed = Version::from_str("1.20.0").unwrap();
    let result = resolver.resolve(&dep, &pkg_info, Some(&installed));
    assert_eq!(result.in_range.as_ref().unwrap().to_string(), "1.25.0");
    assert!(result.update_to.is_some());
    assert_eq!(result.update_to.unwrap().to_string(), ">=1.25.0");
}

#[test]
fn unbounded_spec_follows_installed_major() {
    let resolver = DependencyResolver::new(args(false, false));
    let dep = create_test_dependency("mcp", ">=0.1.0");
    let installed = Version::from_str("1.25.0").unwrap();
    let pkg = create_package_info("mcp", vec!["0.1.0", "0.9.1", "1.20.0", "1.25.0"]);
    let r = resolver.resolve(&dep, &pkg, Some(&installed));
    assert_eq!(r.in_range.as_ref().unwrap().to_string(), "1.25.0");
    assert!(r.target.is_none());
    let pkg = create_package_info("mcp", vec!["0.1.0", "0.9.1", "1.20.0", "1.25.0", "1.26.0"]);
    let r = resolver.resolve(&dep, &pkg, Some(&installed));
    assert_eq!(r.target.as_ref().unwrap().to_string(), "1.26.0");
    assert_eq!(r.target_spec.as_ref().unwrap().to_string(), ">=1.26.0");
    assert_eq!(r.severity, Some(UpdateSeverity::Minor));
}

#[test]
fn up_to_date_dependency_has_no_target() {
    let resolver = DependencyResolver::new(args(false, false));
    let dep = create_test_dependency("flask", "^2.0.0");
    let pkg = create_package_info("flask", vec!["2.0.0", "2.3.3"]);
    let installed = Version::from_str("2.3.3").unwrap();
    let r = resolver.resolve(&dep, &pkg, Some(&installed));
    assert_eq!(r.in_range.as_ref().unwrap().to_string(), "2.3.3");
    assert!(r.target.is_none());
    assert!(r.target_spec.is_none());
    assert!(r.severity.is_none());
    assert!(r.force_spec.is_none());
    assert!(!r.has_update());
    assert!(!r.has_newer_available());
}

#[test]
fn target_prefers_in_range_then_latest() {
    let resolver = DependencyResolver::new(args(false, false));
    let dep = create_test_dependency("flask", "^2.0.0");
    let pkg = create_package_info("flask", vec!["2.0.0", "2.3.3", "3.0.0"]);
    let r = resolver.resolve(&dep, &pkg, None);
    assert_eq!(r.target.as_ref().unwrap().to_string(), "2.3.3");
    assert_eq!(r.target_spec.as_ref().unwrap().to_string(), "^2.3.3");
    assert_eq!(r.severity, Some(UpdateSeverity::Minor));
    assert_eq!(r.force_spec.as_ref().unwrap().to_string(), "^3.0.0");
    assert!(r.has_update());
    assert!(r.has_newer_available());
    assert_eq!(r.current_version().unwrap().to_string(), "2.0.0");

    let installed = Version::from_str("2.3.3").unwrap();
    let r = resolver.resolve(&dep, &pkg, Some(&installed));
    assert_eq!(r.target.as_ref().unwrap().to_string(), "3.0.0");
    assert_eq!(r.target_spec.as_ref().unwrap().to_string(), "^3.0.0");
    assert_eq!(r.severity, Some(UpdateSeverity::Major));
    assert_eq!(r.current_version().unwrap().to_string(), "2.3.3");
}

#[test]
fn unresolvable_without_current_version() {
    let resolver = DependencyResolver::new(args(false, false));
    let dep = create_test_dependency("flask", "*");
    let pkg = create_package_info("flask", vec!["2.0.0", "3.0.0"]);
    let r = resolver.resolve(&dep, &pkg, None);
    assert_eq!(r.in_range.as_ref().unwrap().to_string(), "3.0.0");
    assert!(r.target.is_none());
    assert!(r.severity.is_none());
    assert!(r.force_spec.is_none());
    assert!(r.current_version().is_none());
}

#[test]
fn range_target_extends_upper_bound() {
    let resolver = DependencyResolver::new(args(false, false));
    let dep = create_test_dependency("requests", ">=2.28.0,<3.0.0");
    let pkg = create_package_info("requests", vec!["2.28.0", "3.1.0"]);
    let r = resolver.resolve(&dep, &pkg, None);
    assert_eq!(r.target.as_ref().unwrap().to_string(), "3.1.0");
    assert_eq!(r.target_spec.as_ref().unwrap().to_string(), ">=3.1.0,<4.0.0");
}

#[test]
fn severity_tiers() {
    let v = |s: &str| Version::from_str(s).unwrap();
    assert_eq!(update_severity_between(&v("1.9.9"), &v("2.0.0")), Some(UpdateSeverity::Major));
    assert_eq!(update_severity_between(&v("1.2.9"), &v("1.3.0")), Some(UpdateSeverity::Minor));
    assert_eq!(update_severity_between(&v("1.2.3"), &v("1.2.4")), Some(UpdateSeverity::Patch));
    assert_eq!(update_severity_between(&v("1.2.3"), &v("1.2.3")), None);
}

#[test]
fn policy_update_severity() {
    let resolver = DependencyResolver::new(args(false, true));
    let dep = create_test_dependency("flask", "^2.0.0");
    let pkg = create_package_info("flask", vec!["2.0.0", "2.3.3", "3.0.0"]);
    let r = resolver.resolve(&dep, &pkg, None);
    assert_eq!(r.update_severity(), Some(UpdateSeverity::Major));
    let resolver = DependencyResolver::new(args(false, false));
    let r = resolver.resolve(&dep, &pkg, None);
    assert_eq!(r.update_severity(), Some(UpdateSeverity::Minor));
}

#[test]
fn force_pinned_moves_to_latest() {
    let resolver = DependencyResolver::new(args(false, true));
    let dep = create_test_dependency("numpy", "==1.24.0");
    let pkg = create_package_info("numpy", vec!["1.24.0", "2.1.0"]);
    let r = resolver.resolve(&dep, &pkg, None);
    assert_eq!(r.update_to.unwrap().to_string(), "==2.1.0");
}

#[test]
fn project_path_defaults_to_current_directory() {
    assert_eq!(args(false, false).project_path(), ".");
    let a = Args {
        path: Some("/tmp/x".to_string()),
        update: true,
        minor: false,
        force_latest: false,
        pre_release: false,
    };
    assert_eq!(a.project_path(), "/tmp/x");
}
