use check_updates_core::cargo::{CargoTomlParser, ProjectDetector as CargoProjectDetector};
use check_updates_core::detector::{PackageManager, ProjectDetector};
use check_updates_core::global::{
    generate_upgrade_commands, group_by_source, GlobalCheck, GlobalPackage, GlobalPackageDiscovery, GlobalSource,
};
use check_updates_core::npm::{
    LockfileParser, LockfileType, PackageJsonParser, ProjectDetector as NpmProjectDetector,
};
use check_updates_core::python::PythonInfo;
use check_updates_core::types::UpdateSeverity;
use check_updates_core::upgrade::UpgradeCommand;
use check_updates_core::uv_python::{
    generate_uv_python_upgrade_commands, UvPythonCheck, UvPythonDiscovery, UvPythonInfo,
};
use check_updates_core::version::Version;
use check_updates_core::constraint::VersionSpec;
use std::str::FromStr;

#[test]
fn test_parse_uv_tool_list() {
    let discovery = GlobalPackageDiscovery::new(false);
    let output = r#"ruff v0.14.10
    - ruff
ty v0.0.5
    - ty
"#;
    let packages = discovery.parse_uv_tool_list(output);
    assert_eq!(packages.len(), 2);
    assert_eq!(packages[0].name, "ruff");
    assert_eq!(packages[0].installed_version.to_string(), "0.14.10");
    assert_eq!(packages[0].source, GlobalSource::Uv);
    assert_eq!(packages[1].name, "ty");
    assert_eq!(packages[1].installed_version.to_string(), "0.0.5");
}

#[test]
fn test_parse_uv_tool_list_without_v_prefix() {
    let discovery = GlobalPackageDiscovery::new(false);
    let output = "black 24.10.0\n";
    let packages = discovery.parse_uv_tool_list(output);
    assert_eq!(packages.len(), 1);
    assert_eq!(packages[0].name, "black");
    assert_eq!(packages[0].installed_version.to_string(), "24.10.0");
}

#[test]
fn test_parse_dist_info_name() {
    let discovery = GlobalPackageDiscovery::new(false);

    let result = discovery.parse_dist_info_name("requests-2.28.0.dist-info");
    assert!(result.is_some());
    let (name, version) = result.unwrap();
    assert_eq!(name, "requests");
    assert_eq!(version.to_string(), "2.28.0");

    let result = discovery.parse_dist_info_name("typing-extensions-4.12.2.dist-info");
    assert!(result.is_some());
    let (name, version) = result.unwrap();
    assert_eq!(name, "typing-extensions");
    assert_eq!(version.to_string(), "4.12.2");

    let result = discovery.parse_dist_info_name("my_package-1.0.0.dist-info");
    assert!(result.is_some());
    let (name, version) = result.unwrap();
    assert_eq!(name, "my_package");
    assert_eq!(version.to_string(), "1.0.0");

    assert!(discovery.parse_dist_info_name("requests-2.28.0.egg-info").is_none());
    assert!(discovery.parse_dist_info_name("no-version.dist-info").is_none());
}

#[test]
fn test_global_source_display() {
    assert_eq!(GlobalSource::Uv.to_string(), "uv");
    assert_eq!(GlobalSource::Pipx.to_string(), "pipx");
    assert_eq!(GlobalSource::PipUser.to_string(), "pip");
}

fn global(name: &str, from: &str, to: &str, source: GlobalSource, has_update: bool) -> GlobalCheck {
    GlobalCheck {
        package: GlobalPackage {
            name: name.to_string(),
            installed_version: Version::from_str(from).unwrap(),
            source,
            python_version: None,
        },
        latest: Version::from_str(to).unwrap(),
        has_update,
    }
}

#[test]
fn test_update_severity() {
    assert_eq!(
        global("a", "1.0.0", "2.0.0", GlobalSource::Uv, true).update_severity(),
        Some(UpdateSeverity::Major)
    );
    assert_eq!(
        global("a", "1.0.0", "1.1.0", GlobalSource::Uv, true).update_severity(),
        Some(UpdateSeverity::Minor)
    );
    assert_eq!(
        global("a", "1.0.0", "1.0.1", GlobalSource::Uv, true).update_severity(),
        Some(UpdateSeverity::Patch)
    );
    assert_eq!(global("a", "1.0.0", "2.0.0", GlobalSource::Uv, false).update_severity(), None);
}

#[test]
fn groups_by_source_in_fixed_order() {
    let checks = vec![
        global("a", "1.0", "2.0", GlobalSource::PipUser, true),
        global("b", "1.0", "2.0", GlobalSource::Uv, true),
        global("c", "1.0", "2.0", GlobalSource::Uv, false),
        global("d", "1.0", "2.0", GlobalSource::Uv, true),
    ];
    let groups = group_by_source(&checks);
    assert_eq!(groups.len(), 2);
    assert_eq!(groups[0].0, GlobalSource::Uv);
    assert_eq!(groups[0].1, vec![1, 3]);
    assert_eq!(groups[1].0, GlobalSource::PipUser);
    assert_eq!(groups[1].1, vec![0]);
}

#[test]
fn test_python_info_has_update() {
    let info = PythonInfo {
        current: Version::from_str("3.11.0").unwrap(),
        latest: Some(Version::from_str("3.13.1").unwrap()),
    };
    assert!(info.has_update());

    let info = PythonInfo {
        current: Version::from_str("3.13.1").unwrap(),
        latest: Some(Version::from_str("3.13.1").unwrap()),
    };
    assert!(!info.has_update());

    let info = PythonInfo {
        current: Version::from_str("3.11.0").unwrap(),
        latest: None,
    };
    assert!(!info.has_update());
}

#[test]
fn test_parse_uv_python_list() {
    let discovery = UvPythonDiscovery::new();
    let output = r#"cpython-3.11.5-linux-x86_64-gnu     /home/user/.local/share/uv/python/cpython-3.11.5-linux-x86_64-gnu/bin/python3.11
cpython-3.12.2-linux-x86_64-gnu     /usr/bin/python3.12
cpython-3.13.0-linux-x86_64-gnu     <download available>
"#;
    let versions = discovery.parse_uv_python_list(output);
    assert_eq!(versions.len(), 3);
    assert_eq!(versions[0].version.to_string(), "3.11.5");
    assert_eq!(versions[0].implementation, "cpython");
    assert!(versions[0].is_installed);
    assert!(versions[0].path.is_some());
    assert_eq!(versions[1].version.to_string(), "3.12.2");
    assert!(versions[1].is_installed);
    assert!(versions[1].path.is_some());
    assert_eq!(versions[2].version.to_string(), "3.13.0");
    assert!(!versions[2].is_installed);
    assert!(versions[2].path.is_none());
}

#[test]
fn test_parse_uv_python_list_skip_freethreaded() {
    let discovery = UvPythonDiscovery::new();
    let output = r#"cpython-3.13.0+freethreaded-linux-x86_64-gnu     /path/to/python
cpython-3.12.2-linux-x86_64-gnu     /usr/bin/python3.12
"#;
    let versions = discovery.parse_uv_python_list(output);
    assert_eq!(versions.len(), 1);
    assert_eq!(versions[0].version.to_string(), "3.12.2");
}

#[test]
fn test_parse_uv_python_list_skip_non_cpython() {
    let discovery = UvPythonDiscovery::new();
    let output = r#"pypy-3.10.14-linux-x86_64-gnu     /path/to/pypy
cpython-3.12.2-linux-x86_64-gnu     /usr/bin/python3.12
"#;
    let versions = discovery.parse_uv_python_list(output);
    assert_eq!(versions.len(), 1);
    assert_eq!(versions[0].implementation, "cpython");
    assert_eq!(versions[0].version.to_string(), "3.12.2");
}

fn uv_check(installed: &str, latest: &str, has_update: bool) -> UvPythonCheck {
    UvPythonCheck {
        series: "3.11".to_string(),
        installed_version: Version::from_str(installed).unwrap(),
        latest_version: Version::from_str(latest).unwrap(),
        has_update,
        python_info: UvPythonInfo {
            full_name: format!("cpython-{}-linux-x86_64-gnu", installed),
            version: Version::from_str(installed).unwrap(),
            path: None,
            is_installed: true,
            implementation: "cpython".to_string(),
        },
    }
}

#[test]
fn test_is_patch_update() {
    assert!(uv_check("3.11.5", "3.11.14", true).is_patch_update());
    assert!(!uv_check("3.11.14", "3.11.14", false).is_patch_update());
    assert!(!uv_check("3.11.14", "3.12.1", true).is_patch_update());
}

#[test]
fn uv_python_test_generate_upgrade_commands() {
    let checks = vec![
        uv_check("3.11.5", "3.11.14", true),
        uv_check("3.10.1", "3.10.1", false),
        uv_check("3.12.2", "3.12.12", true),
    ];
    let commands = generate_uv_python_upgrade_commands(&checks);
    assert_eq!(commands.len(), 2);
    match &commands[0] {
        UpgradeCommand::Command(cmd) => assert_eq!(cmd, "uv python install 3.11.14"),
        _ => panic!("Expected Command"),
    }
    match &commands[1] {
        UpgradeCommand::Command(cmd) => assert_eq!(cmd, "uv python install 3.12.12"),
        _ => panic!("Expected Command"),
    }
}

#[test]
fn test_get_sync_command() {
    let detector = ProjectDetector::new(".".to_string());
    assert_eq!(detector.get_sync_command(&PackageManager::Pip), "pip install -r requirements.txt");
    assert_eq!(detector.get_sync_command(&PackageManager::Uv), "uv lock");
    assert_eq!(detector.get_sync_command(&PackageManager::Poetry), "poetry lock");
    assert_eq!(detector.get_sync_command(&PackageManager::Pdm), "pdm lock");
    assert_eq!(detector.get_sync_command(&PackageManager::Conda), "conda env update");
    assert_eq!(PackageManager::Conda.to_string(), "conda");
    assert_eq!(detector.file_path("pyproject.toml"), "./pyproject.toml");
}

#[test]
fn pyproject_manager_decision() {
    let poetry = "[tool.poetry]\nname = \"x\"\n";
    let pep621 = "[project]\ndependencies = [\"a\"]\n";
    assert_eq!(
        ProjectDetector::detect_pyproject_manager(poetry, false, false, false),
        Some(PackageManager::Poetry)
    );
    assert_eq!(
        ProjectDetector::detect_pyproject_manager(pep621, false, false, true),
        Some(PackageManager::Pdm)
    );
    assert_eq!(
        ProjectDetector::detect_pyproject_manager(pep621, true, false, false),
        Some(PackageManager::Uv)
    );
    assert_eq!(
        ProjectDetector::detect_pyproject_manager(pep621, false, false, false),
        Some(PackageManager::Uv)
    );
    assert_eq!(ProjectDetector::detect_pyproject_manager("[build-system]\n", false, false, false), None);
}

#[test]
fn test_parse_pnpm_package_key() {
    let (name, version) = LockfileParser::parse_pnpm_package_key("express@4.18.2").unwrap();
    assert_eq!(name, "express");
    assert_eq!(version.to_string(), "4.18.2");

    let (name, version) = LockfileParser::parse_pnpm_package_key("@types/node@20.0.0").unwrap();
    assert_eq!(name, "@types/node");
    assert_eq!(version.to_string(), "20.0.0");

    let (_, version) =
        LockfileParser::parse_pnpm_package_key("debug@4.3.4(supports-color@8.0.0)").unwrap();
    assert_eq!(version.to_string(), "4.3.4");
    assert!(LockfileParser::parse_pnpm_package_key("express").is_none());
    assert!(LockfileParser::parse_pnpm_package_key("@types/node").is_none());
}

#[test]
fn npm_lockfile_detection() {
    let detector = NpmProjectDetector::new("/p/".to_string());
    let present = vec!["yarn.lock".to_string(), "pnpm-lock.yaml".to_string()];
    assert_eq!(detector.detect_lockfile(&present), Some(LockfileType::Pnpm));
    assert_eq!(detector.detect_lockfile(&vec![]), None);
    assert_eq!(detector.lockfile_path(LockfileType::Bun), "/p/bun.lockb");
    let _ = LockfileParser::new();
}

#[test]
fn npm_manifest_helpers() {
    let content = "{\n  \"dependencies\": {\n    \"express\": \"^4.18.0\"\n  }\n}\n";
    assert_eq!(PackageJsonParser::find_line_number(content, "express"), 3);
    assert_eq!(PackageJsonParser::find_line_number(content, "react"), 1);
    assert!(matches!(PackageJsonParser::parse_npm_version(" ^4.18.0 ").unwrap(), VersionSpec::Caret(_)));
    let _ = PackageJsonParser::new();
}

#[test]
fn cargo_helpers() {
    let detector = CargoProjectDetector::new("proj".to_string());
    assert_eq!(detector.lockfile_path(), "proj/Cargo.lock");
    assert!(detector.has_lockfile(&vec!["Cargo.toml".to_string(), "Cargo.lock".to_string()]));
    assert!(!detector.has_lockfile(&vec!["Cargo.toml".to_string()]));
    assert!(matches!(CargoTomlParser::parse_cargo_version("1.0").unwrap(), VersionSpec::Caret(_)));
    assert!(matches!(CargoTomlParser::parse_cargo_version("=1.0").unwrap(), VersionSpec::Complex(_)));
    assert!(matches!(CargoTomlParser::parse_cargo_version(">=1.0, <2").unwrap(), VersionSpec::Range { .. }));
    assert!(CargoTomlParser::parse_cargo_version("abc").is_err());
    let _ = CargoTomlParser::new();
}

fn pip_check(name: &str, python: Option<&str>, source: GlobalSource) -> GlobalCheck {
    GlobalCheck {
        package: GlobalPackage {
            name: name.to_string(),
            installed_version: Version::from_str("1.0.0").unwrap(),
            source,
            python_version: python.map(|p| p.to_string()),
        },
        latest: Version::from_str("2.0.0").unwrap(),
        has_update: true,
    }
}

#[test]
fn global_test_generate_upgrade_commands() {
    let checks = vec![
        pip_check("ruff", None, GlobalSource::Uv),
        pip_check("black", None, GlobalSource::Pipx),
        pip_check("requests", Some("3.11"), GlobalSource::PipUser),
        pip_check("flask", Some("3.11"), GlobalSource::PipUser),
    ];
    let commands = generate_upgrade_commands(&checks, &vec!["3.11".to_string()], Some("/home/u"));
    assert!(commands.len() >= 3);
    let has_uv = commands.iter().any(|c| matches!(c, UpgradeCommand::Command(s) if s == "uv tool upgrade --all"));
    assert!(has_uv, "Should have uv upgrade command");
    let has_pipx = commands.iter().any(|c| matches!(c, UpgradeCommand::Command(s) if s == "pipx upgrade-all"));
    assert!(has_pipx, "Should have pipx upgrade command");
    let has_pip_311 = commands.iter().any(|c| match c {
        UpgradeCommand::Command(s) => s.contains("python3.11") && s.contains("requests") && s.contains("flask"),
        UpgradeCommand::Comment(s) => s.contains("3.11"),
    });
    assert!(has_pip_311, "Should have pip command or comment for Python 3.11");
}

#[test]
fn pip_series_commands_in_order() {
    let checks = vec![
        pip_check("b", Some("3.9"), GlobalSource::PipUser),
        pip_check("a", Some("3.12"), GlobalSource::PipUser),
        pip_check("c", Some("3.12"), GlobalSource::PipUser),
    ];
    let commands = generate_upgrade_commands(&checks, &vec!["3.12".to_string()], None);
    assert_eq!(commands.len(), 2);
    match &commands[0] {
        UpgradeCommand::Command(s) => assert_eq!(s, "python3.12 -m pip install --user --upgrade a c"),
        other => panic!("unexpected {:?}", other),
    }
    match &commands[1] {
        UpgradeCommand::Comment(s) => assert_eq!(
            s,
            "Python 3.9 is no longer installed. Consider removing ~/.local/lib/python3.9 if nothing uses it."
        ),
        other => panic!("unexpected {:?}", other),
    }
    let commands = generate_upgrade_commands(&checks[..1].to_vec(), &vec![], Some("/home/u"));
    match &commands[0] {
        UpgradeCommand::Comment(s) => assert!(s.contains("/home/u/.local/lib/python3.9")),
        other => panic!("unexpected {:?}", other),
    }
}

#[test]
fn workspace_members() {
    let npm = NpmProjectDetector::new("/p".to_string());
    assert_eq!(npm.get_workspaces(r#"{"workspaces": ["packages/*", 3]}"#), Some(vec!["packages/*".to_string()]));
    assert_eq!(npm.get_workspaces(r#"{"workspaces": {"packages": ["apps/*"]}}"#), Some(vec!["apps/*".to_string()]));
    assert_eq!(npm.get_workspaces(r#"{"name": "x"}"#), None);
    assert_eq!(npm.workspace_manifest_pattern("packages/*"), "/p/packages/*/package.json");
    let cargo = CargoProjectDetector::new("/c".to_string());
    assert_eq!(
        cargo.workspace_members("[workspace]\nmembers = [\"crates/*\", \"tool\"]\n"),
        Some(vec!["crates/*".to_string(), "tool".to_string()])
    );
    assert_eq!(cargo.workspace_members("[package]\nname = \"x\"\n"), Some(vec![]));
    assert_eq!(cargo.member_manifest("tool"), "/c/tool/Cargo.toml");
}
