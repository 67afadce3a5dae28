use check_updates_core::cli::Args;
use check_updates_core::constraint::VersionSpec;
use check_updates_core::output::TableRenderer;
use check_updates_core::resolver::DependencyResolver;
use check_updates_core::types::{Dependency, PackageInfo, UpdateSeverity};
use check_updates_core::version::Version;
use std::str::FromStr;

fn resolved(name: &str, spec: &str, versions: &[&str]) -> check_updates_core::types::DependencyCheck {
    let dep = Dependency {
        name: name.to_string(),
        version_spec: VersionSpec::parse(spec).unwrap(),
        source_file: "requirements.txt".to_string(),
        line_number: 1,
        original_line: String::new(),
    };
    let vs: Vec<Version> = versions.iter().map(|v| Version::from_str(v).unwrap()).collect();
    let latest = vs.last().unwrap().clone();
    let info = PackageInfo { name: name.to_string(), versions: vs, latest: latest.clone(), latest_stable: Some(latest) };
    DependencyResolver::new(Args { path: None, update: false, minor: false, force_latest: false, pre_release: false })
        .resolve(&dep, &info, None)
}

#[test]
fn severity_labels_without_colors() {
    let r = TableRenderer::new(false);
    assert_eq!(r.format_severity(Some(UpdateSeverity::Major)), "MAJOR");
    assert_eq!(r.format_severity(Some(UpdateSeverity::Minor)), "minor");
    assert_eq!(r.format_severity(Some(UpdateSeverity::Patch)), "patch");
    assert_eq!(r.format_severity(None), "");
}

#[test]
fn severity_labels_with_colors_keep_the_label() {
    let r = TableRenderer::new(true);
    let s = r.format_severity(Some(UpdateSeverity::Major));
    assert!(s == "MAJOR" || s == "\x1b[31mMAJOR\x1b[0m");
}

#[test]
fn table_rows_are_padded() {
    let checks = vec![
        resolved("flask", "^2.0.0", &["2.0.0", "2.3.3", "3.0.0"]),
        resolved("requests", "==2.32.3", &["2.32.3"]),
        resolved("numpy", "==1.24.0", &["1.24.0", "1.24.10"]),
    ];
    let lines = TableRenderer::new(false).render(&checks);
    assert_eq!(lines.len(), 4);
    assert_eq!(lines[0], "Outdated dependencies:");
    assert_eq!(lines[1], "");
    assert_eq!(lines[2], "  flask   2.0.0 → 2.3.3    minor  (3.0.0 available)");
    assert_eq!(lines[3], "  numpy  1.24.0 → 1.24.10  patch");
}

#[test]
fn table_when_all_up_to_date() {
    let checks = vec![resolved("requests", "==2.32.3", &["2.32.3"])];
    assert_eq!(TableRenderer::new(false).render(&checks), vec!["All dependencies are up to date!".to_string()]);
}

use check_updates_core::global::{GlobalCheck, GlobalPackage, GlobalSource};
use check_updates_core::output::{GlobalTableRenderer, UvPythonTableRenderer};
use check_updates_core::uv_python::{UvPythonCheck, UvPythonInfo};

fn global(name: &str, from: &str, to: &str, source: GlobalSource, python: Option<&str>) -> GlobalCheck {
    let installed = Version::from_str(from).unwrap();
    let latest = Version::from_str(to).unwrap();
    let has_update = installed < latest;
    GlobalCheck {
        package: GlobalPackage {
            name: name.to_string(),
            installed_version: installed,
            source,
            python_version: python.map(|p| p.to_string()),
        },
        latest,
        has_update,
    }
}

#[test]
fn global_table_groups() {
    let checks = vec![
        global("ruff", "0.14.9", "0.14.10", GlobalSource::Uv, None),
        global("Black", "24.1.0", "24.10.0", GlobalSource::Uv, None),
        global("httpie", "3.2.0", "3.2.0", GlobalSource::Pipx, None),
        global("requests", "2.28.0", "2.32.3", GlobalSource::PipUser, Some("3.9")),
        global("flask", "2.3.3", "3.0.0", GlobalSource::PipUser, Some("3.12")),
    ];
    let lines = GlobalTableRenderer::new(false).render(&checks);
    let expected = vec![
        "uv tools:",
        "  Package  Installed   Latest",
        "  Black       24.1.0  24.10.0",
        "  ruff        0.14.9  0.14.10",
        "",
        "pipx:",
        "  All packages up to date.",
        "",
        "pip --user (Python 3.12):",
        "  Package  Installed  Latest",
        "  flask        2.3.3   3.0.0",
        "",
        "pip --user (Python 3.9):",
        "  Package   Installed  Latest",
        "  requests     2.28.0  2.32.3",
    ];
    assert_eq!(lines, expected);
    assert!(GlobalTableRenderer::new(false).render(&vec![]).is_empty());
}

fn uv(series: &str, installed: &str, latest: &str) -> UvPythonCheck {
    let i = Version::from_str(installed).unwrap();
    let l = Version::from_str(latest).unwrap();
    UvPythonCheck {
        series: series.to_string(),
        installed_version: i.clone(),
        latest_version: l.clone(),
        has_update: i < l,
        python_info: UvPythonInfo {
            full_name: format!("cpython-{}", installed),
            version: i,
            path: None,
            is_installed: true,
            implementation: "cpython".to_string(),
        },
    }
}

#[test]
fn uv_python_table() {
    let lines = UvPythonTableRenderer::new(false).render(&vec![uv("3.12", "3.12.2", "3.12.12"), uv("3.11", "3.11.5", "3.11.14")]);
    assert_eq!(
        lines,
        vec![
            "uv-managed Python installations:",
            "  Series  Installed   Latest",
            "  3.11       3.11.5  3.11.14",
            "  3.12       3.12.2  3.12.12",
        ]
    );
    let lines = UvPythonTableRenderer::new(false).render(&vec![uv("3.12", "3.12.2", "3.12.2")]);
    assert_eq!(lines, vec!["uv-managed Python installations:", "  All Python versions up to date."]);
}
