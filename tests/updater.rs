use check_updates_core::detector::PackageManager;
use check_updates_core::updater::{detect_package_manager, FileUpdater};

#[test]
fn test_replace_in_requirements() {
    let updater = FileUpdater::new();
    let result = updater.replace_in_requirements("requests==2.28.0", "requests", "==2.28.0", "==2.32.3");
    assert_eq!(result, "requests==2.32.3");
    let result = updater.replace_in_requirements(
        "numpy>=1.24.0,<2.0.0",
        "numpy",
        ">=1.24.0,<2.0.0",
        ">=1.26.0,<2.0.0",
    );
    assert_eq!(result, "numpy>=1.26.0,<2.0.0");
    let result = updater.replace_in_requirements(
        "requests[security]==2.28.0",
        "requests",
        "==2.28.0",
        "==2.32.3",
    );
    assert_eq!(result, "requests[security]==2.32.3");
}

#[test]
fn test_replace_in_pyproject() {
    let updater = FileUpdater::new();
    let result = updater.replace_in_pyproject("requests = \"^2.28.0\"", "requests", "^2.28.0", "^2.32.3");
    assert_eq!(result, "requests = \"^2.32.3\"");
    let result = updater.replace_in_pyproject("numpy = '^1.24.0'", "numpy", "^1.24.0", "^1.26.0");
    assert_eq!(result, "numpy = '^1.26.0'");
}

#[test]
fn test_replace_in_conda() {
    let updater = FileUpdater::new();
    let result = updater.replace_in_conda("  - numpy==1.24.0", "numpy", "==1.24.0", "==1.26.0");
    assert_eq!(result, "  - numpy==1.26.0");
    let result = updater.replace_in_conda("  - requests=2.28.0", "requests", "==2.28.0", "==2.32.3");
    assert_eq!(result, "  - requests=2.32.3");
}

#[test]
fn test_detect_package_manager() {
    assert_eq!(detect_package_manager("/path/to/requirements.txt"), Some(PackageManager::Pip));
    assert_eq!(detect_package_manager("/path/to/requirements-dev.txt"), Some(PackageManager::Pip));
    assert_eq!(detect_package_manager("/path/to/pyproject.toml"), Some(PackageManager::Uv));
    assert_eq!(detect_package_manager("/path/to/environment.yml"), Some(PackageManager::Conda));
    assert_eq!(detect_package_manager("/path/to/poetry.lock"), Some(PackageManager::Poetry));
    assert_eq!(detect_package_manager("/path/to/pdm.lock"), Some(PackageManager::Pdm));
    assert_eq!(detect_package_manager("/path/to/setup.py"), None);
}

#[test]
fn replace_falls_back_to_plain_replacement() {
    let updater = FileUpdater::new();
    assert_eq!(
        updater.replace_in_requirements("Requests >= 2.0", "requests", ">=2.0", ">=3.0"),
        "Requests >= 2.0"
    );
    assert_eq!(
        updater.replace_in_requirements("x ==1.0 ==1.0", "y", "==1.0", "==2.0"),
        "x ==2.0 ==2.0"
    );
    assert_eq!(
        updater.replace_in_pyproject("dep = {version = \"^1.0\"}", "DEP", "^1.0", "^2.0"),
        "dep = {version = \"^2.0\"}"
    );
    assert_eq!(updater.replace_in_conda("  - numpy 1.0", "numpy", "1.0", "2.0"), "  - numpy 2.0");
}

#[test]
fn replace_by_file_kind() {
    let updater = FileUpdater::new();
    assert_eq!(
        updater.replace_version_in_line("a = '1.0'", "a", "1.0", "2.0", "/p/pyproject.toml"),
        "a = '2.0'"
    );
    assert_eq!(
        updater.replace_version_in_line("  - a=1.0", "a", "==1.0", "==2.0", "environment.yaml"),
        "  - a=2.0"
    );
    assert_eq!(
        updater.replace_version_in_line("a==1.0", "a", "==1.0", "==2.0", "reqs.txt"),
        "a==2.0"
    );
}
