use check_updates_core::conda::CondaParser;
use check_updates_core::constraint::VersionSpec;
use check_updates_core::lockfiles::LockfileParser;
use check_updates_core::pyproject::PyProjectParser;
use check_updates_core::requirements::RequirementsParser;

fn sample_requirements_txt() -> &'static str {
    r#"# Sample requirements.txt
requests>=2.28.0,<3.0.0
numpy==1.24.0
flask^2.0.0
Django~=4.0.0
pandas>=1.5.0
pytest==7.4.0
black>=23.0.0
mypy~=1.4.0
click>=8.0.0,<9.0.0
pydantic==2.0.0
"#
}

fn sample_pyproject_pep621() -> &'static str {
    r#"[project]
name = "test-project"
version = "0.1.0"
dependencies = [
    "requests>=2.28.0,<3.0.0",
    "numpy==1.24.0",
]
"#
}

fn sample_pyproject_poetry() -> &'static str {
    r#"[tool.poetry]
name = "test-project"

[tool.poetry.dependencies]
python = "^3.9"
requests = "^2.28.0"
"#
}

fn sample_environment_yml() -> &'static str {
    r#"name: test-env
dependencies:
  - python=3.9
  - numpy=1.24.0
  - pip:
    - flask>=2.0.0
"#
}

#[test]
fn test_sample_fixtures_are_valid() {
    assert!(!sample_requirements_txt().is_empty());
    assert!(!sample_pyproject_pep621().is_empty());
    assert!(!sample_pyproject_poetry().is_empty());
    assert!(!sample_environment_yml().is_empty());
}

#[test]
fn requirements_fixture_parses() {
    let deps = RequirementsParser::new().parse(sample_requirements_txt(), "requirements.txt");
    assert_eq!(deps.len(), 10);
    assert_eq!(deps[0].name, "requests");
    assert_eq!(deps[0].line_number, 2);
    assert!(matches!(deps[0].version_spec, VersionSpec::Range { .. }));
    assert_eq!(deps[3].name, "django");
    assert!(matches!(deps[3].version_spec, VersionSpec::Compatible(_)));
    assert_eq!(deps[9].line_number, 11);
    assert_eq!(deps[9].source_file, "requirements.txt");
}

#[test]
fn requirements_test_can_parse() {
    let parser = RequirementsParser::new();
    assert!(parser.can_parse("requirements.txt"));
    assert!(parser.can_parse("requirements-dev.txt"));
    assert!(parser.can_parse("requirements-test.txt"));
    assert!(!parser.can_parse("pyproject.toml"));
    assert!(!parser.can_parse("setup.py"));
}

#[test]
fn requirements_lines() {
    let d = RequirementsParser::parse_line("  Requests[security]>=2.0 ; python_version >= '3.8'", 3, "r.txt").unwrap();
    assert_eq!(d.name, "requests");
    assert_eq!(d.version_spec.to_string(), ">=2.0");
    assert_eq!(d.line_number, 3);
    assert_eq!(d.original_line, "  Requests[security]>=2.0 ; python_version >= '3.8'");
    let d = RequirementsParser::parse_line("typing_extensions==4.0 # pinned", 1, "r.txt").unwrap();
    assert_eq!(d.name, "typing-extensions");
    assert_eq!(d.version_spec.to_string(), "==4.0");
    let d = RequirementsParser::parse_line("six", 1, "r.txt").unwrap();
    assert!(matches!(d.version_spec, VersionSpec::Any));
    assert!(RequirementsParser::parse_line("# comment", 1, "r.txt").is_none());
    assert!(RequirementsParser::parse_line("-r other.txt", 1, "r.txt").is_none());
    assert!(RequirementsParser::parse_line("--index-url https://x", 1, "r.txt").is_none());
    assert!(RequirementsParser::parse_line("   ", 1, "r.txt").is_none());
    let d = RequirementsParser::parse_line("pkg>=1.0,<2.0,!=1.5", 1, "r.txt").unwrap();
    assert!(matches!(d.version_spec, VersionSpec::Complex(_)));
    let d = RequirementsParser::parse_line("pkg>=abc", 1, "r.txt").unwrap();
    match d.version_spec {
        VersionSpec::Complex(s) => assert_eq!(s, ">=abc"),
        other => panic!("unexpected {:?}", other),
    }
}

#[test]
fn requirements_split() {
    assert_eq!(RequirementsParser::split_package_version("a[x]>=1"), ("a[x]", ">=1"));
    assert_eq!(RequirementsParser::split_package_version(" b "), ("b", ""));
}

#[test]
fn conda_test_can_parse() {
    let parser = CondaParser::new();
    assert!(parser.can_parse("environment.yml"));
    assert!(parser.can_parse("environment.yaml"));
    assert!(!parser.can_parse("requirements.txt"));
    assert!(!parser.can_parse("pyproject.toml"));
}

#[test]
fn test_parse_conda_dependency() {
    let (name, spec) = CondaParser::parse_conda_dependency("numpy").unwrap();
    assert_eq!(name, "numpy");
    assert!(matches!(spec, VersionSpec::Any));

    let (name, spec) = CondaParser::parse_conda_dependency("numpy=1.24.0").unwrap();
    assert_eq!(name, "numpy");
    assert!(matches!(spec, VersionSpec::Pinned(_)));

    let (name, spec) = CondaParser::parse_conda_dependency("numpy>=1.24.0").unwrap();
    assert_eq!(name, "numpy");
    assert!(matches!(spec, VersionSpec::Minimum(_)));

    let (name, spec) = CondaParser::parse_conda_dependency("python=3.9.*").unwrap();
    assert_eq!(name, "python");
    assert!(matches!(spec, VersionSpec::Wildcard { .. }));
}

#[test]
fn test_parse_pip_dependency() {
    let (name, spec) = CondaParser::parse_pip_dependency("requests").unwrap();
    assert_eq!(name, "requests");
    assert!(matches!(spec, VersionSpec::Any));

    let (name, spec) = CondaParser::parse_pip_dependency("requests==2.28.0").unwrap();
    assert_eq!(name, "requests");
    assert!(matches!(spec, VersionSpec::Pinned(_)));

    let (name, spec) = CondaParser::parse_pip_dependency("numpy>=1.24.0,<2.0.0").unwrap();
    assert_eq!(name, "numpy");
    assert!(matches!(spec, VersionSpec::Range { .. }));

    let (name, spec) = CondaParser::parse_pip_dependency("flask~=2.0.0").unwrap();
    assert_eq!(name, "flask");
    assert!(matches!(spec, VersionSpec::Compatible(_)));
}

#[test]
fn conda_entries_edge_cases() {
    assert!(CondaParser::parse_conda_dependency("  ").is_none());
    assert!(CondaParser::parse_conda_dependency("# note").is_none());
    let (name, spec) = CondaParser::parse_conda_dependency("NumPy <= 2.0").unwrap();
    assert_eq!(name, "numpy");
    assert_eq!(spec.to_string(), "<=2.0");
    let (_, spec) = CondaParser::parse_conda_dependency("numpy>=abc").unwrap();
    assert!(matches!(spec, VersionSpec::Any));
    let (name, spec) = CondaParser::parse_pip_dependency("Black ^23.1").unwrap();
    assert_eq!(name, "black");
    assert_eq!(spec.to_string(), "^23.1");
}

#[test]
fn pyproject_test_can_parse() {
    let parser = PyProjectParser::new();
    assert!(parser.can_parse("pyproject.toml"));
    assert!(parser.can_parse("/path/to/pyproject.toml"));
    assert!(!parser.can_parse("requirements.txt"));
}

#[test]
fn lockfiles_test_can_parse() {
    let parser = LockfileParser::new();
    assert!(parser.can_parse("uv.lock"));
    assert!(parser.can_parse("poetry.lock"));
    assert!(parser.can_parse("pdm.lock"));
    assert!(!parser.can_parse("requirements.txt"));
}

#[test]
fn test_parse_environment_yml() {
    let yaml_content = r#"
name: myenv
channels:
  - conda-forge
  - defaults
dependencies:
  - python=3.9.*
  - numpy=1.24.0
  - pandas>=1.5.0
  - scikit-learn
  - pip:
    - requests==2.28.0
    - flask>=2.0.0,<3.0.0
    - django
"#;
    let dependencies = CondaParser::new().parse(yaml_content, "environment.yml").unwrap();
    assert_eq!(dependencies.len(), 7);
    let python_dep = dependencies.iter().find(|d| d.name == "python").unwrap();
    assert!(matches!(python_dep.version_spec, VersionSpec::Wildcard { .. }));
    let numpy_dep = dependencies.iter().find(|d| d.name == "numpy").unwrap();
    assert!(matches!(numpy_dep.version_spec, VersionSpec::Pinned(_)));
    let pandas_dep = dependencies.iter().find(|d| d.name == "pandas").unwrap();
    assert!(matches!(pandas_dep.version_spec, VersionSpec::Minimum(_)));
    let sklearn_dep = dependencies.iter().find(|d| d.name == "scikit-learn").unwrap();
    assert!(matches!(sklearn_dep.version_spec, VersionSpec::Any));
    let requests_dep = dependencies.iter().find(|d| d.name == "requests").unwrap();
    assert!(matches!(requests_dep.version_spec, VersionSpec::Pinned(_)));
    let flask_dep = dependencies.iter().find(|d| d.name == "flask").unwrap();
    assert!(matches!(flask_dep.version_spec, VersionSpec::Range { .. }));
    let django_dep = dependencies.iter().find(|d| d.name == "django").unwrap();
    assert!(matches!(django_dep.version_spec, VersionSpec::Any));
    assert_eq!(python_dep.line_number, 2);
    assert_eq!(python_dep.original_line, "  - python=3.9.*");
    assert_eq!(requests_dep.line_number, 7);
    assert_eq!(requests_dep.original_line, "    - requests==2.28.0");
}

#[test]
fn test_parse_environment_yaml() {
    let yaml_content = r#"
dependencies:
  - numpy=1.24.0
"#;
    let parser = CondaParser::new();
    assert!(parser.can_parse("/tmp/x/environment.yaml"));
    let dependencies = parser.parse(yaml_content, "/tmp/x/environment.yaml").unwrap();
    assert_eq!(dependencies.len(), 1);
    assert_eq!(dependencies[0].name, "numpy");
}

#[test]
fn test_empty_dependencies() {
    let yaml_content = r#"
name: myenv
dependencies: []
"#;
    let dependencies = CondaParser::new().parse(yaml_content, "environment.yml").unwrap();
    assert_eq!(dependencies.len(), 0);
    assert!(CondaParser::new().parse("a: [b\n", "environment.yml").is_none());
}
