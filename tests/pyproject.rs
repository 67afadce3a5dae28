use check_updates_core::constraint::VersionSpec;
use check_updates_core::pyproject::PyProjectParser;

const PATH: &str = "pyproject.toml";

#[test]
fn test_parse_pep621_dependencies() {
    let content = r#"
[project]
name = "myproject"
dependencies = [
    "requests>=2.28.0",
    "numpy==1.24.0",
    "flask~=2.0.0",
]

[project.optional-dependencies]
dev = [
    "pytest>=7.0.0",
    "black>=22.0.0",
]
"#;
    let deps = PyProjectParser::new().parse(content, PATH).unwrap();
    assert_eq!(deps.len(), 5);
    assert!(deps.iter().any(|d| d.name == "requests"));
    assert!(deps.iter().any(|d| d.name == "numpy"));
    assert!(deps.iter().any(|d| d.name == "flask"));
    assert!(deps.iter().any(|d| d.name == "pytest"));
    assert!(deps.iter().any(|d| d.name == "black"));
    let requests = deps.iter().find(|d| d.name == "requests").unwrap();
    assert_eq!(requests.line_number, 5);
    assert_eq!(requests.original_line, "\"requests>=2.28.0\",");
}

#[test]
fn test_parse_poetry_dependencies() {
    let content = r#"
[tool.poetry]
name = "myproject"

[tool.poetry.dependencies]
python = "^3.8"
requests = "^2.28.0"
numpy = "1.24.0"

[tool.poetry.group.dev.dependencies]
pytest = "^7.0.0"
black = {version = "^22.0.0", optional = true}
"#;
    let deps = PyProjectParser::new().parse(content, PATH).unwrap();
    assert!(!deps.iter().any(|d| d.name == "python"));
    assert!(deps.iter().any(|d| d.name == "requests"));
    assert!(deps.iter().any(|d| d.name == "numpy"));
    assert!(deps.iter().any(|d| d.name == "pytest"));
    assert!(deps.iter().any(|d| d.name == "black"));
    let requests_dep = deps.iter().find(|d| d.name == "requests").unwrap();
    assert!(matches!(requests_dep.version_spec, VersionSpec::Caret(_)));
}

#[test]
fn test_parse_pdm_dependencies() {
    let content = r#"
[project]
name = "myproject"
dependencies = [
    "requests>=2.28.0",
    "numpy==1.24.0",
]

[tool.pdm.dev-dependencies]
test = [
    "pytest>=7.0.0",
]
"#;
    let deps = PyProjectParser::new().parse(content, PATH).unwrap();
    assert!(deps.iter().any(|d| d.name == "requests"));
    assert!(deps.iter().any(|d| d.name == "numpy"));
    assert!(deps.iter().any(|d| d.name == "pytest"));
}

#[test]
fn test_parse_dependency_with_extras() {
    let content = r#"
[project]
dependencies = [
    "requests[security]>=2.28.0",
]
"#;
    let deps = PyProjectParser::new().parse(content, PATH).unwrap();
    assert_eq!(deps.len(), 1);
    assert_eq!(deps[0].name, "requests");
}

#[test]
fn test_parse_dependency_with_markers() {
    let content = r#"
[project]
dependencies = [
    "requests>=2.28.0; python_version >= '3.8'",
]
"#;
    let deps = PyProjectParser::new().parse(content, PATH).unwrap();
    assert_eq!(deps.len(), 1);
    assert_eq!(deps[0].name, "requests");
}

#[test]
fn test_deduplication() {
    let content = r#"
[project]
dependencies = [
    "requests>=2.28.0",
]

[project.optional-dependencies]
dev = [
    "requests>=2.30.0",
]
"#;
    let deps = PyProjectParser::new().parse(content, PATH).unwrap();
    assert_eq!(deps.iter().filter(|d| d.name == "requests").count(), 1);
    assert_eq!(deps[0].version_spec.to_string(), ">=2.28.0");
}

#[test]
fn invalid_toml_is_refused() {
    assert!(PyProjectParser::new().parse("[project\n", PATH).is_none());
}

#[test]
fn dependency_strings() {
    let content = "deps = [\n  \"Typing_Extensions>=4.0\",\n]\n";
    let d = PyProjectParser::parse_dependency_string(" Typing_Extensions>=4.0 ", PATH, content).unwrap();
    assert_eq!(d.name, "typing-extensions");
    assert_eq!(d.line_number, 2);
    let d = PyProjectParser::parse_dependency_string("six", PATH, "").unwrap();
    assert!(matches!(d.version_spec, VersionSpec::Any));
    assert_eq!(d.original_line, "six = \"\"");
    assert!(PyProjectParser::parse_dependency_string("  ", PATH, "").is_none());
    assert!(PyProjectParser::parse_dependency_string("x>=abc", PATH, "").is_none());
}

#[test]
fn declaration_lines_skip_comments() {
    let content = "# requests is great\nrequests = \"^2.0\"\n";
    assert_eq!(
        PyProjectParser::find_line_in_content(content, "requests", "^2.0"),
        (2, "requests = \"^2.0\"".to_string())
    );
}
