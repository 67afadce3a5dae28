use check_updates_core::cargo::CargoTomlParser;

#[test]
fn test_parse_simple_deps() {
    let content = r#"
[package]
name = "test"
version = "0.1.0"
[dependencies]
serde = "1.0"
tokio = { version = "1.0", features = ["full"] }
"#;
    let deps = CargoTomlParser::new().parse(content, "Cargo.toml").unwrap();
    assert_eq!(deps.len(), 2);
    let serde_dep = deps.iter().find(|d| d.name == "serde").unwrap();
    assert_eq!(serde_dep.version_spec.version_string().unwrap(), "1.0");
    let tokio_dep = deps.iter().find(|d| d.name == "tokio").unwrap();
    assert_eq!(tokio_dep.version_spec.version_string().unwrap(), "1.0");
    assert_eq!(serde_dep.line_number, 6);
    assert_eq!(serde_dep.original_line, "serde = \"1.0\"");
}

#[test]
fn cargo_toml_test_skip_git_deps() {
    let content = r#"
[dependencies]
serde = "1.0"
my-crate = { git = "https://github.com/foo/bar" }
local-crate = { path = "../local" }
"#;
    let deps = CargoTomlParser::new().parse(content, "Cargo.toml").unwrap();
    assert_eq!(deps.len(), 1);
    assert_eq!(deps[0].name, "serde");
}

#[test]
fn test_parse_dev_and_build_deps() {
    let content = r#"
[dependencies]
serde = "1.0"
[dev-dependencies]
tempfile = "3.0"
[build-dependencies]
cc = "1.0"
"#;
    let deps = CargoTomlParser::new().parse(content, "Cargo.toml").unwrap();
    assert_eq!(deps.len(), 3);
    assert!(deps.iter().any(|d| d.name == "serde"));
    assert!(deps.iter().any(|d| d.name == "tempfile"));
    assert!(deps.iter().any(|d| d.name == "cc"));
}

#[test]
fn cargo_line_numbers_and_targets() {
    let content = "[dependencies]\nserde_json = \"1\"\nserde = \"1.0\"\n\n[target.'cfg(unix)'.dependencies]\nlibc = \"0.2\"\n";
    assert_eq!(CargoTomlParser::find_line_number(content, "serde"), 3);
    assert_eq!(CargoTomlParser::find_line_number(content, "rand"), 1);
    let deps = CargoTomlParser::new().parse(content, "Cargo.toml").unwrap();
    assert!(deps.iter().any(|d| d.name == "libc" && d.line_number == 6));
    assert!(CargoTomlParser::new().can_parse("/x/Cargo.toml"));
    assert!(!CargoTomlParser::new().can_parse("/x/Cargo.lock"));
}
