use check_updates_core::npm::PackageJsonParser;

#[test]
fn test_parse_dependencies() {
    let content = r#"{
  "name": "test",
  "dependencies": {
    "express": "^4.18.0",
    "lodash": "~4.17.0"
  },
  "devDependencies": {
    "typescript": "^5.0.0"
  }
}"#;
    let deps = PackageJsonParser::new().parse(content, "package.json").unwrap();
    assert_eq!(deps.len(), 3);
    let express = deps.iter().find(|d| d.name == "express").unwrap();
    assert_eq!(express.version_spec.version_string().unwrap(), "4.18.0");
    assert_eq!(express.line_number, 4);
    assert_eq!(express.original_line, "    \"express\": \"^4.18.0\",");
}

#[test]
fn package_json_test_skip_git_deps() {
    let content = r#"{
  "dependencies": {
    "express": "^4.18.0",
    "my-pkg": "git+https://github.com/user/repo.git",
    "local": "file:../local"
  }
}"#;
    let deps = PackageJsonParser::new().parse(content, "package.json").unwrap();
    assert_eq!(deps.len(), 1);
    assert_eq!(deps[0].name, "express");
}

#[test]
fn registry_versions() {
    assert!(PackageJsonParser::is_registry_version("^1.0.0"));
    assert!(!PackageJsonParser::is_registry_version("workspace:*"));
    assert!(!PackageJsonParser::is_registry_version("user/repo#github:x"));
    assert!(!PackageJsonParser::is_registry_version("https://x.org/a.tgz"));
    assert!(PackageJsonParser::new().parse("{", "package.json").is_none());
}
