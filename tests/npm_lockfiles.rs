use check_updates_core::npm::{LockfileParser, LockfileType};
use check_updates_core::version::Version;

fn get<'a>(v: &'a [(String, Version)], name: &str) -> Option<&'a Version> {
    v.iter().find(|(n, _)| n == name).map(|(_, v)| v)
}

#[test]
fn test_parse_package_lock_v7() {
    let content = r#"{
  "name": "test",
  "lockfileVersion": 3,
  "packages": {
    "": {},
    "node_modules/express": {
      "version": "4.18.2"
    },
    "node_modules/lodash": {
      "version": "4.17.21"
    }
  }
}"#;
    let versions = LockfileParser::new().parse(content, LockfileType::Npm).unwrap();
    assert_eq!(get(&versions, "express").unwrap().to_string(), "4.18.2");
    assert_eq!(get(&versions, "lodash").unwrap().to_string(), "4.17.21");
}

#[test]
fn package_lock_v6_and_nested() {
    let v6 = r#"{"dependencies": {"react": {"version": "17.0.2"}}}"#;
    let versions = LockfileParser::new().parse(v6, LockfileType::Npm).unwrap();
    assert_eq!(get(&versions, "react").unwrap().to_string(), "17.0.2");
    let nested = r#"{"packages": {"node_modules/a/node_modules/b": {"version": "1.0.0"}, "node_modules/@s/c": {"version": "2.0.0"}}}"#;
    let versions = LockfileParser::new().parse(nested, LockfileType::Npm).unwrap();
    assert!(get(&versions, "b").is_none());
    assert_eq!(get(&versions, "@s/c").unwrap().to_string(), "2.0.0");
    assert!(LockfileParser::new().parse("{", LockfileType::Npm).is_none());
}

#[test]
fn pnpm_lock_keys() {
    let content = "lockfileVersion: '9.0'\npackages:\n  express@4.18.2:\n    resolution: {}\n  '@types/node@20.0.0':\n    resolution: {}\nsnapshots:\n  express@4.17.0:\n    dependencies: {}\n  debug@4.3.4(supports-color@8.0.0):\n    dependencies: {}\n";
    let versions = LockfileParser::new().parse(content, LockfileType::Pnpm).unwrap();
    assert_eq!(get(&versions, "express").unwrap().to_string(), "4.18.2");
    assert_eq!(get(&versions, "@types/node").unwrap().to_string(), "20.0.0");
    assert_eq!(get(&versions, "debug").unwrap().to_string(), "4.3.4");
}

#[test]
fn yarn_lock_entries() {
    let content = "# yarn lockfile v1\n\n\"@babel/core@^7.0.0\", \"@babel/core@^7.1.0\":\n  version \"7.22.5\"\n  resolved \"https://x\"\n\nlodash@^4.17.0:\n  version: 4.17.21\n";
    let versions = LockfileParser::new().parse(content, LockfileType::Yarn).unwrap();
    assert_eq!(versions.len(), 2);
    assert_eq!(get(&versions, "@babel/core").unwrap().to_string(), "7.22.5");
    assert_eq!(get(&versions, "lodash").unwrap().to_string(), "4.17.21");
    assert_eq!(LockfileParser::new().parse("", LockfileType::Bun).unwrap().len(), 0);
}
