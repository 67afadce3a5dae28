use check_updates_core::constraint::VersionSpec;
use check_updates_core::version::Version;
use std::str::FromStr;

fn v(s: &str) -> Version {
    Version::from_str(s).unwrap()
}

#[test]
fn test_parse_version() {
    let v = Version::from_str("1.2.3").unwrap();
    assert_eq!(v.major, 1);
    assert_eq!(v.minor, 2);
    assert_eq!(v.patch, 3);

    let v = Version::from_str("2.0").unwrap();
    assert_eq!(v.major, 2);
    assert_eq!(v.minor, 0);
    assert_eq!(v.patch, 0);
}

#[test]
fn test_version_comparison() {
    let v1 = Version::from_str("1.2.3").unwrap();
    let v2 = Version::from_str("1.2.4").unwrap();
    let v3 = Version::from_str("2.0.0").unwrap();

    assert!(v1 < v2);
    assert!(v2 < v3);
    assert!(v1 < v3);
}

#[test]
fn test_parse_version_spec() {
    assert!(matches!(
        VersionSpec::parse("==1.2.3").unwrap(),
        VersionSpec::Pinned(_)
    ));
    assert!(matches!(
        VersionSpec::parse(">=1.2.3").unwrap(),
        VersionSpec::Minimum(_)
    ));
    assert!(matches!(
        VersionSpec::parse("^1.2.3").unwrap(),
        VersionSpec::Caret(_)
    ));
    assert!(matches!(
        VersionSpec::parse(">=1.0.0,<2.0.0").unwrap(),
        VersionSpec::Range { .. }
    ));
}

#[test]
fn test_satisfies() {
    let spec = VersionSpec::parse(">=1.0.0,<2.0.0").unwrap();
    assert!(spec.satisfies(&Version::from_str("1.5.0").unwrap()));
    assert!(!spec.satisfies(&Version::from_str("2.0.0").unwrap()));
    assert!(!spec.satisfies(&Version::from_str("0.9.0").unwrap()));
}

#[test]
fn parse_keeps_prerelease_local_and_text() {
    let x = v(" 1.4.0rc2+build.7 ");
    assert_eq!((x.major, x.minor, x.patch), (1, 4, 0));
    assert_eq!(x.pre_release.as_deref(), Some("rc2"));
    assert_eq!(x.local.as_deref(), Some("build.7"));
    assert_eq!(x.original, "1.4.0rc2+build.7");
    let y = v("2.0.0-beta.1");
    assert_eq!(y.pre_release.as_deref(), Some("beta.1"));
    let w = v("2.0.0-1");
    assert_eq!(w.pre_release.as_deref(), Some("-1"));
    let z = v("1.0.0RC1");
    assert_eq!(z.pre_release.as_deref(), Some("RC1"));
    let d = v("1.0.dev3");
    assert_eq!(d.pre_release.as_deref(), Some("dev3"));
    assert_eq!((d.major, d.minor, d.patch), (1, 0, 0));
}

#[test]
fn parse_rejects_bad_major() {
    assert!(Version::from_str("").is_err());
    assert!(Version::from_str("abc").is_err());
    assert!(Version::from_str("x1.2").is_err());
    let e = Version::parse("  nope ").unwrap_err();
    assert_eq!(e.to_string(), "Invalid version string: nope");
}

#[test]
fn parse_missing_or_bad_fields_default_to_zero() {
    let x = v("7");
    assert_eq!((x.major, x.minor, x.patch), (7, 0, 0));
    let y = v("3.x.9");
    assert_eq!((y.major, y.minor, y.patch), (3, 0, 9));
    assert!(Version::from_str("+4.1").is_err());
    assert!(Version::from_str("18446744073709551616").is_err());
    assert_eq!(v("18446744073709551615").major, u64::MAX);
}

#[test]
fn prerelease_ranks_below_release() {
    assert!(v("1.0.0-rc1") < v("1.0.0"));
    assert!(v("1.0.0a1") < v("1.0.0b1"));
    assert!(!(v("1.0.0") < v("1.0.0-rc1")));
}

#[test]
fn build_metadata_does_not_count() {
    assert!(v("1.0.0+abc") == v("1.0.0+xyz"));
    assert!(v("1.0.0+abc") == v("1.0.0"));
    assert!(v("1.0.0-rc1") != v("1.0.0"));
}

#[test]
fn ordering_is_total_and_transitive_on_samples() {
    let xs = [
        v("1.2.3"),
        v("1.2.4"),
        v("2.0.0"),
        v("2.0.0rc1"),
        v("2.0.0rc2"),
        v("0.9"),
    ];
    for a in xs.iter() {
        for b in xs.iter() {
            let n = [a < b, a == b, b < a].iter().filter(|t| **t).count();
            assert_eq!(n, 1);
            for c in xs.iter() {
                if a < b && b < c {
                    assert!(a < c);
                }
            }
        }
    }
}

#[test]
fn new_spells_the_numbers() {
    let x = Version::new(10, 0, 305);
    assert_eq!(x.to_string(), "10.0.305");
    assert!(!x.is_prerelease());
    assert!(v("1.0a1").is_prerelease());
    assert!(x.same_major(&v("10.9")));
    assert!(!x.same_minor(&v("10.9")));
    assert!(x.same_minor(&v("10.0.1")));
}

#[test]
fn caret_narrows_towards_zero() {
    let c = VersionSpec::Caret(v("1.2.3"));
    assert!(c.satisfies(&v("1.9.9")));
    assert!(!c.satisfies(&v("2.0.0")));
    assert!(!c.satisfies(&v("1.2.2")));
    let c = VersionSpec::Caret(v("0.2.3"));
    assert!(c.satisfies(&v("0.2.9")));
    assert!(!c.satisfies(&v("0.3.0")));
    let c = VersionSpec::Caret(v("0.0.3"));
    assert!(c.satisfies(&v("0.0.3")));
    assert!(!c.satisfies(&v("0.0.4")));
}

#[test]
fn range_bounds() {
    let spec = VersionSpec::parse(">=1.0.0,<2.0.0").unwrap();
    assert!(spec.satisfies(&v("1.5.0")));
    assert!(!spec.satisfies(&v("2.0.0")));
    assert!(!spec.satisfies(&v("0.9.0")));
    assert!(spec.satisfies(&v("1.0.0")));
}

#[test]
fn parse_each_form() {
    assert!(matches!(VersionSpec::parse("").unwrap(), VersionSpec::Any));
    assert!(matches!(VersionSpec::parse(" * ").unwrap(), VersionSpec::Any));
    assert!(matches!(VersionSpec::parse("~=1.4").unwrap(), VersionSpec::Compatible(_)));
    assert!(matches!(VersionSpec::parse("~1.4").unwrap(), VersionSpec::Tilde(_)));
    assert!(matches!(VersionSpec::parse("<=1.4").unwrap(), VersionSpec::Maximum(_)));
    assert!(matches!(VersionSpec::parse("!=1.4").unwrap(), VersionSpec::NotEqual(_)));
    assert!(matches!(VersionSpec::parse(">1.4").unwrap(), VersionSpec::GreaterThan(_)));
    assert!(matches!(VersionSpec::parse("<1.4").unwrap(), VersionSpec::LessThan(_)));
    assert!(matches!(VersionSpec::parse("1.4.2").unwrap(), VersionSpec::Pinned(_)));
    match VersionSpec::parse("latest").unwrap() {
        VersionSpec::Complex(s) => assert_eq!(s, "latest"),
        other => panic!("unexpected {:?}", other),
    }
    match VersionSpec::parse(">=1.0,<2.0,!=1.5").unwrap() {
        VersionSpec::Complex(s) => assert_eq!(s, ">=1.0,<2.0,!=1.5"),
        other => panic!("unexpected {:?}", other),
    }
    match VersionSpec::parse(">1.0,<2.0").unwrap() {
        VersionSpec::Complex(_) => {}
        other => panic!("unexpected {:?}", other),
    }
    match VersionSpec::parse("==1.2.*").unwrap() {
        VersionSpec::Wildcard { prefix, pattern } => {
            assert_eq!(prefix, "1.2");
            assert_eq!(pattern, "==1.2.*");
        }
        other => panic!("unexpected {:?}", other),
    }
    assert!(VersionSpec::parse("^abc").is_err());
    assert!(VersionSpec::parse(">=1.0,<x").is_err());
}

#[test]
fn satisfies_each_form() {
    let x = v("1.4.2");
    assert!(VersionSpec::parse("==1.4.2").unwrap().satisfies(&x));
    assert!(!VersionSpec::parse("!=1.4.2").unwrap().satisfies(&x));
    assert!(VersionSpec::parse("<=1.4.2").unwrap().satisfies(&x));
    assert!(!VersionSpec::parse("<1.4.2").unwrap().satisfies(&x));
    assert!(VersionSpec::parse(">1.4.1").unwrap().satisfies(&x));
    assert!(VersionSpec::parse("~1.4.0").unwrap().satisfies(&x));
    assert!(!VersionSpec::parse("~1.3.0").unwrap().satisfies(&x));
    assert!(VersionSpec::parse("~=1.4").unwrap().satisfies(&x));
    assert!(VersionSpec::parse("1.4.*").unwrap().satisfies(&x));
    assert!(!VersionSpec::parse("1.5.*").unwrap().satisfies(&x));
    assert!(VersionSpec::parse("whatever goes").unwrap().satisfies(&x));
    assert!(VersionSpec::Any.satisfies(&x));
}

#[test]
fn retarget_keeps_the_form() {
    let n = v("3.1.4");
    for s in ["==1.0", ">=1.0", "<=1.0", ">1.0", "<1.0", "^1.0", "~1.0", "~=1.0", "!=1.0"] {
        let spec = VersionSpec::parse(s).unwrap();
        let r = spec.with_version(&n);
        assert_eq!(std::mem::discriminant(&spec), std::mem::discriminant(&r));
        assert_eq!(r.base_version().unwrap().to_string(), "3.1.4");
    }
    let r = VersionSpec::parse(">=1.0,<2.0").unwrap().with_version(&n);
    assert_eq!(r.to_string(), ">=3.1.4,<4.0.0");
    let r = VersionSpec::parse(">=1.0,<5.0").unwrap().with_version(&n);
    assert_eq!(r.to_string(), ">=3.1.4,<5.0");
    let r = VersionSpec::parse("1.*").unwrap().with_version(&n);
    match r {
        VersionSpec::Wildcard { prefix, pattern } => {
            assert_eq!(prefix, "3.1");
            assert_eq!(pattern, "1.*");
        }
        other => panic!("unexpected {:?}", other),
    }
    assert!(matches!(VersionSpec::Any.with_version(&n), VersionSpec::Any));
}

#[test]
fn helper_queries() {
    let r = VersionSpec::parse(">=1.2,<3.0").unwrap();
    assert_eq!(r.base_version().unwrap().to_string(), "1.2");
    assert_eq!(r.max_major(), Some(3));
    assert_eq!(r.version_string().unwrap(), "1.2");
    let w = VersionSpec::parse("==4.2.*").unwrap();
    assert!(w.base_version().is_none());
    assert_eq!(w.max_major(), Some(4));
    assert_eq!(w.version_string().unwrap(), "4.2.*");
    assert_eq!(w.to_string(), "==4.2.*");
    assert_eq!(VersionSpec::parse("==1.0.0").unwrap().version_string().unwrap(), "1.0.0");
    assert_eq!(VersionSpec::Any.version_string(), None);
    assert_eq!(VersionSpec::Any.max_major(), None);
    assert_eq!(VersionSpec::Any.to_string(), "*");
    assert_eq!(VersionSpec::parse("~=2.1").unwrap().to_string(), "~=2.1");
}
