use gdpatch::engine_build::{VersionSpecifier, VersionSpecifierParseError};

fn parts(v: &VersionSpecifier) -> (u32, u32, u32, u32, String) {
    (v.major, v.minor, v.patch, v.sub_patch, v.flavor.clone())
}

#[test]
fn parses_version_specifiers() {
    let v = VersionSpecifier::parse("4.2.1-stable").unwrap();
    assert_eq!(parts(&v), (4, 2, 1, 0, "stable".to_string()));
    let v = VersionSpecifier::parse("4.3-dev-2").unwrap();
    assert_eq!(parts(&v), (4, 3, 0, 0, "dev-2".to_string()));
    let v = VersionSpecifier::parse("3.2.3.1-custom").unwrap();
    assert_eq!(parts(&v), (3, 2, 3, 1, "custom".to_string()));
    let v = VersionSpecifier::parse("+4.0-").unwrap();
    assert_eq!(parts(&v), (4, 0, 0, 0, String::new()));
    let v: VersionSpecifier = "4.4-stable".parse().unwrap();
    assert_eq!(parts(&v), (4, 4, 0, 0, "stable".to_string()));
}

#[test]
fn rejects_bad_version_specifiers() {
    for bad in [
        "4.2.1", "4-stable", "4.2.1.0.1-stable", "4.x-stable", "4..1-stable", "-4.2", "4.-2-x",
        "4.4294967296-stable", " 4.2-stable", "4.2 -stable", "++4.2-x",
    ] {
        assert_eq!(VersionSpecifier::parse(bad), Err(VersionSpecifierParseError), "{}", bad);
    }
    assert!(VersionSpecifier::parse("4.4294967295-stable").is_ok());
}

#[test]
fn writes_version_specifiers() {
    let v = VersionSpecifier::new(4, 0, 0, 0, "stable".to_string());
    assert_eq!(v.to_text(), "4.0-stable");
    let v = VersionSpecifier::new(4, 2, 1, 0, "rc1".to_string());
    assert_eq!(v.to_text(), "4.2.1-rc1");
    let v = VersionSpecifier::new(3, 2, 3, 1, "x".to_string());
    assert_eq!(v.to_text(), "3.2.3.1-x");
    // a zero patch number is left out even when a sub-patch number follows
    let v = VersionSpecifier::new(4, 0, 0, 1, "x".to_string());
    assert_eq!(v.to_text(), "4.0.1-x");
}

#[test]
fn version_text_parses_back() {
    for v in [
        VersionSpecifier::new(4, 0, 0, 0, "stable".to_string()),
        VersionSpecifier::new(4, 2, 1, 0, "rc-1".to_string()),
        VersionSpecifier::new(3, 2, 3, 1, "custom".to_string()),
        VersionSpecifier::new(u32::MAX, 0, 7, 0, String::new()),
    ] {
        assert_eq!(VersionSpecifier::parse(&v.to_text()), Ok(v.clone()));
    }
    let odd = VersionSpecifier::new(4, 0, 0, 1, "x".to_string());
    assert_ne!(VersionSpecifier::parse(&odd.to_text()), Ok(odd.clone()));
}
