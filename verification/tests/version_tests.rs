use monger::util::{get_from_str, parse_major_minor_version, parse_version};
use monger::version::{select_newer_version, Version};

#[test]
fn plain_version_round_trips() {
    let v = Version::parse("4.2.6").unwrap();
    assert_eq!(v.major, 4);
    assert_eq!(v.minor, 2);
    assert_eq!(v.patch, 6);
    assert_eq!(v.version_string(), "4.2.6");
}

#[test]
fn large_plain_version_round_trips() {
    let v = Version::parse("10.200.3001").unwrap();
    assert_eq!(v.version_string(), "10.200.3001");
}

#[test]
fn largest_component_round_trips() {
    let v = Version::parse("18446744073709551615.0.0").unwrap();
    assert_eq!(v.major, u64::MAX);
    assert_eq!(v.version_string(), "18446744073709551615.0.0");
}

#[test]
fn overflowing_component_is_rejected() {
    assert!(Version::parse("18446744073709551616.0.0").is_none());
}

#[test]
fn version_with_metadata_round_trips() {
    let v = Version::parse("1.2.3-rc.1+build.07").unwrap();
    assert_eq!(v.pre, vec!["rc".to_string(), "1".to_string()]);
    assert_eq!(v.build, vec!["build".to_string(), "07".to_string()]);
    assert_eq!(v.version_string(), "1.2.3-rc.1+build.07");
}

#[test]
fn malformed_versions_are_rejected() {
    assert!(Version::parse("").is_none());
    assert!(Version::parse("1.2").is_none());
    assert!(Version::parse("1.2.3.4").is_none());
    assert!(Version::parse("01.2.3").is_none());
    assert!(Version::parse("1.02.3").is_none());
    assert!(Version::parse("1.2.3-").is_none());
    assert!(Version::parse("1.2.3-rc..1").is_none());
    assert!(Version::parse("1.2.3-01").is_none());
    assert!(Version::parse("1.2.3+").is_none());
    assert!(Version::parse("v1.2.3").is_none());
    assert!(Version::parse("1.2.3 ").is_none());
}

#[test]
fn build_metadata_may_lead_with_zero() {
    assert!(Version::parse("1.2.3+01").is_some());
}

#[test]
fn precedence_orders_triples() {
    let a = Version::new(3, 4, 6);
    let b = Version::new(3, 5, 0);
    assert!(a.precedes(&b));
    assert!(!b.precedes(&a));
    assert!(!a.precedes(&a));
}

#[test]
fn pre_release_precedes_plain_release() {
    let rc = Version::parse("4.0.5-rc1").unwrap();
    let plain = Version::parse("4.0.5").unwrap();
    assert!(rc.precedes(&plain));
    assert!(!plain.precedes(&rc));
}

#[test]
fn pre_release_lists_order_pairwise() {
    let alpha = Version::parse("1.2.3-alpha").unwrap();
    let alpha1 = Version::parse("1.2.3-alpha.1").unwrap();
    let beta = Version::parse("1.2.3-beta").unwrap();
    let two = Version::parse("1.2.3-2").unwrap();
    let eleven = Version::parse("1.2.3-11").unwrap();
    assert!(alpha.precedes(&alpha1));
    assert!(alpha1.precedes(&beta));
    assert!(two.precedes(&eleven));
    assert!(two.precedes(&alpha));
}

#[test]
fn build_metadata_does_not_order() {
    let a = Version::parse("1.2.3+alpha").unwrap();
    let b = Version::parse("1.2.3+beta").unwrap();
    assert!(!a.precedes(&b));
    assert!(!b.precedes(&a));
}

#[test]
fn select_newer_version_keeps_the_newer() {
    let old = Version::new(3, 4, 6);
    let new = Version::new(3, 4, 7);
    let kept = select_newer_version(Some(old), new);
    assert_eq!(kept.version_string(), "3.4.7");

    let old = Version::new(3, 4, 8);
    let new = Version::new(3, 4, 7);
    let kept = select_newer_version(Some(old), new);
    assert_eq!(kept.version_string(), "3.4.8");

    let found = Version::new(1, 0, 0);
    let kept = select_newer_version(None, found);
    assert_eq!(kept.version_string(), "1.0.0");
}

#[test]
fn major_minor_shorthand_parses() {
    assert_eq!(parse_major_minor_version("4.2"), Some((4, 2)));
    assert_eq!(parse_major_minor_version("0.10"), Some((0, 10)));
    assert_eq!(parse_major_minor_version("4.2.0"), None);
    assert_eq!(parse_major_minor_version("4"), None);
    assert_eq!(parse_major_minor_version("4."), None);
    assert_eq!(parse_major_minor_version(".2"), None);
    assert_eq!(parse_major_minor_version("a.2"), None);
    assert_eq!(parse_major_minor_version("latest"), None);
}

#[test]
fn get_from_str_reads_numerals() {
    assert_eq!(get_from_str("0"), Some(0));
    assert_eq!(get_from_str("42"), Some(42));
    assert_eq!(get_from_str(""), None);
    assert_eq!(get_from_str("4x"), None);
    assert_eq!(get_from_str("18446744073709551615"), Some(u64::MAX));
    assert_eq!(get_from_str("18446744073709551616"), None);
}

#[test]
fn parse_version_maps_failure_to_version_not_found() {
    assert!(parse_version("3.4.6").is_ok());
    match parse_version("nope") {
        Err(monger::error::Error::VersionNotFound { version }) => assert_eq!(version, "nope"),
        _ => panic!("expected VersionNotFound"),
    }
}

#[test]
fn stability_follows_minor_parity_and_metadata() {
    assert!(Version::new(4, 2, 0).is_stable());
    assert!(!Version::new(4, 3, 0).is_stable());
    assert!(!Version::parse("4.2.0-rc0").unwrap().is_stable());
    assert!(Version::new(4, 3, 0).is_plain());
}
