use uvm_core::{fetch_matching_version, Identifier, SemVer, Version, VersionRequirement, VersionType};

fn numbers(s: &SemVer) -> (u64, u64, u64) {
    (s.major, s.minor, s.patch)
}

fn pre_text(s: &SemVer) -> Vec<String> {
    s.pre
        .iter()
        .map(|id| match id {
            Identifier::Numeric(n) => n.to_string(),
            Identifier::AlphaNumeric(t) => t.clone(),
        })
        .collect()
}

#[test]
fn as_semver_of_final_release_has_no_prerelease() {
    let s = Version::f(2019, 3, 0, 1).as_semver();
    assert_eq!(numbers(&s), (2019, 3, 0));
    assert!(s.pre.is_empty());
}

#[test]
fn as_semver_of_beta_release_carries_type_and_revision() {
    let s = Version::b(2019, 3, 0, 7).as_semver();
    assert_eq!(numbers(&s), (2019, 3, 0));
    assert_eq!(pre_text(&s), vec!["b".to_string(), "7".to_string()]);
    assert!(matches!(s.pre[1], Identifier::Numeric(7)));
}

#[test]
fn base_has_no_prerelease() {
    let s = Version::a(1, 2, 3, 4).base();
    assert_eq!(numbers(&s), (1, 2, 3));
    assert!(s.pre.is_empty());
}

#[test]
fn requirement_parse_keeps_text_and_rejects_garbage() {
    let r = VersionRequirement::parse(">= 2018.1").unwrap();
    assert_eq!(r.as_str(), ">= 2018.1");
    assert!(VersionRequirement::parse("not a requirement !!").is_none());
}

#[test]
fn requirement_matches_plain_versions() {
    let r = VersionRequirement::parse(">= 2018.1, < 2019").unwrap();
    assert!(r.matches(&Version::f(2018, 2, 0, 1).base()));
    assert!(!r.matches(&Version::f(2019, 1, 0, 1).base()));
    assert!(!r.matches(&Version::b(2018, 2, 0, 1).as_semver()));
}

#[test]
fn matching_semver_marks_less_stable_releases() {
    let v = Version::b(2018, 2, 0, 3);
    assert!(v.matching_semver(VersionType::Final).pre.len() == 2);
    assert!(v.matching_semver(VersionType::Beta).pre.is_empty());
    assert!(v.matching_semver(VersionType::Alpha).pre.is_empty());
}

fn sample_versions() -> Vec<Version> {
    vec![
        Version::f(2017, 4, 1, 1),
        Version::f(2018, 1, 0, 2),
        Version::f(2018, 2, 5, 1),
        Version::p(2018, 2, 5, 3),
        Version::b(2018, 3, 0, 4),
        Version::a(2018, 4, 0, 1),
        Version::f(2019, 1, 0, 1),
    ]
}

#[test]
fn fetch_newest_final_release_in_range() {
    let r = VersionRequirement::parse(">= 2018.1, < 2019").unwrap();
    let v = fetch_matching_version(&sample_versions(), &r, VersionType::Final);
    assert_eq!(v, Some(Version::f(2018, 2, 5, 1)));
}

#[test]
fn fetch_admits_less_stable_releases_when_asked_for() {
    let r = VersionRequirement::parse(">= 2018.1, < 2019").unwrap();
    let v = fetch_matching_version(&sample_versions(), &r, VersionType::Alpha);
    assert_eq!(v, Some(Version::a(2018, 4, 0, 1)));
    let v = fetch_matching_version(&sample_versions(), &r, VersionType::Beta);
    assert_eq!(v, Some(Version::b(2018, 3, 0, 4)));
    let v = fetch_matching_version(&sample_versions(), &r, VersionType::Patch);
    assert_eq!(v, Some(Version::f(2018, 2, 5, 1)));
    let only_patch = vec![Version::f(2017, 1, 0, 1), Version::p(2018, 2, 5, 3)];
    let v = fetch_matching_version(&only_patch, &r, VersionType::Patch);
    assert_eq!(v, Some(Version::p(2018, 2, 5, 3)));
    assert_eq!(fetch_matching_version(&only_patch, &r, VersionType::Final), None);
}

#[test]
fn fetch_with_no_match_is_none() {
    let r = VersionRequirement::parse(">= 2030").unwrap();
    assert_eq!(fetch_matching_version(&sample_versions(), &r, VersionType::Final), None);
    assert_eq!(fetch_matching_version(&Vec::new(), &r, VersionType::Final), None);
}

#[test]
fn fetch_is_independent_of_order_of_input() {
    let r = VersionRequirement::parse("*").unwrap();
    let mut versions = sample_versions();
    versions.reverse();
    assert_eq!(fetch_matching_version(&versions, &r, VersionType::Final), Some(Version::f(2019, 1, 0, 1)));
}

#[test]
fn lowering_the_release_type_never_gives_an_older_choice() {
    let r = VersionRequirement::parse(">= 2018.1, < 2019").unwrap();
    let vs = sample_versions();
    let types = [VersionType::Alpha, VersionType::Beta, VersionType::Patch, VersionType::Final];
    for (i, lower) in types.iter().enumerate() {
        for higher in types[i..].iter() {
            let v2 = fetch_matching_version(&vs, &r, *higher);
            let v1 = fetch_matching_version(&vs, &r, *lower);
            if let Some(v2) = v2 {
                assert!(v1.unwrap() >= v2);
            }
        }
    }
}

#[test]
fn as_semver_keeps_the_order_of_versions() {
    let versions = [
        Version::a(1, 2, 3, 9),
        Version::b(1, 2, 3, 1),
        Version::p(1, 2, 3, 0),
        Version::p(1, 2, 3, 10),
        Version::f(1, 2, 3, 0),
        Version::f(1, 2, 3, 7),
        Version::a(1, 2, 4, 0),
        Version::f(2, 0, 0, 0),
    ];
    for a in versions.iter() {
        for b in versions.iter() {
            if a <= b {
                let sa = uvm_core_semver(a);
                let sb = uvm_core_semver(b);
                assert!(sa <= sb, "{:?} {:?}", a, b);
            }
        }
    }
}

fn uvm_core_semver(v: &Version) -> semver::Version {
    let s = v.as_semver();
    semver::Version {
        major: s.major,
        minor: s.minor,
        patch: s.patch,
        pre: s
            .pre
            .iter()
            .map(|id| match id {
                Identifier::Numeric(n) => semver::Identifier::Numeric(*n),
                Identifier::AlphaNumeric(t) => semver::Identifier::AlphaNumeric(t.clone()),
            })
            .collect(),
        build: Vec::new(),
    }
}
