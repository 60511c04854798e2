use std::cmp::Ordering;

use uvm_core::{Version, VersionType};

#[test]
fn parse_version_string_with_valid_input() {
    let version_string = "1.2.3f4";
    let version = Version::from_str(version_string);
    assert!(version.is_ok(), "valid input returns a version")
}

#[test]
fn splits_version_string_into_components() {
    let version_string = "1.2.3f4";
    let version = Version::from_str(version_string).ok().unwrap();

    assert!(version.major() == 1, "parse correct major component");
    assert!(version.minor() == 2, "parse correct minor component");
    assert!(version.patch() == 3, "parse correct patch component");

    assert_eq!(*version.release_type(), VersionType::Final);
    assert!(version.revision() == 4, "parse correct revision component");
}

#[test]
fn orders_version_final_release_greater_than_patch() {
    let version_a = Version::from_str("1.2.3f4").ok().unwrap();
    let version_b = Version::from_str("1.2.3p4").ok().unwrap();
    assert_eq!(Ordering::Greater, version_a.cmp(&version_b));
}

#[test]
fn orders_version_patch_release_greater_than_beta() {
    let version_a = Version::from_str("1.2.3p4").ok().unwrap();
    let version_b = Version::from_str("1.2.3b4").ok().unwrap();
    assert_eq!(Ordering::Greater, version_a.cmp(&version_b));
}

#[test]
fn orders_version_final_release_greater_than_beta() {
    let version_a = Version::from_str("1.2.3f4").ok().unwrap();
    let version_b = Version::from_str("1.2.3b4").ok().unwrap();
    assert_eq!(Ordering::Greater, version_a.cmp(&version_b));
}

#[test]
fn orders_version_all_equak() {
    let version_a = Version::from_str("1.2.3f4").ok().unwrap();
    let version_b = Version::from_str("1.2.3f4").ok().unwrap();
    assert_eq!(Ordering::Equal, version_a.cmp(&version_b));
}

#[test]
fn orders_version_major_smaller() {
    let version_a = Version::from_str("1.2.3f4").ok().unwrap();
    let version_b = Version::from_str("0.2.3f4").ok().unwrap();
    assert_eq!(Ordering::Greater, version_a.cmp(&version_b));
}

#[test]
fn orders_version_minor_smaller() {
    let version_a = Version::from_str("1.2.3f4").ok().unwrap();
    let version_b = Version::from_str("1.1.3f4").ok().unwrap();
    assert_eq!(Ordering::Greater, version_a.cmp(&version_b));
}

#[test]
fn orders_version_patch_smaller() {
    let version_a = Version::from_str("1.2.3f4").ok().unwrap();
    let version_b = Version::from_str("1.2.2f4").ok().unwrap();
    assert_eq!(Ordering::Greater, version_a.cmp(&version_b));
}

#[test]
fn orders_version_revision_smaller() {
    let version_a = Version::from_str("1.2.3f4").ok().unwrap();
    let version_b = Version::from_str("1.2.3f3").ok().unwrap();
    assert_eq!(Ordering::Greater, version_a.cmp(&version_b));
}

// Inputs that hold no version.

#[test]
fn when_version_is_empty() {
    assert!(Version::from_str("dsd").is_err(), "invalid input returns None")
}

#[test]
fn when_version_is_a_random_string() {
    assert!(Version::from_str("sdfrersdfgsdf").is_err(), "invalid input returns None")
}

#[test]
fn when_version_is_a_short_version() {
    assert!(Version::from_str("1.2").is_err(), "invalid input returns None")
}

#[test]
fn when_version_is_semver() {
    assert!(Version::from_str("1.2.3").is_err(), "invalid input returns None")
}

#[test]
fn when_version_contains_unknown_release_type() {
    assert!(Version::from_str("1.2.3g2").is_err(), "invalid input returns None")
}

#[test]
fn when_version_has_single_digits() {
    assert!(Version::from_str("1.2.3f4").is_ok(), "valid input returns a version")
}

#[test]
fn when_version_has_long_digits() {
    assert!(Version::from_str("0.0.0f43").is_ok(), "valid input returns a version")
}

#[test]
fn when_version_has_only_zero_digits() {
    assert!(Version::from_str("0.0.0f0").is_ok(), "valid input returns a version")
}

#[test]
fn empty_text_holds_no_version() {
    assert!(Version::from_str("").is_err());
}

#[test]
fn error_message_of_a_mismatch() {
    let e = Version::from_str("nothing here").unwrap_err();
    assert_eq!(e.to_string(), "Failed to match version pattern to input");
}

// Where the pattern is searched for.

#[test]
fn reads_version_inside_surrounding_text() {
    let v = Version::from_str("Unity 2019.1.2f1 (abcdef)").unwrap();
    assert_eq!(v, Version::f(2019, 1, 2, 1));
}

#[test]
fn starts_inside_a_long_run_of_digits() {
    let v = Version::from_str("12345.2.3f4").unwrap();
    assert_eq!(v, Version::f(2345, 2, 3, 4));
}

#[test]
fn revision_takes_at_most_four_digits() {
    let v = Version::from_str("1.2.3b456789").unwrap();
    assert_eq!(v, Version::b(1, 2, 3, 4567));
}

#[test]
fn five_digit_minor_is_skipped_for_a_later_match() {
    assert!(Version::from_str("1.23456.3f4").is_err());
    let v = Version::from_str("1.23456.3f4 and 5.6.7a8").unwrap();
    assert_eq!(v, Version::a(5, 6, 7, 8));
}

#[test]
fn the_leftmost_version_wins() {
    let v = Version::from_str("2017.1.0p2 2018.2.0f1").unwrap();
    assert_eq!(v, Version::p(2017, 1, 0, 2));
}

#[test]
fn non_ascii_text_around_a_version() {
    let v = Version::from_str("версия 5.6.7a8 ✓").unwrap();
    assert_eq!(v, Version::a(5, 6, 7, 8));
}

#[test]
fn missing_revision_is_no_version() {
    assert!(Version::from_str("1.2.3f").is_err());
    assert!(Version::from_str("1.2.3fx").is_err());
}

#[test]
fn leading_zeros_are_read_as_decimal() {
    let v = Version::from_str("0001.0002.0003f0004").unwrap();
    assert_eq!(v, Version::f(1, 2, 3, 4));
}

// Laws on concrete values.

#[test]
fn text_round_trip() {
    let samples = [
        Version::f(2019, 3, 0, 1),
        Version::p(2017, 4, 10, 12),
        Version::b(0, 0, 0, 0),
        Version::a(9999, 9999, 9999, 9999),
        Version::new(5, 6, 7, VersionType::Beta, 8),
    ];
    for v in samples.iter() {
        let text = v.to_string();
        assert_eq!(Version::from_str(&text).unwrap(), *v);
    }
}

#[test]
fn version_text_form() {
    assert_eq!(Version::f(2019, 3, 0, 1).to_string(), "2019.3.0f1");
    assert_eq!(Version::p(2017, 4, 10, 12).to_string(), "2017.4.10p12");
    assert_eq!(Version::b(0, 0, 0, 0).to_string(), "0.0.0b0");
    assert_eq!(Version::a(18446744073709551615, 1, 2, 3).to_string(), "18446744073709551615.1.2a3");
}

#[test]
fn parses_version_back_to_original() {
    let values = [0u64, 1, 9, 10, 99, 100, 999, 1000, 4321, 9998];
    for &major in values.iter() {
        for &minor in values.iter() {
            for &(patch, revision) in [(0u64, 0u64), (7, 9998), (1234, 1)].iter() {
                let v1 = Version::f(major, minor, patch, revision);
                let text = format!("{:04}.{:04}.{:04}f{:04}", major, minor, patch, revision);
                let v2 = Version::from_str(&text).ok().unwrap();
                assert_eq!(v1, v2);
            }
        }
    }
}

#[test]
fn parses_all_valid_versions() {
    let numbers = ["0", "7", "42", "123", "9999", "0001"];
    let letters = ["f", "p", "b", "a"];
    for a in numbers.iter() {
        for b in numbers.iter() {
            for l in letters.iter() {
                let text = format!("{}.{}.{}{}{}", a, b, a, l, b);
                assert!(Version::from_str(&text).is_ok(), "{}", text);
            }
        }
    }
}

#[test]
fn create_version_from_tuple() {
    for &(major, minor, patch, revision) in [(0u64, 0u64, 0u64, 0u64), (2019, 3, 0, 1), (9998, 1, 2, 3)].iter() {
        let v2: Version = (major, minor, patch, revision).into();
        assert_eq!(Version::f(major, minor, patch, revision), v2);
        assert_eq!(*v2.release_type(), VersionType::Final);
        assert_eq!((v2.major(), v2.minor(), v2.patch(), v2.revision()), (major, minor, patch, revision));
    }
}

#[test]
fn create_version_final_versions() {
    let v = Version::f(1, 2, 3, 4);
    assert_eq!(v, Version::new(1, 2, 3, VersionType::Final, 4));
}

#[test]
fn create_version_beta_versions() {
    let v = Version::b(1, 2, 3, 4);
    assert_eq!(v, Version::new(1, 2, 3, VersionType::Beta, 4));
}

#[test]
fn create_version_alpha_versions() {
    let v = Version::a(1, 2, 3, 4);
    assert_eq!(v, Version::new(1, 2, 3, VersionType::Alpha, 4));
}

#[test]
fn create_version_patch_versions() {
    let v = Version::p(1, 2, 3, 4);
    assert_eq!(v, Version::new(1, 2, 3, VersionType::Patch, 4));
}

#[test]
fn getters_give_the_components() {
    let v = Version::new(7, 8, 9, VersionType::Patch, 10);
    assert_eq!((v.major(), v.minor(), v.patch(), v.revision()), (7, 8, 9, 10));
    assert_eq!(*v.release_type(), VersionType::Patch);
}

#[test]
fn verified_order_agrees_with_cmp() {
    let versions = [
        Version::a(1, 2, 3, 4),
        Version::b(1, 2, 3, 4),
        Version::p(1, 2, 3, 4),
        Version::f(1, 2, 3, 4),
        Version::f(1, 2, 3, 5),
        Version::a(1, 2, 4, 0),
        Version::f(1, 3, 0, 0),
        Version::a(2, 0, 0, 0),
        Version::f(0, 9, 9, 9),
    ];
    for a in versions.iter() {
        for b in versions.iter() {
            assert_eq!(a.order_with(b), a.cmp(b));
            assert_eq!(a.partial_cmp(b), Some(a.cmp(b)));
            assert_eq!(b.order_with(a), a.order_with(b).reverse());
        }
    }
}

#[test]
fn release_types_order_from_alpha_to_final() {
    assert!(VersionType::Alpha < VersionType::Beta);
    assert!(VersionType::Beta < VersionType::Patch);
    assert!(VersionType::Patch < VersionType::Final);
    assert_eq!(VersionType::Final.partial_cmp(&VersionType::Final), Some(Ordering::Equal));
    assert!(Version::f(1, 0, 0, 0) > Version::p(1, 0, 0, 9));
    assert!(Version::a(1, 0, 1, 0) > Version::f(1, 0, 0, 9));
}

#[test]
fn version_type_names() {
    assert_eq!(VersionType::Final.to_string(), "f");
    assert_eq!(VersionType::Patch.to_string(), "p");
    assert_eq!(VersionType::Beta.to_string(), "b");
    assert_eq!(VersionType::Alpha.to_string(), "a");
    assert_eq!(VersionType::Final.to_alternate_string(), "final");
    assert_eq!(VersionType::Patch.to_alternate_string(), "patch");
    assert_eq!(VersionType::Beta.to_alternate_string(), "beta");
    assert_eq!(VersionType::Alpha.to_alternate_string(), "alpha");
    assert_eq!(VersionType::from_release_char('b'), Some(VersionType::Beta));
    assert_eq!(VersionType::from_release_char('x'), None);
}

#[test]
fn default_version_type_is_final() {
    assert_eq!(VersionType::default(), VersionType::Final);
}
