use regex::Regex;
use uvm_core::{Version, VersionType};

fn version_regex() -> Regex {
    Regex::new(r"([0-9]{1,4})\.([0-9]{1,4})\.([0-9]{1,4})(f|p|b|a)([0-9]{1,4})").unwrap()
}

fn by_regex(pattern: &Regex, s: &str) -> Option<Version> {
    let caps = pattern.captures(s)?;
    let n = |i: usize| caps.get(i).unwrap().as_str().parse::<u64>().unwrap();
    let t = match caps.get(4).unwrap().as_str() {
        "f" => VersionType::Final,
        "p" => VersionType::Patch,
        "b" => VersionType::Beta,
        _ => VersionType::Alpha,
    };
    Some(Version::new(n(1), n(2), n(3), t, n(5)))
}

#[test]
fn scanner_agrees_with_the_regular_expression() {
    let inputs = [
        "", "dsd", "1.2", "1.2.3", "1.2.3g2", "1.2.3f4", "0.0.0f43", "0.0.0f0", "12345.2.3f4",
        "1.23456.3f4", "1.2.34567f8", "1.2.3f45678", "x1.2.3a4x", "2019.3.0f1 2018.1.0b2",
        "1..2.3f4", "1.2..3f4", "1.2.3ff4", "..1.2.3p9", "99999.99999.9999.9999.1f1",
        "Unity 2017.4.10f1 (abc)", "1.2.3f", "1.2.3f4.5.6b7", "a1.b2.c3", "١.٢.٣f٤ 4.5.6b1",
    ];
    let pattern = version_regex();
    for s in inputs.iter() {
        assert_eq!(Version::from_str(s).ok(), by_regex(&pattern, s), "{}", s);
    }
}

#[test]
fn scanner_agrees_on_generated_texts() {
    let pattern = version_regex();
    let pieces = ["1", "22", "333", "4444", "55555", ".", "f", "b", "x", " "];
    for a in pieces.iter() {
        for b in pieces.iter() {
            for c in pieces.iter() {
                for d in pieces.iter() {
                    let s = format!("{}.{}.3{}{}", a, b, c, d);
                    assert_eq!(Version::from_str(&s).ok(), by_regex(&pattern, &s), "{}", s);
                    let t = format!("{}{}.{}{}p1", a, b, c, d);
                    assert_eq!(Version::from_str(&t).ok(), by_regex(&pattern, &t), "{}", t);
                }
            }
        }
    }
}
