use lodestone_cli::error::UpdateError;
use lodestone_cli::text::decimal_string;
use lodestone_cli::text::same_text;
use lodestone_cli::text::trim;
use lodestone_cli::text::trim_start_matches;
use lodestone_cli::version::Precedence;
use lodestone_cli::version::Version;
use lodestone_cli::version::VersionWithV;
use lodestone_cli::version::MAX_TAG_CHARS;

fn outside_order(a: &str, b: &str) -> Precedence {
    let x = semver::Version::parse(a).unwrap();
    let y = semver::Version::parse(b).unwrap();
    match x.cmp(&y) {
        std::cmp::Ordering::Less => Precedence::Lower,
        std::cmp::Ordering::Equal => Precedence::Same,
        std::cmp::Ordering::Greater => Precedence::Higher,
    }
}

#[test]
fn parse_reads_the_five_parts() {
    let v = Version::parse("1.2.3-alpha.1+build.5").unwrap();
    assert_eq!(v.major(), 1);
    assert_eq!(v.minor(), 2);
    assert_eq!(v.patch(), 3);
    assert_eq!(v.pre(), "alpha.1");
    assert_eq!(v.build(), "build.5");
    assert!(v.is_prerelease());
    let w = Version::parse("10.0.7").unwrap();
    assert_eq!((w.major(), w.minor(), w.patch()), (10, 0, 7));
    assert_eq!(w.pre(), "");
    assert_eq!(w.build(), "");
    assert!(!w.is_prerelease());
}

#[test]
fn parse_rejects_what_is_no_semantic_version() {
    for text in [
        "",
        "1.0",
        "1.0.01",
        "1.0.unknown",
        "1.0.0-",
        "1.0.0+",
        "1.0.0-alpha_123",
        "1.0.0-01",
        "23456789999999999999.0.0",
        "v1.0.0",
        " 1.0.0",
        "1.0.0 ",
        "1.0.0-a..b",
    ] {
        assert_eq!(Version::parse(text).unwrap_err(), UpdateError::MalformedVersionTag, "{text}");
    }
}

#[test]
fn parse_agrees_with_semver_on_acceptance() {
    for text in ["1.0.0", "1.0.0-0", "1.0.0-00", "1.0.0+00", "1.0.0-a.0b.-", "01.0.0", "1.0.0-é", "1.2.3.4", "0.0.0"] {
        assert_eq!(Version::parse(text).is_ok(), semver::Version::parse(text).is_ok(), "{text}");
    }
}

#[test]
fn long_identifiers_are_read() {
    assert!(MAX_TAG_CHARS >= 1 << 30);
    let long = format!("1.0.0-{}", "a".repeat(5000));
    assert_eq!(Version::parse(&long).unwrap().pre().len(), 5000);
}

#[test]
fn new_makes_a_release() {
    let v = Version::new(4, 5, 6);
    assert_eq!(v.to_string(), "4.5.6");
    assert!(!v.is_prerelease());
    assert_eq!(v.compare(&Version::parse("4.5.6").unwrap()), Precedence::Same);
}

#[test]
fn clone_keeps_the_content() {
    let v = Version::parse("1.2.3-rc.1+b7").unwrap();
    let w = v.clone();
    assert_eq!(w.to_string(), "1.2.3-rc.1+b7");
    assert_eq!(v.compare(&w), Precedence::Same);
}

#[test]
fn text_form_round_trips() {
    for text in [
        "0.0.0",
        "1.2.3",
        "10.20.30",
        "1.0.0-alpha",
        "1.0.0+meta",
        "1.0.0-rc.1+build.7",
        "18446744073709551615.0.0",
    ] {
        let v = Version::parse(text).unwrap();
        assert_eq!(v.to_string(), text);
        assert_eq!(v.to_string(), semver::Version::parse(text).unwrap().to_string());
    }
}

#[test]
fn decimal_string_writes_base_ten() {
    assert_eq!(decimal_string(0), "0");
    assert_eq!(decimal_string(7), "7");
    assert_eq!(decimal_string(10), "10");
    assert_eq!(decimal_string(1234567890), "1234567890");
    assert_eq!(decimal_string(u64::MAX), "18446744073709551615");
}

#[test]
fn tagged_version_drops_and_adds_the_v() {
    let v = VersionWithV::from_str("v0.4.2").unwrap();
    assert_eq!(v.to_string(), "v0.4.2");
    assert_eq!(VersionWithV::from_str("vvv1.0.0").unwrap().to_string(), "v1.0.0");
    assert_eq!(VersionWithV::from_str("1.0.0").unwrap().to_string(), "v1.0.0");
    assert_eq!(VersionWithV::from_str("x1.0.0").unwrap_err(), UpdateError::MalformedVersionTag);
    assert_eq!(VersionWithV::from_str("V1.0.0").unwrap_err(), UpdateError::MalformedVersionTag);
    assert_eq!(VersionWithV::from_str("v").unwrap_err(), UpdateError::MalformedVersionTag);
    assert_eq!(VersionWithV::from_str("1.0.0v").unwrap_err(), UpdateError::MalformedVersionTag);
}

#[test]
fn tagged_version_converts_both_ways() {
    let tagged = VersionWithV::from_version(Version::new(1, 2, 3));
    assert_eq!(tagged.to_string(), "v1.2.3");
    assert_eq!(tagged.clone().into_version().to_string(), "1.2.3");
    assert_eq!(tagged.0.to_string(), "1.2.3");
}

#[test]
fn precedence_follows_semver() {
    let chain = [
        "1.0.0-alpha",
        "1.0.0-alpha.1",
        "1.0.0-alpha.beta",
        "1.0.0-beta",
        "1.0.0-beta.2",
        "1.0.0-beta.11",
        "1.0.0-rc.1",
        "1.0.0",
        "1.0.0+a",
        "1.0.0+b",
        "1.0.1",
        "1.5.0",
        "1.19.0",
        "2.0.0",
    ];
    for i in 0..chain.len() {
        for j in 0..chain.len() {
            let a = Version::parse(chain[i]).unwrap();
            let b = Version::parse(chain[j]).unwrap();
            let expected = if i < j {
                Precedence::Lower
            } else if i == j {
                Precedence::Same
            } else {
                Precedence::Higher
            };
            assert_eq!(a.compare(&b), expected, "{} vs {}", chain[i], chain[j]);
            assert_eq!(a.compare(&b), outside_order(chain[i], chain[j]));
        }
    }
}

#[test]
fn build_identifiers_are_ordered_as_semver_orders_them() {
    let builds = ["1.0.0+0", "1.0.0+00", "1.0.0+1", "1.0.0+01", "1.0.0+2", "1.0.0+10", "1.0.0+1a0", "1.0.0+a", "1.0.0+a.1"];
    for a in builds {
        for b in builds {
            let x = Version::parse(a).unwrap();
            let y = Version::parse(b).unwrap();
            assert_eq!(x.compare(&y), outside_order(a, b), "{a} vs {b}");
        }
    }
}

#[test]
fn a_prerelease_stands_below_its_release() {
    let pre = Version::parse("2.1.0-rc.3").unwrap();
    let release = Version::parse("2.1.0").unwrap();
    assert_eq!(pre.compare(&release), Precedence::Lower);
    assert_eq!(release.compare(&pre), Precedence::Higher);
}

#[test]
fn trim_start_matches_agrees_with_std() {
    for s in ["", "v", "vv", "v1", "vvv1.0", "1v", "xv", "väv", "ävv"] {
        assert_eq!(trim_start_matches(s, 'v'), s.trim_start_matches('v'), "{s:?}");
    }
    assert_eq!(trim_start_matches("ääb", 'ä'), "b");
}

#[test]
fn trim_agrees_with_std() {
    let spaces = [
        '\u{9}', '\u{a}', '\u{b}', '\u{c}', '\u{d}', ' ', '\u{85}', '\u{a0}', '\u{1680}', '\u{2000}',
        '\u{2001}', '\u{2002}', '\u{2003}', '\u{2004}', '\u{2005}', '\u{2006}', '\u{2007}', '\u{2008}',
        '\u{2009}', '\u{200a}', '\u{2028}', '\u{2029}', '\u{202f}', '\u{205f}', '\u{3000}',
    ];
    for c in spaces {
        assert!(c.is_whitespace());
        let s = format!("{c}{c}yes{c}");
        assert_eq!(trim(&s), "yes");
        assert_eq!(trim(&s), s.trim());
    }
    for c in ['\u{8}', '\u{e}', '\u{1f}', '\u{200b}', '\u{feff}', '\u{180e}', '\u{2060}', 'a', '\u{84}', '\u{86}'] {
        assert!(!c.is_whitespace());
        let s = format!("{c} x {c}");
        assert_eq!(trim(&s), s.as_str());
        assert_eq!(trim(&s), s.trim());
    }
    for s in ["", " ", "   ", "a", " a", "a ", " a b ", "\n\ta b\r\n", "é \u{a0}"] {
        assert_eq!(trim(s), s.trim(), "{s:?}");
    }
}

#[test]
fn same_text_compares_characters() {
    assert!(same_text("", ""));
    assert!(same_text("exe", "exe"));
    assert!(!same_text("exe", "EXE"));
    assert!(!same_text("exe", "exe "));
    assert!(!same_text("é", "e"));
}

#[test]
fn versions_compare_with_the_operators() {
    let a = Version::parse("1.2.0").unwrap();
    let b = Version::parse("1.3.0-rc.1").unwrap();
    let c = Version::parse("1.3.0").unwrap();
    assert!(a < b && b < c && a < c);
    assert!(c > b && b >= a && a <= a);
    assert!(a == a.clone());
    assert!(a != b);
    assert!(Version::parse("1.0.0+a").unwrap() != Version::parse("1.0.0+b").unwrap());
    assert!(Version::parse("1.0.0+a").unwrap() < Version::parse("1.0.0+b").unwrap());
    assert_eq!(a.partial_cmp(&b), Some(std::cmp::Ordering::Less));
    assert_eq!(c.partial_cmp(&b), Some(std::cmp::Ordering::Greater));
    assert_eq!(b.partial_cmp(&b), Some(std::cmp::Ordering::Equal));
}

#[test]
fn tagged_versions_compare_and_convert_as_versions_do() {
    let a: VersionWithV = "v1.2.0".parse().unwrap();
    let b: VersionWithV = "1.3.0".parse().unwrap();
    assert!(a < b);
    assert!(a == VersionWithV::from(Version::new(1, 2, 0)));
    assert!("version one".parse::<VersionWithV>().is_err());
    let plain: Version = Version::from(b);
    assert_eq!(plain.to_string(), "1.3.0");
}
