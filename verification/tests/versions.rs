use cargo_up::registry::{newer_versions, BadRegistry, Vers, Versions};
use cargo_up::utils::same_text;
use cargo_up::{normalize, SemverVersion};

fn listed(nums: &[&str]) -> Versions {
    Versions { versions: nums.iter().map(|n| Vers { num: n.to_string(), yanked: false }).collect() }
}

#[test]
fn normalize_turns_hyphens_into_underscores() {
    assert_eq!(normalize("cargo-up"), "cargo_up");
    assert_eq!(normalize("a-b-c"), "a_b_c");
    assert_eq!(normalize("upgradee"), "upgradee");
    assert_eq!(normalize(""), "");
    assert_eq!(normalize("-"), "_");
    assert_eq!(normalize("d\u{e9}j\u{e0}-vu"), "d\u{e9}j\u{e0}_vu");
}

#[test]
fn normalize_twice_is_normalize_once() {
    let once = normalize("ra-ap-text_edit");
    assert_eq!(normalize(&once), once);
    assert!(!once.contains('-'));
}

#[test]
fn same_text_compares_characters() {
    assert!(same_text("print", "print"));
    assert!(!same_text("print", "print_err"));
    assert!(same_text("", ""));
}

#[test]
fn parse_reads_numbers_and_tags() {
    let v = SemverVersion::parse("1.2.3-alpha.1+build5").unwrap();
    assert_eq!(v.major(), 1);
    assert_eq!(v.minor(), 2);
    assert_eq!(v.patch(), 3);
    assert_eq!(v.pre(), "alpha.1");
    assert_eq!(v.build(), "build5");
    let plain = SemverVersion::parse("0.3.0").unwrap();
    assert!(plain.same(&SemverVersion::new(0, 3, 0)));
    assert_eq!(plain.pre(), "");
    assert_eq!(plain.build(), "");
}

#[test]
fn parse_refuses_what_is_no_version() {
    assert!(SemverVersion::parse("1.2").is_err());
    assert!(SemverVersion::parse("").is_err());
    assert!(SemverVersion::parse("01.2.3").is_err());
    assert!(SemverVersion::parse("a.b.c").is_err());
}

#[test]
fn versions_are_ordered_by_numbers_then_tags() {
    let v = |s: &str| SemverVersion::parse(s).unwrap();
    assert!(v("0.1.9").less_than(&v("0.2.0")));
    assert!(!v("0.2.0").less_than(&v("0.1.9")));
    assert!(v("0.2.0").less_than(&v("0.2.1")));
    assert!(v("1.9.9").less_than(&v("2.0.0")));
    assert!(v("0.10.0").less_than(&v("0.11.0")));
    assert!(!v("0.2.0").less_than(&v("0.2.0")));
    assert!(v("1.0.0-alpha").less_than(&v("1.0.0")));
    assert!(!v("1.0.0").less_than(&v("1.0.0-alpha")));
    assert!(v("1.0.0-alpha").less_than(&v("1.0.0-alpha.1")));
    assert!(v("1.0.0-beta.2").less_than(&v("1.0.0-beta.11")));
    assert!(v("1.0.0-rc.1").less_than(&v("1.0.1-alpha")));
}

#[test]
fn same_tells_versions_apart_by_tags() {
    let v = |s: &str| SemverVersion::parse(s).unwrap();
    assert!(v("1.0.0").same(&v("1.0.0")));
    assert!(!v("1.0.0").same(&v("1.0.0-alpha")));
    assert!(!v("1.0.0+a").same(&v("1.0.0+b")));
    assert!(v("1.0.0-x+y").duplicate().same(&v("1.0.0-x+y")));
}

#[test]
fn newer_versions_come_oldest_first() {
    let current = SemverVersion::new(0, 2, 0);
    let found = newer_versions(&listed(&["0.4.0", "0.3.1", "0.3.0", "0.2.0", "0.1.0"]), &current).unwrap();
    let nums: Vec<(u64, u64, u64)> = found.iter().map(|v| (v.major(), v.minor(), v.patch())).collect();
    assert_eq!(nums, vec![(0, 3, 0), (0, 3, 1), (0, 4, 0)]);
}

#[test]
fn newer_versions_of_the_newest_are_none() {
    let current = SemverVersion::new(0, 4, 0);
    assert!(newer_versions(&listed(&["0.4.0", "0.3.0"]), &current).unwrap().is_empty());
    assert!(newer_versions(&listed(&[]), &current).unwrap().is_empty());
}

#[test]
fn newer_versions_fail_on_a_bad_number() {
    let current = SemverVersion::new(0, 2, 0);
    assert_eq!(newer_versions(&listed(&["0.4.0", "oops", "0.3.0"]), &current).unwrap_err(), BadRegistry {});
    assert_eq!(newer_versions(&listed(&["0.1"]), &current).unwrap_err(), BadRegistry {});
}

#[test]
fn order_agrees_with_the_semver_crate() {
    let texts = [
        "0.0.0", "0.0.1", "0.1.0", "0.1.9", "0.2.0", "0.2.0-rc.1", "0.10.0", "1.0.0-alpha", "1.0.0-alpha.1",
        "1.0.0-alpha.beta", "1.0.0-beta", "1.0.0-beta.2", "1.0.0-beta.11", "1.0.0-rc.1", "1.0.0", "1.0.0+build",
        "1.0.0+build.2", "1.40.0", "2.0.0", "18446744073709551615.0.0",
    ];
    for a in texts {
        for b in texts {
            let ours = SemverVersion::parse(a).unwrap().less_than(&SemverVersion::parse(b).unwrap());
            let theirs = semver::Version::parse(a).unwrap() < semver::Version::parse(b).unwrap();
            assert_eq!(ours, theirs, "{} < {}", a, b);
            assert_eq!(SemverVersion::parse(a).unwrap().to_text(), semver::Version::parse(a).unwrap().to_string());
            let same = SemverVersion::parse(a).unwrap().same(&SemverVersion::parse(b).unwrap());
            assert_eq!(same, semver::Version::parse(a).unwrap() == semver::Version::parse(b).unwrap());
        }
    }
}

#[test]
fn versions_are_written_as_they_are_read() {
    assert_eq!(SemverVersion::new(0, 0, 0).to_text(), "0.0.0");
    assert_eq!(SemverVersion::new(1, 40, 0).to_text(), "1.40.0");
    assert_eq!(SemverVersion::new(10, 200, 3005).to_text(), "10.200.3005");
    assert_eq!(SemverVersion::new(u64::MAX, 9, 10).to_text(), "18446744073709551615.9.10");
    assert_eq!(SemverVersion::parse("1.2.3-alpha.1+build5").unwrap().to_text(), "1.2.3-alpha.1+build5");
    assert_eq!(SemverVersion::parse("1.2.3+build5").unwrap().to_text(), "1.2.3+build5");
    assert_eq!(SemverVersion::parse("1.2.3-rc.0").unwrap().to_text(), "1.2.3-rc.0");
}
