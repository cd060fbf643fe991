use tgit::dict::Dict;
use tgit::model::{Author, Commit};
use tgit::text::{format_u64, strip_prefix, take_prefix};
use tgit::version::{
    candidates, default_bump, from_version, get_name, kind_of_answer, next_name, option_label,
    BumpKind, NameError, Version,
};

const FROM_ID: &str = "aaaaaaaaaabbbbbbbbbbccccccccccdddddddddd";
const TO_ID: &str = "1234567890123456789012345678901234567890";

fn commit_of(type_: &str, breaking: bool) -> Commit {
    Commit::new(
        "ffffffffffffffffffffffffffffffffffffffff".to_string(),
        type_.to_string(),
        String::new(),
        "something".to_string(),
        breaking,
        vec![Author::new("A".to_string(), "a@a".to_string(), String::new())],
    )
}

fn index_with(entries: &[(&str, &str)]) -> Dict {
    let mut d = Dict::new();
    for (k, v) in entries {
        d.insert(k.to_string(), v.to_string());
    }
    d
}

#[test]
fn format_numbers() {
    assert_eq!(format_u64(0), "0");
    assert_eq!(format_u64(7), "7");
    assert_eq!(format_u64(10), "10");
    assert_eq!(format_u64(1234567890), "1234567890");
    assert_eq!(format_u64(u64::MAX), "18446744073709551615");
}

#[test]
fn strip_and_take() {
    assert_eq!(strip_prefix("v1.2.3", "v"), Some("1.2.3".to_string()));
    assert_eq!(strip_prefix("v1.2.3", ""), Some("v1.2.3".to_string()));
    assert_eq!(strip_prefix("1.2.3", "v"), None);
    assert_eq!(strip_prefix("v", "ver"), None);
    assert_eq!(take_prefix("1234567890", 7), "1234567");
    assert_eq!(take_prefix("123", 7), "123");
    assert_eq!(take_prefix("", 7), "");
}

#[test]
fn bump_candidates() {
    let v = Version::new(1, 2, 3);
    assert_eq!(v.bump(BumpKind::Major), Some(Version::new(2, 0, 0)));
    assert_eq!(v.bump(BumpKind::Minor), Some(Version::new(1, 3, 0)));
    assert_eq!(v.bump(BumpKind::Patch), Some(Version::new(1, 2, 4)));
    assert_eq!(v.format(), "1.2.3");
}

#[test]
fn bump_candidates_are_ordered() {
    let starts = vec![Version::new(0, 0, 0), Version::new(1, 2, 3), Version::new(9, 99, 999)];
    for v in starts {
        let major = v.bump(BumpKind::Major).unwrap();
        let minor = v.bump(BumpKind::Minor).unwrap();
        let patch = v.bump(BumpKind::Patch).unwrap();
        assert!(v.precedes(&patch));
        assert!(patch.precedes(&minor));
        assert!(minor.precedes(&major));
        assert!(!major.precedes(&minor));
        assert!(!v.precedes(&v));
    }
}

#[test]
fn bump_at_the_limit_fails() {
    assert_eq!(Version::new(u64::MAX, 0, 0).bump(BumpKind::Major), None);
    assert_eq!(Version::new(0, u64::MAX, 0).bump(BumpKind::Minor), None);
    assert_eq!(Version::new(0, 0, u64::MAX).bump(BumpKind::Patch), None);
    assert_eq!(
        Version::new(u64::MAX, 0, 0).bump(BumpKind::Minor),
        Some(Version::new(u64::MAX, 1, 0))
    );
    assert_eq!(
        next_name(&Version::new(0, 0, u64::MAX), BumpKind::Patch, "v"),
        Err(NameError::Overflow)
    );
}

#[test]
fn next_names() {
    let v = Version::new(1, 1, 0);
    assert_eq!(next_name(&v, BumpKind::Major, "v"), Ok("v2.0.0".to_string()));
    assert_eq!(next_name(&v, BumpKind::Minor, "v"), Ok("v1.2.0".to_string()));
    assert_eq!(next_name(&v, BumpKind::Patch, ""), Ok("1.1.1".to_string()));
}

#[test]
fn default_increment() {
    assert_eq!(default_bump(true, &vec![commit_of("fix", true)]), BumpKind::Major);
    assert_eq!(default_bump(true, &vec![]), BumpKind::Major);
    assert_eq!(
        default_bump(false, &vec![commit_of("fix", false), commit_of("feat", false)]),
        BumpKind::Minor
    );
    assert_eq!(default_bump(false, &vec![commit_of("fix", false)]), BumpKind::Patch);
    assert_eq!(default_bump(false, &vec![]), BumpKind::Patch);
}

#[test]
fn from_version_reads_the_tag() {
    assert_eq!(from_version(&None, "v"), Ok(Version::new(0, 0, 0)));
    assert_eq!(from_version(&Some("v1.2.3".to_string()), "v"), Ok(Version::new(1, 2, 3)));
    assert_eq!(from_version(&Some("1.2.3".to_string()), ""), Ok(Version::new(1, 2, 3)));
    assert_eq!(
        from_version(&Some("v1.2.3-alpha.1+build.5".to_string()), "v"),
        Ok(Version::new(1, 2, 3))
    );
    assert_eq!(from_version(&Some("1.2.3".to_string()), "v"), Err(NameError::PrefixMismatch));
    assert_eq!(from_version(&Some("ver1.2.3".to_string()), "v"), Err(NameError::NotAVersion));
    assert_eq!(from_version(&Some("v1.2".to_string()), "v"), Err(NameError::NotAVersion));
    assert_eq!(from_version(&Some("v01.2.3".to_string()), "v"), Err(NameError::NotAVersion));
}

#[test]
fn names_when_newer_end_has_a_tag() {
    let c2t = index_with(&[(FROM_ID, "v1.0.0"), (TO_ID, "v1.1.0")]);
    let r = get_name(FROM_ID, TO_ID, "v".to_string(), true, &vec![], &c2t, None);
    assert_eq!(r, Ok(("v1.0.0".to_string(), "v1.1.0".to_string())));
}

#[test]
fn names_without_any_tag() {
    let c2t = Dict::new();
    let r = get_name(FROM_ID, TO_ID, "v".to_string(), false, &vec![], &c2t, None);
    assert_eq!(r, Ok(("aaaaaaa".to_string(), "v0.0.1".to_string())));
    let r = get_name(
        FROM_ID,
        TO_ID,
        "v".to_string(),
        false,
        &vec![commit_of("feat", false)],
        &c2t,
        None,
    );
    assert_eq!(r, Ok(("aaaaaaa".to_string(), "v0.1.0".to_string())));
    let r = get_name(FROM_ID, TO_ID, "".to_string(), true, &vec![], &c2t, None);
    assert_eq!(r, Ok(("aaaaaaa".to_string(), "1.0.0".to_string())));
}

#[test]
fn names_after_a_tagged_release() {
    let c2t = index_with(&[(FROM_ID, "v1.1.0")]);
    let commits = vec![commit_of("feat", false), commit_of("fix", true)];
    let r = get_name(FROM_ID, TO_ID, "v".to_string(), true, &commits, &c2t, None);
    assert_eq!(r, Ok(("v1.1.0".to_string(), "v2.0.0".to_string())));
    let r = get_name(FROM_ID, TO_ID, "v".to_string(), true, &commits, &c2t, Some(BumpKind::Patch));
    assert_eq!(r, Ok(("v1.1.0".to_string(), "v1.1.1".to_string())));
    let r = get_name(FROM_ID, TO_ID, "v".to_string(), false, &commits, &c2t, Some(BumpKind::Major));
    assert_eq!(r, Ok(("v1.1.0".to_string(), "v2.0.0".to_string())));
}

#[test]
fn names_fail_on_a_tag_that_is_no_version() {
    let c2t = index_with(&[(FROM_ID, "release-1")]);
    let r = get_name(FROM_ID, TO_ID, "v".to_string(), false, &vec![], &c2t, None);
    assert_eq!(r, Err(NameError::PrefixMismatch));
    let c2t = index_with(&[(FROM_ID, "vnext")]);
    let r = get_name(FROM_ID, TO_ID, "v".to_string(), false, &vec![], &c2t, None);
    assert_eq!(r, Err(NameError::NotAVersion));
    let c2t = index_with(&[(FROM_ID, "v18446744073709551615.0.0")]);
    let r = get_name(FROM_ID, TO_ID, "v".to_string(), true, &vec![], &c2t, None);
    assert_eq!(r, Err(NameError::Overflow));
}

#[test]
fn names_use_the_latest_entry_for_a_commit() {
    let c2t = index_with(&[(FROM_ID, "v1.0.0"), (FROM_ID, "v1.0.1")]);
    let r = get_name(FROM_ID, TO_ID, "v".to_string(), false, &vec![], &c2t, None);
    assert_eq!(r, Ok(("v1.0.1".to_string(), "v1.0.2".to_string())));
}

#[test]
fn option_labels_and_answers() {
    let v = Version::new(2, 0, 0);
    assert_eq!(option_label(BumpKind::Major, &v), "major (2.0.0)");
    assert_eq!(option_label(BumpKind::Minor, &Version::new(1, 3, 0)), "minor (1.3.0)");
    assert_eq!(option_label(BumpKind::Patch, &Version::new(1, 2, 4)), "patch (1.2.4)");
    assert_eq!(kind_of_answer("major (2.0.0)"), Some(BumpKind::Major));
    assert_eq!(kind_of_answer("minor"), Some(BumpKind::Minor));
    assert_eq!(kind_of_answer("patch (0.0.1)"), Some(BumpKind::Patch));
    assert_eq!(kind_of_answer("other"), None);
    assert_eq!(kind_of_answer(""), None);
}

#[test]
fn dictionary_lookup() {
    let mut d = Dict::new();
    assert_eq!(d.get("a"), None);
    assert!(!d.contains_key("a"));
    d.insert("a".to_string(), "1".to_string());
    d.insert("b".to_string(), "2".to_string());
    d.insert("a".to_string(), "3".to_string());
    assert_eq!(d.get("a"), Some("3".to_string()));
    assert_eq!(d.get("b"), Some("2".to_string()));
    assert_eq!(d.get("c"), None);
    assert!(d.contains_key("b"));
}

#[test]
fn all_three_candidates() {
    assert_eq!(
        candidates(&Version::new(1, 2, 3)),
        Some((Version::new(2, 0, 0), Version::new(1, 3, 0), Version::new(1, 2, 4)))
    );
    assert_eq!(
        candidates(&Version::new(0, 0, 0)),
        Some((Version::new(1, 0, 0), Version::new(0, 1, 0), Version::new(0, 0, 1)))
    );
    assert_eq!(candidates(&Version::new(0, u64::MAX, 0)), None);
    assert_eq!(BumpKind::Major.position(), 0);
    assert_eq!(BumpKind::Minor.position(), 1);
    assert_eq!(BumpKind::Patch.position(), 2);
}
