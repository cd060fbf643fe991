use tgit::aggregate::RawCommit;
use tgit::dict::Dict;
use tgit::model::Author;
use tgit::range::{get_from_commit, RangeError};
use tgit::run::{check_repository, resolved_ref, tgit, RunError};
use tgit::version::NameError;

fn bob() -> Author {
    Author::new("Bob".to_string(), "bob@example.com".to_string(), "bob".to_string())
}

fn made(hash: &str, subject: &str) -> RawCommit {
    RawCommit {
        hash: hash.to_string(),
        subject: subject.to_string(),
        body: String::new(),
        author: bob(),
    }
}

fn ids(raws: &Vec<RawCommit>) -> Vec<String> {
    raws.iter().map(|r| r.hash.clone()).collect()
}

#[test]
fn test_empty() {
    if let Err(err) = check_repository(true, true, false) {
        assert_eq!(err.message(), "The repository is empty.");
    } else {
        panic!("an empty repository was accepted");
    }
}

#[test]
fn test_has_untracked() {
    if let Err(err) = check_repository(false, true, true) {
        assert_eq!(err.message(), "The repository has untracked files.");
    } else {
        panic!("untracked files were accepted");
    }
}

#[test]
fn test_no_tag() {
    let history = vec![made("aaaaaaaa", "feat: only commit")];
    let c2t = Dict::new();
    let from = get_from_commit(None, "aaaaaaaa", &ids(&history), &c2t);
    assert_eq!(from, "aaaaaaaa");
    let r = tgit(from, "aaaaaaaa".to_string(), &Vec::new(), &c2t, &Dict::new(), "", "");
    if let Err(err) = r {
        assert_eq!(err.message(), "No commits between from and to.");
    } else {
        panic!("a range without commits was accepted");
    }
}

#[test]
fn test_with_tag() {
    let history = vec![
        made("cccccccccc", "fix: after the tag"),
        made("bbbbbbbbbb", "feat: tagged"),
        made("aaaaaaaaaa", "chore: first"),
    ];
    let mut c2t = Dict::new();
    c2t.insert("bbbbbbbbbb".to_string(), "v0.1.0".to_string());
    let from = get_from_commit(None, "cccccccccc", &ids(&history), &c2t);
    assert_eq!(from, "bbbbbbbbbb");
    let walk: Vec<RawCommit> = history.into_iter().take(1).collect();
    let r = tgit(from, "cccccccccc".to_string(), &walk, &c2t, &Dict::new(), "v", "");
    let expected = String::from("\n## v0.1.1\n\n")
        + "\n### :bug: Bug Fixes\n\n"
        + "- after the tagccccccc - by @bob\n"
        + "\n### :busts_in_silhouette: Contributors\n\n"
        + "- Bob (@bob)\n";
    assert_eq!(r, Ok((expected, "v0.1.1".to_string())));
}

#[test]
fn repository_checks_come_in_order() {
    assert_eq!(check_repository(false, true, false), Ok(()));
    assert_eq!(check_repository(true, false, true), Err(RunError::EmptyRepository));
    assert_eq!(check_repository(false, false, true), Err(RunError::NotClean));
    assert_eq!(check_repository(false, false, false), Err(RunError::NotClean));
    assert_eq!(check_repository(false, true, true), Err(RunError::Untracked));
}

#[test]
fn every_error_has_its_message() {
    assert_eq!(RunError::EmptyRepository.message(), "The repository is empty.");
    assert_eq!(RunError::NotClean.message(), "The repository is not clean.");
    assert_eq!(RunError::Untracked.message(), "The repository has untracked files.");
    assert_eq!(RunError::UnresolvableRef.message(), "The reference names no commit.");
    assert_eq!(RunError::HistoryFetch.message(), "The remote history could not be fetched.");
    assert_eq!(resolved_ref(None), Err(RunError::UnresolvableRef));
    assert_eq!(resolved_ref(Some("abc".to_string())), Ok("abc".to_string()));
    assert_eq!(
        RunError::Range(RangeError::EmptyRange).message(),
        "No commits between from and to."
    );
    assert_eq!(
        RunError::Name(NameError::PrefixMismatch).message(),
        "The tag does not start with the prefix."
    );
    assert_eq!(
        RunError::Name(NameError::NotAVersion).message(),
        "The tag is not a semantic version."
    );
    assert_eq!(
        RunError::Name(NameError::Overflow).message(),
        "The version is too large to increment."
    );
}

#[test]
fn run_over_several_releases() {
    let walk = vec![
        made("h5h5h5h5h5", "feat!: five"),
        made("c4c4c4c4c4", "feat: four"),
        made("h3h3h3h3h3", "nothing to classify"),
        made("c2c2c2c2c2", "fix(core): two"),
    ];
    let mut c2t = Dict::new();
    c2t.insert("c4c4c4c4c4".to_string(), "v1.1.0".to_string());
    c2t.insert("c2c2c2c2c2".to_string(), "v1.0.1".to_string());
    c2t.insert("c1c1c1c1c1".to_string(), "v1.0.0".to_string());
    let r = tgit(
        "c1c1c1c1c1".to_string(),
        "h5h5h5h5h5".to_string(),
        &walk,
        &c2t,
        &Dict::new(),
        "v",
        "",
    );
    let expected = String::from("\n## v2.0.0\n\n")
        + "\n### :sparkles: Breaking Changes\n\n- fiveh5h5h5h - by @bob\n"
        + "\n### :busts_in_silhouette: Contributors\n\n- Bob (@bob)\n"
        + "\n## v1.1.0\n\n"
        + "\n### :sparkles: Features\n\n- fourc4c4c4c - by @bob\n"
        + "\n### :busts_in_silhouette: Contributors\n\n- Bob (@bob)\n"
        + "\n## v1.0.1\n\n"
        + "\n### :bug: Bug Fixes\n\n- **core** twoc2c2c2c - by @bob\n"
        + "\n### :busts_in_silhouette: Contributors\n\n- Bob (@bob)\n";
    assert_eq!(r, Ok((expected, "v2.0.0".to_string())));
}

#[test]
fn run_fails_where_the_tag_is_no_version() {
    let walk = vec![made("h2", "fix: two")];
    let mut c2t = Dict::new();
    c2t.insert("c1".to_string(), "v1.0".to_string());
    let r = tgit("c1".to_string(), "h2".to_string(), &walk, &c2t, &Dict::new(), "v", "");
    assert_eq!(r, Err(RunError::Name(NameError::NotAVersion)));
}
