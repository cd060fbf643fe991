use tgit::dict::Dict;
use tgit::range::{get_from_commit, get_range, latest_tagged, segment_starts, RangeError};
use tgit::tags::{
    from_commit_get_tag, from_tag_get_commit, get_commit_tag_map, list_tags, select_tags,
    version_tag,
};

fn strings(items: &[&str]) -> Vec<String> {
    items.iter().map(|s| s.to_string()).collect()
}

fn tagged(entries: &[(&str, &str)]) -> Dict {
    let mut d = Dict::new();
    for (k, v) in entries {
        d.insert(k.to_string(), v.to_string());
    }
    d
}

#[test]
fn version_tags_are_recognised() {
    assert!(version_tag("1.0.0"));
    assert!(version_tag("v1.0.0"));
    assert!(version_tag("ver1.2.3"));
    assert!(version_tag("v0.0.0"));
    assert!(version_tag("v1.2.3-alpha.1"));
    assert!(version_tag("v1.2.3+build.7"));
    assert!(version_tag("v1.2.3-rc.1+build.7"));
    assert!(version_tag("v10.20.30"));
}

#[test]
fn other_tags_are_not_version_tags() {
    assert!(!version_tag(""));
    assert!(!version_tag("v1"));
    assert!(!version_tag("v1.2"));
    assert!(!version_tag("v1.2.3.4"));
    assert!(!version_tag("v01.2.3"));
    assert!(!version_tag("release-1.2.3"));
    assert!(!version_tag("V1.2.3"));
    assert!(!version_tag("v1.2.3-"));
    assert!(!version_tag("v1.2.3-01"));
    assert!(!version_tag("latest"));
    assert!(!version_tag("v1.2.3 "));
}

#[test]
fn tags_are_filtered_and_reversed() {
    let names = strings(&["latest", "v1.0.0", "nightly", "v1.1.0", "v2.0.0-rc.1", "v2"]);
    assert_eq!(list_tags(&names), strings(&["v2.0.0-rc.1", "v1.1.0", "v1.0.0"]));
    assert_eq!(list_tags(&Vec::new()), Vec::<String>::new());
    assert_eq!(list_tags(&strings(&["a", "b"])), Vec::<String>::new());
}

#[test]
fn select_keeps_flagged_names_last_first() {
    let names = strings(&["a", "b", "c", "d"]);
    assert_eq!(select_tags(&names, &vec![true, false, true, true]), strings(&["d", "c", "a"]));
    assert_eq!(select_tags(&names, &vec![false, false, false, false]), Vec::<String>::new());
}

#[test]
fn tag_maps_are_built() {
    let tags = strings(&["v1.1.0", "v1.0.1", "v1.0.0", "v0.9.0"]);
    let targets = vec![Some("c3".to_string()), Some("c2".to_string()), Some("c2".to_string()), None];
    let (c2t, t2c) = get_commit_tag_map(&tags, &targets);
    assert_eq!(c2t.get("c3"), Some("v1.1.0".to_string()));
    assert_eq!(c2t.get("c2"), Some("v1.0.0".to_string()));
    assert_eq!(c2t.get("c1"), None);
    assert_eq!(t2c.get("v1.1.0"), Some("c3".to_string()));
    assert_eq!(t2c.get("v1.0.1"), Some("c2".to_string()));
    assert_eq!(t2c.get("v1.0.0"), Some("c2".to_string()));
    assert_eq!(t2c.get("v0.9.0"), None);
    assert_eq!(from_tag_get_commit(&t2c, "v1.0.1"), Some("c2".to_string()));
    assert_eq!(from_tag_get_commit(&t2c, "v9.9.9"), None);
}

#[test]
fn tag_of_a_commit() {
    let tags = strings(&["v1.1.0", "v1.0.1", "v1.0.0"]);
    let targets = vec![Some("c3".to_string()), None, Some("c1".to_string())];
    assert_eq!(from_commit_get_tag(&tags, &targets, "c3"), Some("v1.1.0".to_string()));
    assert_eq!(from_commit_get_tag(&tags, &targets, "c1"), Some("v1.0.0".to_string()));
    assert_eq!(from_commit_get_tag(&tags, &targets, "c2"), None);
}

#[test]
fn start_defaults_to_latest_tagged_commit() {
    let walk = strings(&["h4", "h3", "c2", "h1", "c1"]);
    let c2t = tagged(&[("c2", "v1.1.0"), ("c1", "v1.0.0")]);
    assert_eq!(get_from_commit(None, "h4", &walk, &c2t), "c2");
    assert_eq!(latest_tagged("h4", &walk, &c2t), "c2");
    assert_eq!(get_from_commit(Some("h1".to_string()), "h4", &walk, &c2t), "h1");
}

#[test]
fn start_defaults_to_root_without_tags() {
    let walk = strings(&["h3", "h2", "h1"]);
    let c2t = Dict::new();
    assert_eq!(get_from_commit(None, "h3", &walk, &c2t), "h1");
    assert_eq!(get_from_commit(None, "h3", &Vec::new(), &c2t), "h3");
}

#[test]
fn range_of_one_commit_is_empty() {
    let c2t = Dict::new();
    let r = get_range("h1".to_string(), "h1".to_string(), &Vec::new(), &c2t);
    assert_eq!(r, Err(RangeError::EmptyRange));
    assert_eq!(RangeError::EmptyRange.message(), "No commits between from and to.");
}

#[test]
fn range_without_inner_tags_is_one_segment() {
    let c2t = tagged(&[("c2", "v1.1.0")]);
    let walk = strings(&["h4", "h3"]);
    let r = get_range("c2".to_string(), "h4".to_string(), &walk, &c2t);
    assert_eq!(r, Ok(strings(&["h4", "c2"])));
}

#[test]
fn range_is_cut_at_inner_tags() {
    let c2t = tagged(&[("c1", "v1.0.0"), ("c2", "v1.1.0"), ("c3", "v1.2.0"), ("h6", "v2.0.0")]);
    let walk = strings(&["h6", "h5", "c3", "h4", "c2", "h3"]);
    let r = get_range("c1".to_string(), "h6".to_string(), &walk, &c2t).unwrap();
    assert_eq!(r, strings(&["h6", "c3", "c2", "c1"]));
    assert_eq!(r[0], "h6");
    assert_eq!(r[r.len() - 1], "c1");
    assert_eq!(segment_starts(&walk, &r), vec![0, 2, 4, 6]);
}

#[test]
fn segments_part_the_walk() {
    let walk = strings(&["h6", "h5", "c3", "h4", "c2", "h3"]);
    let bounds = strings(&["h6", "c3", "c2", "c1"]);
    let starts = segment_starts(&walk, &bounds);
    let mut joined: Vec<String> = Vec::new();
    for i in 0..starts.len() - 1 {
        joined.extend_from_slice(&walk[starts[i]..starts[i + 1]]);
    }
    assert_eq!(joined, walk);
    assert_eq!(walk[starts[0]..starts[1]].to_vec(), strings(&["h6", "h5"]));
    assert_eq!(walk[starts[1]..starts[2]].to_vec(), strings(&["c3", "h4"]));
    assert_eq!(walk[starts[2]..starts[3]].to_vec(), strings(&["c2", "h3"]));
}

#[test]
fn segment_starts_with_a_boundary_that_is_not_walked() {
    let walk = strings(&["h3", "h2"]);
    let bounds = strings(&["h3", "zz", "h1"]);
    assert_eq!(segment_starts(&walk, &bounds), vec![0, 2, 2]);
    assert_eq!(segment_starts(&Vec::new(), &strings(&["a", "b"])), vec![0, 0]);
}
