use cleo::github::releases::{latest_release, releases_from_json, select_releases};
use cleo::github::{same_or_newer, Version, VersionNumber};
use std::cmp::Ordering;

fn n(major: u8, minor: u8, patch: u8) -> VersionNumber {
    VersionNumber { major, minor, patch }
}

#[test]
fn parse_release_and_alpha_tags() {
    assert_eq!(Version::parse("2.1.3"), Some(Version::Release(n(2, 1, 3))));
    assert_eq!(Version::parse("2.1.3-alpha"), Some(Version::Alpha(n(2, 1, 3), 0)));
    assert_eq!(Version::parse("2.1.3-alpha.4"), Some(Version::Alpha(n(2, 1, 3), 4)));
    assert_eq!(Version::parse("+2.01.0"), Some(Version::Release(n(2, 1, 0))));
    assert_eq!(Version::parse("2.1.3-alpha.4-x"), Some(Version::Alpha(n(2, 1, 3), 4)));
}

#[test]
fn parse_refuses_bad_tags() {
    assert_eq!(Version::parse("2.1"), None);
    assert_eq!(Version::parse("2"), None);
    assert_eq!(Version::parse(""), None);
    assert_eq!(Version::parse("2.1.256"), None);
    assert_eq!(Version::parse("2.1.3-beta"), None);
    assert_eq!(Version::parse("2.1.3-alpha.x"), None);
    assert_eq!(Version::parse("v2.1.3"), None);
    assert_eq!(Version::parse("2.1.3.4"), None);
    assert_eq!(Version::parse("2.-1.3"), None);
}

#[test]
fn version_order() {
    let r = Version::Release(n(2, 0, 0));
    let a = Version::Alpha(n(2, 0, 0), 5);
    let b = Version::Alpha(n(2, 0, 0), 6);
    let older = Version::Release(n(1, 9, 9));
    assert_eq!(r.cmp(&a), Ordering::Greater);
    assert_eq!(a.cmp(&r), Ordering::Less);
    assert_eq!(a.cmp(&b), Ordering::Less);
    assert_eq!(older.cmp(&a), Ordering::Less);
    assert_eq!(r.cmp(&r), Ordering::Equal);
    assert_eq!(n(1, 2, 3).cmp(&n(1, 3, 0)), Ordering::Less);
    assert_eq!(n(2, 0, 0).cmp(&n(1, 9, 9)), Ordering::Greater);
    assert!(same_or_newer(&r, &a));
    assert!(!same_or_newer(&a, &r));
    assert!(a.is_alpha());
    assert!(!r.is_alpha());
}

#[test]
fn releases_chosen_and_newest_found() {
    let entries = vec![
        (Some("2.0.0".to_string()), Some("url-a".to_string())),
        (Some("2.1.0-alpha.1".to_string()), Some("url-b".to_string())),
        (Some("nonsense".to_string()), Some("url-c".to_string())),
        (None, Some("url-d".to_string())),
        (Some("2.0.1".to_string()), None),
        (Some("2.0.5".to_string()), Some("url-e".to_string())),
    ];
    let stable = select_releases(&entries, false);
    assert_eq!(stable.len(), 2);
    assert_eq!(stable[0], (Version::Release(n(2, 0, 0)), "url-a".to_string()));
    assert_eq!(stable[1].1, "url-e");
    let all = select_releases(&entries, true);
    assert_eq!(all.len(), 3);
    let newest = latest_release(&all).unwrap();
    assert_eq!(all[newest].1, "url-b");
    let newest_stable = latest_release(&stable).unwrap();
    assert_eq!(stable[newest_stable].1, "url-e");
    assert_eq!(latest_release(&Vec::new()), None);
    let twins = vec![
        (Version::Release(n(1, 0, 0)), "first".to_string()),
        (Version::Release(n(1, 0, 0)), "second".to_string()),
    ];
    assert_eq!(latest_release(&twins), Some(1));
}

#[test]
fn releases_read_from_json() {
    let json = br#"[
        {"tag_name": "2.1.0", "html_url": "https://x/2.1.0", "name": "two one"},
        {"tag_name": "2.2.0-alpha.1", "html_url": "https://x/a1"},
        {"tag_name": "bad", "html_url": "https://x/bad"},
        {"html_url": "https://x/no-tag"},
        {"tag_name": 7, "html_url": "https://x/number"}
    ]"#;
    let stable = releases_from_json(json, false).unwrap();
    assert_eq!(stable.len(), 1);
    assert_eq!(stable[0].1, "https://x/2.1.0");
    let all = releases_from_json(json, true).unwrap();
    assert_eq!(all.len(), 2);
    assert!(all[1].0.is_alpha());
    assert_eq!(releases_from_json(br#"{"tag_name": "2.1.0"}"#, true), None);
    assert_eq!(releases_from_json(b"not json", true), None);
    assert_eq!(releases_from_json(b"[]", true), Some(vec![]));
}
