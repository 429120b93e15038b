use discord_search_bot::version::{compare_versions, is_release, latest_version, version_parts_of};

fn tags(list: &[&str]) -> Vec<String> {
    list.iter().map(|s| s.to_string()).collect()
}

#[test]
fn release_tags() {
    assert!(is_release("1.2.3"));
    assert!(is_release("0.10"));
    assert!(!is_release("latest"));
    assert!(!is_release("v1.2.3"));
    assert!(!is_release("123"));
    assert!(!is_release(""));
    assert!(!is_release("1.2-rc"));
    assert!(!is_release("1.2.3.4.5.6.7.8.9.10.11"));
    assert!(is_release("1.2.3.4.5.6.7.8.9.10"));
}

#[test]
fn parts_and_comparison() {
    assert_eq!(version_parts_of("0.10.2"), vec![0, 10, 2]);
    assert_eq!(version_parts_of("1..3"), vec![1, 0, 3]);
    assert_eq!(version_parts_of("99999999999999999999.1"), vec![0, 1]);
    assert_eq!(compare_versions(&vec![0, 9, 0], &vec![0, 10, 0]), -1);
    assert_eq!(compare_versions(&vec![1, 0], &vec![1, 0, 0]), 0);
    assert_eq!(compare_versions(&vec![2], &vec![1, 9, 9]), 1);
}

#[test]
fn newest_release_is_picked() {
    assert_eq!(
        latest_version(&tags(&["latest", "0.9.0", "0.10.0", "abc", "sha256-deadbeef", "0.2.1"])),
        Some("0.10.0".to_string())
    );
    assert_eq!(latest_version(&tags(&["1.0", "1.0.0"])), Some("1.0.0".to_string()));
    assert_eq!(latest_version(&tags(&["1.0.0", "1.0"])), Some("1.0".to_string()));
    assert_eq!(latest_version(&tags(&["latest", "main"])), None);
    assert_eq!(latest_version(&Vec::new()), None);
}
