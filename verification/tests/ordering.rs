use fwupd_dbus::release::{dedup_releases, sort_releases, version_le, Release};

fn rel(version: &str, remote: &str) -> Release {
    Release {
        version: version.to_string(),
        size: 10,
        uri: b"fw.cab".to_vec(),
        checksums: Vec::new(),
        remote_id: remote.to_string(),
    }
}

#[test]
fn version_order_is_lexicographic() {
    assert!(version_le("1.0.2", "1.0.2"));
    assert!(version_le("1.0.2", "1.1"));
    assert!(!version_le("2.0", "1.9"));
    assert!(version_le("", "anything"));
    assert!(!version_le("anything", ""));
}

#[test]
fn releases_sort_by_version() {
    let mut releases = vec![rel("2.0", "a"), rel("0.9", "b"), rel("1.5", "c")];
    sort_releases(&mut releases);
    let versions: Vec<&str> = releases.iter().map(|r| r.version.as_str()).collect();
    assert_eq!(versions, vec!["0.9", "1.5", "2.0"]);
}

#[test]
fn equal_versions_keep_arrival_order() {
    let mut releases = vec![rel("1.0", "first"), rel("0.5", "x"), rel("1.0", "second")];
    sort_releases(&mut releases);
    assert_eq!(releases[0].remote_id, "x");
    assert_eq!(releases[1].remote_id, "first");
    assert_eq!(releases[2].remote_id, "second");
}

#[test]
fn duplicate_records_collapse() {
    let mut releases = vec![rel("1.0", "a"), rel("1.0", "a"), rel("2.0", "b")];
    sort_releases(&mut releases);
    dedup_releases(&mut releases);
    assert_eq!(releases.len(), 2);
    assert_eq!(releases[0].remote_id, "a");
    assert_eq!(releases[0].version, "1.0");
    assert_eq!(releases[1].remote_id, "b");
}

#[test]
fn distinct_records_with_equal_versions_are_kept() {
    let mut releases = vec![rel("1.0", "a"), rel("1.0", "b")];
    sort_releases(&mut releases);
    dedup_releases(&mut releases);
    assert_eq!(releases.len(), 2);
}
