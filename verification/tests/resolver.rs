use fwupd_dbus::remote::{
    has_scheme_prefix, resolve_firmware_location, FirmwareLocation, KeyringKind, Remote,
    RemoteKind,
};
use fwupd_dbus::release::find_remote;
use fwupd_dbus::Error;

fn download_remote() -> Remote {
    Remote {
        enabled: true,
        kind: RemoteKind::Download,
        keyring: KeyringKind::GPG,
        firmware_base_uri: Some(b"https://my.fancy.cdn/".to_vec()),
        uri: Some(b"https://s3.amazonaws.com/lvfsbucket/downloads/firmware.xml.gz".to_vec()),
        ..Default::default()
    }
}

fn nopath_remote() -> Remote {
    Remote {
        enabled: true,
        kind: RemoteKind::Download,
        keyring: KeyringKind::GPG,
        uri: Some(b"https://s3.amazonaws.com/lvfsbucket/downloads/firmware.xml.gz".to_vec()),
        ..Default::default()
    }
}

#[test]
fn remote_baseuri() {
    let remote = download_remote();
    let firmware_uri = remote.firmware_uri(&b"http://bbc.co.uk/firmware.cab".to_vec());
    assert_eq!(firmware_uri, b"https://my.fancy.cdn/firmware.cab".to_vec());
}

#[test]
fn remote_nopath() {
    let remote = nopath_remote();
    let firmware_uri = remote.firmware_uri(&b"firmware.cab".to_vec());
    assert_eq!(
        firmware_uri,
        b"https://s3.amazonaws.com/lvfsbucket/downloads/firmware.cab".to_vec()
    );
}

#[test]
fn remote_baseuri_deep_path_kept() {
    let remote = download_remote();
    let firmware_uri = remote.firmware_uri(&b"http://host.example/sub/dir/fw.cab".to_vec());
    assert_eq!(firmware_uri, b"https://my.fancy.cdn/sub/dir/fw.cab".to_vec());
}

#[test]
fn remote_no_base_absolute_unmodified() {
    let remote = nopath_remote();
    let firmware_uri = remote.firmware_uri(&b"http://host.example/fw.cab".to_vec());
    assert_eq!(firmware_uri, b"http://host.example/fw.cab".to_vec());
}

#[test]
fn resolve_local_remote_is_sibling_path() {
    let remote = Remote {
        enabled: true,
        kind: RemoteKind::Local,
        filename_cache: Some(b"/usr/share/fwupd/remotes.d/vendor/firmware.xml".to_vec()),
        ..Default::default()
    };
    let loc = resolve_firmware_location(&remote, &b"firmware.cab".to_vec());
    assert_eq!(
        loc,
        FirmwareLocation::LocalFile(b"/usr/share/fwupd/remotes.d/vendor/firmware.cab".to_vec())
    );
}

#[test]
fn resolve_directory_remote_strips_scheme() {
    let remote = Remote { enabled: true, kind: RemoteKind::Directory, ..Default::default() };
    let loc = resolve_firmware_location(&remote, &b"file:///srv/firmware/fw.cab".to_vec());
    assert_eq!(loc, FirmwareLocation::LocalFile(b"/srv/firmware/fw.cab".to_vec()));
}

#[test]
fn resolve_directory_remote_parses_scheme_of_any_length() {
    let remote = Remote { enabled: true, kind: RemoteKind::Directory, ..Default::default() };
    let loc = resolve_firmware_location(&remote, &b"archive:///srv/firmware/fw.cab".to_vec());
    assert_eq!(loc, FirmwareLocation::LocalFile(b"/srv/firmware/fw.cab".to_vec()));
}

#[test]
fn resolve_download_remote_is_fetch() {
    let remote = download_remote();
    let loc = resolve_firmware_location(&remote, &b"http://bbc.co.uk/firmware.cab".to_vec());
    assert_eq!(loc, FirmwareLocation::Fetch(b"https://my.fancy.cdn/firmware.cab".to_vec()));
}

#[test]
fn resolve_local_kinds_never_fetch() {
    for kind in [RemoteKind::Local, RemoteKind::Directory] {
        let remote = Remote {
            kind,
            filename_cache: Some(b"/var/cache/fwupd/metadata.xml".to_vec()),
            ..Default::default()
        };
        let loc = resolve_firmware_location(&remote, &b"file:///a/b.cab".to_vec());
        assert!(matches!(loc, FirmwareLocation::LocalFile(_)));
    }
}

#[test]
fn find_remote_picks_first_match() {
    let mut a = Remote::default();
    a.remote_id = "lvfs".to_string();
    let mut b = Remote::default();
    b.remote_id = "vendor".to_string();
    let remotes = vec![a, b];
    assert_eq!(find_remote(&remotes, &"vendor".to_string()), Ok(1));
    assert_eq!(find_remote(&remotes, &"lvfs".to_string()), Ok(0));
}

#[test]
fn find_remote_missing_is_remote_not_found() {
    let remotes = vec![Remote::default()];
    assert_eq!(find_remote(&remotes, &"nowhere".to_string()), Err(Error::RemoteNotFound));
}

#[test]
fn scheme_prefix_guard_matches_resolver_assumption() {
    assert!(has_scheme_prefix(&b"file:///srv/fw.cab".to_vec()));
    assert!(has_scheme_prefix(&b"archive://x".to_vec()));
    assert!(!has_scheme_prefix(&b"firmware.cab".to_vec()));
    assert!(!has_scheme_prefix(&b"/srv/fw.cab".to_vec()));
    assert!(!has_scheme_prefix(&b"odd:path".to_vec()));
}
