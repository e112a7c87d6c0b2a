use fwupd_dbus::checksum::{Checksum, ChecksumKind};
use fwupd_dbus::device::Device;
use fwupd_dbus::flags::effective_flags;
use fwupd_dbus::install::{install_request_for_device, InstallRequest};
use fwupd_dbus::update::{FlashEvent, UpdateRun};
use fwupd_dbus::{Error, InstallFlags, Status};

fn test_device(only_offline: bool) -> Device {
    Device {
        device_id: "a1b2c3".to_string(),
        name: "Example Thunderbolt Controller".to_string(),
        only_offline,
    }
}

#[test]
fn offline_constraint_forces_offline_option() {
    let device = test_device(true);
    let request =
        install_request_for_device(&device, "(user)", &b"/tmp/cache/fw.cab".to_vec(), InstallFlags::empty());
    assert_eq!(request.options[0], ("offline".to_string(), true));
}

#[test]
fn options_omit_absent_flags() {
    let device = test_device(false);
    let request =
        install_request_for_device(&device, "(user)", &b"/tmp/cache/fw.cab".to_vec(), InstallFlags::empty());
    assert!(request.options.is_empty());
}

#[test]
fn options_expand_in_fixed_order() {
    let mut flags = InstallFlags::empty();
    flags.allow_older = true;
    flags.force = true;
    flags.no_history = true;
    let device = test_device(false);
    let request = install_request_for_device(&device, "(user)", &b"/x/fw.cab".to_vec(), flags);
    assert_eq!(
        request.options,
        vec![
            ("allow-older".to_string(), true),
            ("force".to_string(), true),
            ("no-history".to_string(), true),
        ]
    );
    assert_eq!(request.device_id, "a1b2c3");
    assert_eq!(request.reason, "(user)");
    assert_eq!(request.filename, b"/x/fw.cab".to_vec());
}

#[test]
fn effective_flags_only_touch_offline() {
    let mut flags = InstallFlags::empty();
    flags.allow_reinstall = true;
    let forced = effective_flags(flags, true);
    assert!(forced.offline && forced.allow_reinstall);
    assert!(!forced.allow_older && !forced.force && !forced.no_history);
    let kept = effective_flags(flags, false);
    assert!(!kept.offline && kept.allow_reinstall);
}

#[test]
fn fetch_run_emits_ordered_events_with_monotone_progress() {
    let mut events: Vec<FlashEvent> = Vec::new();
    let (mut run, ev) = UpdateRun::begin_fetch(40);
    events.push(ev);
    events.push(run.chunk_written(10));
    events.push(run.chunk_written(0));
    events.push(run.chunk_written(30));
    events.push(run.download_finished());
    run.mark_rewound();
    let data = b"hello".to_vec();
    let checksums = vec![Checksum {
        kind: ChecksumKind::Sha256,
        digest: b"2cf24dba5fb0a30e26e83b2ac5b9e29e1b161e5c1fa7425e73043362938b9824".to_vec(),
    }];
    let (ev, outcome) = run.verify_download(&data, &checksums);
    events.push(ev);
    assert_eq!(outcome, Ok(()));
    run.mark_rewound();
    let device = test_device(false);
    let (ev, request): (FlashEvent, InstallRequest) =
        run.hand_off(&device, "(user)", &b"/cache/fw.cab".to_vec(), InstallFlags::empty());
    events.push(ev);
    assert_eq!(
        events,
        vec![
            FlashEvent::DownloadInitiate(40),
            FlashEvent::DownloadUpdate(10),
            FlashEvent::DownloadUpdate(10),
            FlashEvent::DownloadUpdate(40),
            FlashEvent::DownloadComplete,
            FlashEvent::VerifyingChecksum,
            FlashEvent::FlashInProgress,
        ]
    );
    // Exactly one initiate and one complete, cumulative counts
    // non-decreasing, final count equal to the bytes written.
    let initiates =
        events.iter().filter(|e| matches!(e, FlashEvent::DownloadInitiate(_))).count();
    let completes = events.iter().filter(|e| matches!(e, FlashEvent::DownloadComplete)).count();
    assert_eq!((initiates, completes), (1, 1));
    let updates: Vec<usize> = events
        .iter()
        .filter_map(|e| match e {
            FlashEvent::DownloadUpdate(n) => Some(*n),
            _ => None,
        })
        .collect();
    assert!(updates.windows(2).all(|w| w[0] <= w[1]));
    assert_eq!(updates.last(), Some(&40));
    assert_eq!(request.device_id, "a1b2c3");
}

#[test]
fn fetch_run_aborts_on_checksum_mismatch() {
    let (mut run, _ev) = UpdateRun::begin_fetch(8);
    let _ = run.chunk_written(8);
    let _ = run.download_finished();
    run.mark_rewound();
    let data = b"tampered".to_vec();
    let checksums = vec![Checksum {
        kind: ChecksumKind::Sha256,
        digest: b"2cf24dba5fb0a30e26e83b2ac5b9e29e1b161e5c1fa7425e73043362938b9824".to_vec(),
    }];
    let (_ev, outcome) = run.verify_download(&data, &checksums);
    assert_eq!(outcome, Err(Error::FirmwareChecksumMismatch));
}

#[test]
fn fetch_run_skips_verification_without_checksums() {
    let (mut run, _ev) = UpdateRun::begin_fetch(3);
    let _ = run.chunk_written(3);
    let _ = run.download_finished();
    run.mark_rewound();
    let (ev, outcome) = run.verify_download(&b"abc".to_vec(), &Vec::new());
    assert_eq!(ev, FlashEvent::VerifyingChecksum);
    assert_eq!(outcome, Ok(()));
}

#[test]
fn status_decodes_every_known_code() {
    let expected = [
        Status::Unknown,
        Status::Idle,
        Status::Loading,
        Status::Decompressing,
        Status::DeviceRestart,
        Status::DeviceWrite,
        Status::Scheduling,
        Status::Downloading,
        Status::DeviceRead,
        Status::DeviceErase,
        Status::WaitingForAuth,
        Status::DeviceBusy,
        Status::Shutdown,
    ];
    for (code, status) in expected.iter().enumerate() {
        assert_eq!(Status::from(code as u8), *status);
    }
    // A code out of range falls back to idle.
    assert_eq!(Status::from(200), Status::Idle);
}
