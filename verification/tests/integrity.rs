use fwupd_dbus::checksum::{
    checksum_matches, find_best_checksum, verify_payload, Checksum, ChecksumKind,
};
use fwupd_dbus::Error;
use sha2::Digest;

fn ck(kind: ChecksumKind, digest: &str) -> Checksum {
    Checksum { kind, digest: digest.as_bytes().to_vec() }
}

#[test]
fn best_checksum_prefers_strongest() {
    let checksums = vec![
        ck(ChecksumKind::Md5, "c3fcd3d76192e4007dfb496cca67e13b"),
        ck(ChecksumKind::Sha256, "aa"),
        ck(ChecksumKind::Sha1, "bb"),
    ];
    assert_eq!(find_best_checksum(&checksums), Some(1));
}

#[test]
fn best_checksum_deterministic_on_ties() {
    let checksums = vec![
        ck(ChecksumKind::Sha256, "aa"),
        ck(ChecksumKind::Sha256, "bb"),
        ck(ChecksumKind::Sha512, "cc"),
        ck(ChecksumKind::Sha512, "dd"),
    ];
    assert_eq!(find_best_checksum(&checksums), Some(2));
}

#[test]
fn best_checksum_none_when_empty() {
    assert_eq!(find_best_checksum(&Vec::new()), None);
}

#[test]
fn sha256_digest_matches_known_value() {
    let data = b"hello".to_vec();
    let good = ck(
        ChecksumKind::Sha256,
        "2cf24dba5fb0a30e26e83b2ac5b9e29e1b161e5c1fa7425e73043362938b9824",
    );
    assert!(checksum_matches(&data, &good));
}

#[test]
fn md5_digest_matches_known_value() {
    let data = b"abcdefghijklmnopqrstuvwxyz".to_vec();
    let good = ck(ChecksumKind::Md5, "c3fcd3d76192e4007dfb496cca67e13b");
    assert!(checksum_matches(&data, &good));
}

#[test]
fn sha1_digest_matches_known_value() {
    let data = b"abc".to_vec();
    let good = ck(ChecksumKind::Sha1, "a9993e364706816aba3e25717850c26c9cd0d89d");
    assert!(checksum_matches(&data, &good));
}

#[test]
fn sha512_digest_matches_known_value() {
    let data = b"abc".to_vec();
    let good = ck(
        ChecksumKind::Sha512,
        "ddaf35a193617abacc417349ae20413112e6fa4e89a97ea20a9eeee64b55d39a\
         2192992a274fc1a836ba3c23a3feebbd454d4423643ce80e2a9ac94fa54ca49f",
    );
    assert!(checksum_matches(&data, &good));
}

#[test]
fn uppercase_digest_is_case_folded() {
    let data = b"hello".to_vec();
    let good = ck(
        ChecksumKind::Sha256,
        "2CF24DBA5FB0A30E26E83B2AC5B9E29E1B161E5C1FA7425E73043362938B9824",
    );
    assert!(checksum_matches(&data, &good));
}

#[test]
fn wrong_digest_does_not_match() {
    let data = b"hello!".to_vec();
    let good = ck(
        ChecksumKind::Sha256,
        "2cf24dba5fb0a30e26e83b2ac5b9e29e1b161e5c1fa7425e73043362938b9824",
    );
    assert!(!checksum_matches(&data, &good));
}

#[test]
fn verify_payload_passes_on_match() {
    let data = b"hello".to_vec();
    let checksums = vec![ck(
        ChecksumKind::Sha256,
        "2cf24dba5fb0a30e26e83b2ac5b9e29e1b161e5c1fa7425e73043362938b9824",
    )];
    assert_eq!(verify_payload(&data, &checksums), Ok(()));
}

#[test]
fn verify_payload_mismatch_is_distinct_error() {
    let data = b"tampered".to_vec();
    let checksums = vec![ck(
        ChecksumKind::Sha256,
        "2cf24dba5fb0a30e26e83b2ac5b9e29e1b161e5c1fa7425e73043362938b9824",
    )];
    let err = verify_payload(&data, &checksums).unwrap_err();
    assert_eq!(err, Error::FirmwareChecksumMismatch);
    assert_ne!(err, Error::FirmwareGet("request failed".to_string()));
    assert_ne!(err, Error::FirmwareCopy("stream interrupted".to_string()));
}

#[test]
fn verify_payload_skips_without_checksums() {
    let data = b"anything at all".to_vec();
    assert_eq!(verify_payload(&data, &Vec::new()), Ok(()));
}

#[test]
fn verify_payload_empty_body_still_compared() {
    // The SHA-256 digest of the empty byte string.
    let checksums = vec![ck(
        ChecksumKind::Sha256,
        "e3b0c44298fc1c149afbf4c8996fb92427ae41e4649b934ca495991b7852b855",
    )];
    assert_eq!(verify_payload(&Vec::new(), &checksums), Ok(()));
    let other = vec![ck(
        ChecksumKind::Sha256,
        "2cf24dba5fb0a30e26e83b2ac5b9e29e1b161e5c1fa7425e73043362938b9824",
    )];
    assert_eq!(verify_payload(&Vec::new(), &other), Err(Error::FirmwareChecksumMismatch));
}

#[test]
fn verify_payload_picks_strongest_not_first() {
    // The advertised MD5 digest is wrong, the SHA-256 one is right; the
    // stronger algorithm decides.
    let data = b"hello".to_vec();
    let checksums = vec![
        ck(ChecksumKind::Md5, "00000000000000000000000000000000"),
        ck(
            ChecksumKind::Sha256,
            "2cf24dba5fb0a30e26e83b2ac5b9e29e1b161e5c1fa7425e73043362938b9824",
        ),
    ];
    assert_eq!(verify_payload(&data, &checksums), Ok(()));
}

#[test]
fn cache_file_name_is_sha256_hex_of_uri() {
    let uri = b"https://my.fancy.cdn/firmware.cab".to_vec();
    let name = fwupd_dbus::update::cache_file_name(&uri);
    let mut expected = Vec::new();
    for byte in sha2::Sha256::digest(&uri) {
        expected.push(hex_digit(byte >> 4));
        expected.push(hex_digit(byte & 0xf));
    }
    assert_eq!(name, expected);
    assert_eq!(name.len(), 64);
    // Deterministic: the same URI maps to the same cache file.
    assert_eq!(name, fwupd_dbus::update::cache_file_name(&uri));
    // A different URI maps elsewhere.
    assert_ne!(name, fwupd_dbus::update::cache_file_name(&b"https://other/fw.cab".to_vec()));
}

fn hex_digit(n: u8) -> u8 {
    if n < 10 {
        b'0' + n
    } else {
        b'a' + n - 10
    }
}
