//! Checksum records published with a release, the deterministic choice of
//! the strongest advertised algorithm, and verification of downloaded
//! bytes against the chosen digest.
//!
//! The digests themselves are computed by outside hash implementations;
//! each is reached through one trusted wrapper whose result is named by an
//! uninterpreted function, and everything around the call is verified.

use vstd::prelude::*;
use crate::bytes::bytes_eq;
use crate::error::Error;
use sha1::Digest;

verus! {

/// A digest algorithm a release may advertise, ordered by preference:
/// a stronger algorithm is always chosen over a weaker one.
#[derive(Clone, Copy, Debug, PartialEq, Eq, Structural)]
pub enum ChecksumKind {
    Md5,
    Sha1,
    Sha256,
    Sha512,
}

/// One advertised `(algorithm, digest)` pair; the digest is ASCII hex.
#[derive(Debug, PartialEq)]
pub struct Checksum {
    pub kind: ChecksumKind,
    pub digest: Vec<u8>,
}

/// The fixed preference order among the supported algorithms.
pub open spec fn spec_rank(kind: ChecksumKind) -> int {
    match kind {
        ChecksumKind::Md5 => 1,
        ChecksumKind::Sha1 => 2,
        ChecksumKind::Sha256 => 3,
        ChecksumKind::Sha512 => 4,
    }
}

/// The index of the first checksum of maximal rank: the deterministic
/// choice of the strongest advertised algorithm, independent of how often
/// it occurs.
pub open spec fn best_checksum_idx(s: Seq<Checksum>) -> int
    decreases s.len(),
{
    if s.len() <= 1 {
        0
    } else {
        let b = best_checksum_idx(s.drop_last());
        if spec_rank(s.last().kind) > spec_rank(s[b].kind) {
            s.len() - 1
        } else {
            b
        }
    }
}

/// The chosen index is in range, carries a maximal rank, and is the first
/// index of that rank.
pub proof fn lemma_best_checksum_is_strongest(s: Seq<Checksum>)
    requires
        s.len() > 0,
    ensures
        0 <= best_checksum_idx(s) < s.len(),
        forall|j: int|
            0 <= j < s.len() ==> #[trigger] spec_rank(s[j].kind) <= spec_rank(
                s[best_checksum_idx(s)].kind,
            ),
        forall|j: int|
            0 <= j < best_checksum_idx(s) ==> #[trigger] spec_rank(s[j].kind) < spec_rank(
                s[best_checksum_idx(s)].kind,
            ),
    decreases s.len(),
{
    if s.len() > 1 {
        lemma_best_checksum_is_strongest(s.drop_last());
        assert(forall|j: int| 0 <= j < s.len() - 1 ==> s.drop_last()[j] == s[j]);
    }
}

/// Picks the strongest advertised checksum, or `None` when the release
/// advertises none.
pub fn find_best_checksum(checksums: &Vec<Checksum>) -> (r: Option<usize>)
    ensures
        r is None <==> checksums@.len() == 0,
        r matches Some(i) ==> i < checksums.len() && i as int == best_checksum_idx(checksums@),
{
    if checksums.len() == 0 {
        return None;
    }
    let mut best: usize = 0;
    let mut j: usize = 1;
    proof {
        assert(checksums@.take(1).len() == 1);
    }
    while j < checksums.len()
        invariant
            1 <= j <= checksums@.len(),
            best < j,
            best as int == best_checksum_idx(checksums@.take(j as int)),
        decreases checksums@.len() - j,
    {
        proof {
            assert(checksums@.take(j + 1).drop_last() =~= checksums@.take(j as int));
            assert(checksums@.take(j + 1).last() == checksums@[j as int]);
        }
        if rank(checksums[j].kind) > rank(checksums[best].kind) {
            best = j;
        }
        j = j + 1;
    }
    proof {
        assert(checksums@.take(checksums@.len() as int) =~= checksums@);
    }
    Some(best)
}

/// The preference rank of an algorithm.
pub fn rank(kind: ChecksumKind) -> (r: u8)
    ensures
        r as int == spec_rank(kind),
{
    match kind {
        ChecksumKind::Md5 => 1,
        ChecksumKind::Sha1 => 2,
        ChecksumKind::Sha256 => 3,
        ChecksumKind::Sha512 => 4,
    }
}

/// The MD5 digest of the input bytes.
pub uninterp spec fn md5_of(data: Seq<u8>) -> Seq<u8>;

/// The SHA-1 digest of the input bytes.
pub uninterp spec fn sha1_of(data: Seq<u8>) -> Seq<u8>;

/// The SHA-256 digest of the input bytes.
pub uninterp spec fn sha256_of(data: Seq<u8>) -> Seq<u8>;

/// The SHA-512 digest of the input bytes.
pub uninterp spec fn sha512_of(data: Seq<u8>) -> Seq<u8>;

/// Relies on `md5::compute`: the 16-byte MD5 digest of the input, a
/// function of the input bytes alone.
#[verifier::external_body]
fn md5_digest(data: &Vec<u8>) -> (r: Vec<u8>)
    ensures
        r@ == md5_of(data@),
        r@.len() == 16,
{
    md5::compute(data.as_slice()).0.to_vec()
}

/// Relies on `sha1::Sha1` via the `Digest` trait: the 20-byte SHA-1
/// digest of the input, a function of the input bytes alone.
#[verifier::external_body]
fn sha1_digest(data: &Vec<u8>) -> (r: Vec<u8>)
    ensures
        r@ == sha1_of(data@),
        r@.len() == 20,
{
    sha1::Sha1::digest(data.as_slice()).to_vec()
}

/// Relies on `sha2::Sha256` via the `Digest` trait: the 32-byte SHA-256
/// digest of the input, a function of the input bytes alone.
#[verifier::external_body]
pub(crate) fn sha256_digest(data: &Vec<u8>) -> (r: Vec<u8>)
    ensures
        r@ == sha256_of(data@),
        r@.len() == 32,
{
    sha2::Sha256::digest(data.as_slice()).to_vec()
}

/// Relies on `sha2::Sha512` via the `Digest` trait: the 64-byte SHA-512
/// digest of the input, a function of the input bytes alone.
#[verifier::external_body]
fn sha512_digest(data: &Vec<u8>) -> (r: Vec<u8>)
    ensures
        r@ == sha512_of(data@),
        r@.len() == 64,
{
    sha2::Sha512::digest(data.as_slice()).to_vec()
}

/// The lowercase ASCII hex digit for a value below sixteen.
pub open spec fn hex_digit(n: u8) -> u8 {
    if n < 10 {
        (48 + n) as u8
    } else {
        (87 + n) as u8
    }
}

/// The lowercase hex rendering of a byte string, two digits per byte.
pub open spec fn hex_bytes(s: Seq<u8>) -> Seq<u8>
    decreases s.len(),
{
    if s.len() == 0 {
        Seq::empty()
    } else {
        hex_bytes(s.drop_last()) + seq![
            hex_digit((s.last() / 16) as u8),
            hex_digit((s.last() % 16) as u8),
        ]
    }
}

/// A hex rendering is twice as long as its input.
pub proof fn lemma_hex_bytes_len(s: Seq<u8>)
    ensures
        hex_bytes(s).len() == 2 * s.len(),
    decreases s.len(),
{
    if s.len() > 0 {
        lemma_hex_bytes_len(s.drop_last());
    }
}

/// Every byte of a hex rendering is a lowercase hex digit: an ASCII
/// digit or one of `a` through `f`.
pub proof fn lemma_hex_bytes_digits(s: Seq<u8>)
    ensures
        forall|i: int|
            0 <= i < hex_bytes(s).len() ==> (48 <= #[trigger] hex_bytes(s)[i] <= 57 || 97
                <= hex_bytes(s)[i] <= 102),
    decreases s.len(),
{
    if s.len() > 0 {
        lemma_hex_bytes_digits(s.drop_last());
        lemma_hex_bytes_len(s.drop_last());
        let pre = hex_bytes(s.drop_last());
        let whole = hex_bytes(s);
        assert forall|i: int|
            0 <= i < whole.len() implies (48 <= #[trigger] whole[i] <= 57 || 97 <= whole[i]
            <= 102) by {
            if i < pre.len() {
                assert(whole[i] == pre[i]);
            } else {
                assert((s.last() / 16) < 16 && (s.last() % 16) < 16);
            }
        }
    }
}

/// ASCII uppercase folded to lowercase; every other byte unchanged.
pub open spec fn lower_byte(b: u8) -> u8 {
    if 65 <= b <= 90 {
        (b + 32) as u8
    } else {
        b
    }
}

/// The byte string with each byte case-folded.
pub open spec fn lower_bytes(s: Seq<u8>) -> Seq<u8> {
    Seq::new(s.len(), |i: int| lower_byte(s[i]))
}

/// Renders a byte string as lowercase hex.
pub fn to_hex_lower(v: &Vec<u8>) -> (r: Vec<u8>)
    ensures
        r@ == hex_bytes(v@),
{
    let mut r: Vec<u8> = Vec::new();
    let mut i: usize = 0;
    proof {
        assert(v@.take(0) =~= Seq::<u8>::empty());
    }
    while i < v.len()
        invariant
            i <= v@.len(),
            r@ == hex_bytes(v@.take(i as int)),
        decreases v@.len() - i,
    {
        let b = v[i];
        r.push(hex_digit_value(b / 16));
        r.push(hex_digit_value(b % 16));
        proof {
            assert(v@.take(i + 1).drop_last() =~= v@.take(i as int));
            assert(v@.take(i + 1).last() == v@[i as int]);
            assert(r@ =~= hex_bytes(v@.take(i + 1)));
        }
        i = i + 1;
    }
    proof {
        assert(v@.take(v@.len() as int) =~= v@);
    }
    r
}

/// The lowercase hex digit for a value below sixteen.
fn hex_digit_value(n: u8) -> (r: u8)
    requires
        n < 16,
    ensures
        r == hex_digit(n),
{
    if n < 10 {
        48 + n
    } else {
        87 + n
    }
}

/// Case-folds a byte string to lowercase ASCII.
pub fn to_lower(v: &Vec<u8>) -> (r: Vec<u8>)
    ensures
        r@ == lower_bytes(v@),
{
    let mut r: Vec<u8> = Vec::new();
    let mut i: usize = 0;
    while i < v.len()
        invariant
            i <= v@.len(),
            r@.len() == i,
            forall|k: int| 0 <= k < i ==> r@[k] == lower_byte(v@[k]),
        decreases v@.len() - i,
    {
        let b = v[i];
        if 65 <= b && b <= 90 {
            r.push(b + 32);
        } else {
            r.push(b);
        }
        i = i + 1;
    }
    proof {
        assert(r@ =~= lower_bytes(v@));
    }
    r
}

/// The digest the chosen algorithm yields over the payload.
pub open spec fn digest_of(kind: ChecksumKind, data: Seq<u8>) -> Seq<u8> {
    match kind {
        ChecksumKind::Md5 => md5_of(data),
        ChecksumKind::Sha1 => sha1_of(data),
        ChecksumKind::Sha256 => sha256_of(data),
        ChecksumKind::Sha512 => sha512_of(data),
    }
}

/// Whether the payload's recomputed digest equals the advertised one,
/// compared as lowercase hex.
pub open spec fn spec_checksum_matches(data: Seq<u8>, kind: ChecksumKind, digest_hex: Seq<u8>) -> bool {
    hex_bytes(digest_of(kind, data)) == lower_bytes(digest_hex)
}

/// Recomputes the advertised digest over the payload and compares.
pub fn checksum_matches(data: &Vec<u8>, ck: &Checksum) -> (r: bool)
    ensures
        r == spec_checksum_matches(data@, ck.kind, ck.digest@),
{
    let digest = match ck.kind {
        ChecksumKind::Md5 => md5_digest(data),
        ChecksumKind::Sha1 => sha1_digest(data),
        ChecksumKind::Sha256 => sha256_digest(data),
        ChecksumKind::Sha512 => sha512_digest(data),
    };
    let actual = to_hex_lower(&digest);
    let expected = to_lower(&ck.digest);
    bytes_eq(&actual, &expected)
}

/// Whether a payload passes integrity verification: a release with no
/// advertised checksum is unverifiable and passes by policy, otherwise
/// the strongest advertised digest must match.
pub open spec fn spec_verification_passes(data: Seq<u8>, checksums: Seq<Checksum>) -> bool {
    checksums.len() == 0 || {
        let best = checksums[best_checksum_idx(checksums)];
        spec_checksum_matches(data, best.kind, best.digest@)
    }
}

/// Verifies downloaded bytes against the strongest advertised checksum.
///
/// Succeeds exactly when `spec_verification_passes` holds; a mismatch is
/// `FirmwareChecksumMismatch`, an error distinct from every transport and
/// filesystem failure, so a caller may choose to re-fetch.
pub fn verify_payload(data: &Vec<u8>, checksums: &Vec<Checksum>) -> (r: Result<(), Error>)
    ensures
        r is Ok <==> spec_verification_passes(data@, checksums@),
        r is Err ==> r == Err::<(), Error>(Error::FirmwareChecksumMismatch),
{
    match find_best_checksum(checksums) {
        None => Ok(()),
        Some(i) => {
            if checksum_matches(data, &checksums[i]) {
                Ok(())
            } else {
                Err(Error::FirmwareChecksumMismatch)
            }
        },
    }
}

} // verus!
