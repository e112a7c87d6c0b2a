//! An installable firmware version as the daemon reports it, and the
//! lookup of its owning remote.

use vstd::prelude::*;
use crate::bytes::bytes_eq;
use crate::checksum::Checksum;
use crate::error::Error;

verus! {

/// One candidate firmware version for a device. Immutable once obtained.
#[derive(Debug, PartialEq)]
pub struct Release {
    /// The human-readable version string.
    pub version: String,
    /// The payload size in bytes.
    pub size: u64,
    /// The payload's source URI; its meaning depends on the owning
    /// remote's kind.
    pub uri: Vec<u8>,
    /// The advertised `(algorithm, digest)` pairs.
    pub checksums: Vec<Checksum>,
    /// The identity of the remote this release originates from.
    pub remote_id: String,
}

/// Finds the first remote whose identity matches `remote_id`.
///
/// Fails with `RemoteNotFound` exactly when no remote matches; this is
/// the only error resolution can raise.
pub fn find_remote(remotes: &Vec<crate::remote::Remote>, remote_id: &String) -> (r: Result<
    usize,
    Error,
>)
    ensures
        r is Ok <==> exists|k: int| 0 <= k < remotes@.len() && remotes@[k].remote_id@ == remote_id@,
        r matches Ok(i) ==> i < remotes.len() && remotes@[i as int].remote_id@ == remote_id@ && (
        forall|k: int| 0 <= k < i ==> remotes@[k].remote_id@ != remote_id@),
        r is Err ==> r == Err::<usize, Error>(Error::RemoteNotFound),
{
    let mut i: usize = 0;
    while i < remotes.len()
        invariant
            i <= remotes@.len(),
            forall|k: int| 0 <= k < i ==> remotes@[k].remote_id@ != remote_id@,
        decreases remotes@.len() - i,
    {
        if remotes[i].remote_id.eq(remote_id) {
            return Ok(i);
        }
        i = i + 1;
    }
    Err(Error::RemoteNotFound)
}


/// Lexicographic code-point order on version strings: the empty string
/// first, then by the first differing character.
pub open spec fn chars_le(a: Seq<char>, b: Seq<char>) -> bool
    decreases a.len(),
{
    if a.len() == 0 {
        true
    } else if b.len() == 0 {
        false
    } else if (a[0] as u32) < (b[0] as u32) {
        true
    } else if (a[0] as u32) > (b[0] as u32) {
        false
    } else {
        chars_le(a.skip(1), b.skip(1))
    }
}

pub proof fn lemma_chars_le_refl(a: Seq<char>)
    ensures
        chars_le(a, a),
    decreases a.len(),
{
    if a.len() > 0 {
        lemma_chars_le_refl(a.skip(1));
    }
}

pub proof fn lemma_chars_le_total(a: Seq<char>, b: Seq<char>)
    ensures
        chars_le(a, b) || chars_le(b, a),
    decreases a.len(),
{
    if a.len() > 0 && b.len() > 0 && (a[0] as u32) == (b[0] as u32) {
        lemma_chars_le_total(a.skip(1), b.skip(1));
    }
}

pub proof fn lemma_chars_le_trans(a: Seq<char>, b: Seq<char>, c: Seq<char>)
    requires
        chars_le(a, b),
        chars_le(b, c),
    ensures
        chars_le(a, c),
    decreases a.len(),
{
    if a.len() > 0 && b.len() > 0 && c.len() > 0 && (a[0] as u32) == (b[0] as u32) && (b[0]
        as u32) == (c[0] as u32) {
        lemma_chars_le_trans(a.skip(1), b.skip(1), c.skip(1));
    }
}

/// Whether `a` precedes or equals `b` in version order.
pub fn version_le(a: &str, b: &str) -> (r: bool)
    ensures
        r == chars_le(a@, b@),
{
    let an = a.unicode_len();
    let bn = b.unicode_len();
    let mut i: usize = 0;
    proof {
        assert(a@.skip(0) =~= a@);
        assert(b@.skip(0) =~= b@);
    }
    while i < an && i < bn
        invariant
            i <= an,
            i <= bn,
            an == a@.len(),
            bn == b@.len(),
            chars_le(a@, b@) == chars_le(a@.skip(i as int), b@.skip(i as int)),
        decreases an - i,
    {
        let ca = a.get_char(i);
        let cb = b.get_char(i);
        if (ca as u32) < (cb as u32) {
            return true;
        }
        if (ca as u32) > (cb as u32) {
            return false;
        }
        proof {
            assert(a@.skip(i as int).skip(1) =~= a@.skip(i + 1));
            assert(b@.skip(i as int).skip(1) =~= b@.skip(i + 1));
        }
        i = i + 1;
    }
    i >= an
}

/// Releases in nondecreasing version order.
pub open spec fn releases_sorted(s: Seq<Release>) -> bool {
    forall|k: int|
        #![trigger s[k]]
        0 <= k < s.len() - 1 ==> chars_le(s[k].version@, s[k + 1].version@)
}

/// Sorts releases by version for deterministic presentation. Releases
/// with equal versions keep their arrival order, and the result holds
/// exactly the input releases.
pub fn sort_releases(releases: &mut Vec<Release>)
    ensures
        releases_sorted(final(releases)@),
        final(releases)@.to_multiset() == old(releases)@.to_multiset(),
{
    let ghost orig = releases@;
    let mut out: Vec<Release> = Vec::new();
    proof {
        out@.to_multiset_ensures();
        assert(out@.to_multiset().add(releases@.to_multiset()) =~= orig.to_multiset()) by {
            broadcast use vstd::multiset::group_multiset_axioms;

            assert(forall|v: Release| !out@.contains(v));
        };
    }
    while releases.len() > 0
        invariant
            releases_sorted(out@),
            forall|k: int, j: int|
                #![trigger out@[k], releases@[j]]
                0 <= k < out@.len() && 0 <= j < releases@.len() ==> chars_le(
                    out@[k].version@,
                    releases@[j].version@,
                ),
            out@.to_multiset().add(releases@.to_multiset()) == orig.to_multiset(),
        decreases releases@.len(),
    {
        let ghost pre = releases@;
        let mut m: usize = 0;
        let mut j: usize = 1;
        proof {
            lemma_chars_le_refl(pre[0].version@);
        }
        while j < releases.len()
            invariant
                releases@ == pre,
                0 < pre.len(),
                m < j,
                j <= pre.len(),
                forall|q: int|
                    0 <= q < j ==> chars_le(pre[m as int].version@, (#[trigger] pre[q]).version@),
            decreases pre.len() - j,
        {
            if !version_le(releases[m].version.as_str(), releases[j].version.as_str()) {
                proof {
                    lemma_chars_le_total(pre[m as int].version@, pre[j as int].version@);
                    assert forall|q: int|
                        0 <= q <= j implies chars_le(
                        pre[j as int].version@,
                        (#[trigger] pre[q]).version@,
                    ) by {
                        if q == j {
                            lemma_chars_le_refl(pre[j as int].version@);
                        } else {
                            lemma_chars_le_trans(
                                pre[j as int].version@,
                                pre[m as int].version@,
                                pre[q].version@,
                            );
                        }
                    }
                }
                m = j;
            }
            j = j + 1;
        }
        let ghost out_pre = out@;
        let x = releases.remove(m);
        proof {
            pre.remove_ensures(m as int);
            pre.to_multiset_ensures();
            out_pre.to_multiset_ensures();
        }
        out.push(x);
        proof {
            assert forall|k: int|
                0 <= k < out@.len() - 1 implies chars_le(
                (#[trigger] out@[k]).version@,
                out@[k + 1].version@,
            ) by {
                if k < out_pre.len() - 1 {
                    assert(out@[k] == out_pre[k] && out@[k + 1] == out_pre[k + 1]);
                } else {
                    assert(out@[k] == out_pre[k] && out@[k + 1] == x);
                    assert(pre[m as int] == x);
                }
            }
            assert forall|k: int, j2: int|
                0 <= k < out@.len() && 0 <= j2 < releases@.len() implies chars_le(
                (#[trigger] out@[k]).version@,
                (#[trigger] releases@[j2]).version@,
            ) by {
                let target = if j2 < m { pre[j2] } else { pre[j2 + 1] };
                assert(releases@[j2] == target);
                if k < out_pre.len() {
                    assert(out@[k] == out_pre[k]);
                } else {
                    assert(out@[k] == x);
                }
            }
            assert(out@.to_multiset() =~= out_pre.to_multiset().insert(x));
            assert(releases@.to_multiset() =~= pre.to_multiset().remove(x));
            assert(out@.to_multiset().add(releases@.to_multiset()) =~= orig.to_multiset()) by {
                broadcast use vstd::multiset::group_multiset_axioms;

                assert(pre[m as int] == x);
                assert(pre.contains(x));
            };
        }
    }
    proof {
        releases@.to_multiset_ensures();
        assert(out@.to_multiset().add(releases@.to_multiset()) =~= out@.to_multiset()) by {
            broadcast use vstd::multiset::group_multiset_axioms;

            assert(forall|v: Release| !releases@.contains(v));
        };
    }
    *releases = out;
}


/// Whether two release records hold the same data, field for field.
pub open spec fn spec_release_same(a: Release, b: Release) -> bool {
    a.version@ == b.version@ && a.size == b.size && a.uri@ == b.uri@ && a.remote_id@
        == b.remote_id@ && a.checksums@.len() == b.checksums@.len() && forall|i: int|
        0 <= i < a.checksums@.len() ==> (#[trigger] a.checksums@[i]).kind == b.checksums@[i].kind
            && a.checksums@[i].digest@ == b.checksums@[i].digest@
}

/// Compares two release records field for field.
pub fn release_same(a: &Release, b: &Release) -> (r: bool)
    ensures
        r == spec_release_same(*a, *b),
{
    if !a.version.eq(&b.version) {
        return false;
    }
    if a.size != b.size {
        return false;
    }
    if !bytes_eq(&a.uri, &b.uri) {
        return false;
    }
    if !a.remote_id.eq(&b.remote_id) {
        return false;
    }
    if a.checksums.len() != b.checksums.len() {
        return false;
    }
    let mut i: usize = 0;
    while i < a.checksums.len()
        invariant
            i <= a.checksums@.len(),
            a.checksums@.len() == b.checksums@.len(),
            forall|k: int|
                0 <= k < i ==> (#[trigger] a.checksums@[k]).kind == b.checksums@[k].kind
                    && a.checksums@[k].digest@ == b.checksums@[k].digest@,
        decreases a.checksums@.len() - i,
    {
        if !(a.checksums[i].kind == b.checksums[i].kind && bytes_eq(
            &a.checksums[i].digest,
            &b.checksums[i].digest,
        )) {
            return false;
        }
        i = i + 1;
    }
    true
}

/// Some record of `after` holds the same data as `r`.
pub open spec fn release_represented_in(r: Release, after: Seq<Release>) -> bool {
    exists|k: int| 0 <= k < after.len() && spec_release_same(r, #[trigger] after[k])
}

/// Every record of `before` is represented in `after`: some record of
/// `after` holds the same data.
pub open spec fn releases_represented(before: Seq<Release>, after: Seq<Release>) -> bool {
    forall|j: int|
        0 <= j < before.len() ==> release_represented_in(#[trigger] before[j], after)
}

pub proof fn lemma_releases_represented(before: Seq<Release>, after: Seq<Release>, w: Seq<int>)
    requires
        w.len() == before.len(),
        forall|j: int|
            0 <= j < before.len() ==> 0 <= #[trigger] w[j] < after.len() && spec_release_same(
                before[j],
                after[w[j]],
            ),
    ensures
        releases_represented(before, after),
{
    assert forall|j: int|
        0 <= j < before.len() implies release_represented_in(#[trigger] before[j], after) by {
        assert(0 <= w[j] < after.len() && spec_release_same(before[j], after[w[j]]));
    }
}

/// Removes repeated records from a version-sorted release list, keeping
/// the first of each run, as an ordered set of releases presents them:
/// no record stands next to an identical one, every kept record comes
/// from the input, and every input record is still represented.
pub fn dedup_releases(releases: &mut Vec<Release>)
    requires
        releases_sorted(old(releases)@),
    ensures
        releases_sorted(final(releases)@),
        forall|k: int|
            0 <= k < final(releases)@.len() - 1 ==> !spec_release_same(
                #[trigger] final(releases)@[k],
                final(releases)@[k + 1],
            ),
        forall|k: int|
            0 <= k < final(releases)@.len() ==> old(releases)@.contains(
                #[trigger] final(releases)@[k],
            ),
        releases_represented(old(releases)@, final(releases)@),
{
    let ghost orig = releases@;
    let mut out: Vec<Release> = Vec::new();
    let ghost mut done: int = 0;
    let ghost mut witness: Seq<int> = Seq::empty();
    proof {
        assert(orig.skip(0) =~= orig);
    }
    while releases.len() > 0
        invariant
            done + releases@.len() == orig.len(),
            0 <= done,
            releases@ == orig.skip(done),
            releases_sorted(orig),
            releases_sorted(out@),
            forall|k: int|
                0 <= k < out@.len() - 1 ==> !spec_release_same(
                    #[trigger] out@[k],
                    out@[k + 1],
                ),
            forall|k: int| 0 <= k < out@.len() ==> orig.contains(#[trigger] out@[k]),
            witness.len() == done,
            forall|j: int|
                0 <= j < done ==> 0 <= #[trigger] witness[j] < out@.len() && spec_release_same(
                    orig[j],
                    out@[witness[j]],
                ),
            out@.len() > 0 && releases@.len() > 0 ==> chars_le(
                out@.last().version@,
                releases@[0].version@,
            ),
        decreases releases@.len(),
    {
        let ghost pre = releases@;
        let x = releases.remove(0);
        proof {
            pre.remove_ensures(0);
            assert(releases@ =~= pre.skip(1));
            assert(x == orig[done]);
            assert(releases@ =~= orig.skip(done + 1));
        }
        let ghost out_pre = out@;
        if out.len() == 0 {
            out.push(x);
        } else {
            let last = out.len() - 1;
            if !release_same(&out[last], &x) {
                out.push(x);
            } else {
                proof {
                    assert(spec_release_same(orig[done], out@[out@.len() - 1])) by {
                        assert(spec_release_same(out@[out@.len() - 1], x));
                    };
                }
            }
        }
        proof {
            if out@.len() > out_pre.len() {
                assert(out@.last() == x);
                assert(forall|k: int| 0 <= k < out_pre.len() ==> out@[k] == out_pre[k]);
                assert(orig.contains(x)) by {
                    assert(orig[done] == x);
                };
                assert(spec_release_same(orig[done], out@[out@.len() - 1]));
            }
            if releases@.len() > 0 {
                assert(pre[1] == releases@[0]);
                assert(chars_le(pre[0].version@, pre[1].version@));
                if out@.len() > out_pre.len() {
                } else {
                    assert(out@.last().version@ == x.version@);
                }
            }
            assert(forall|k: int| 0 <= k < out_pre.len() ==> #[trigger] out@[k] == out_pre[k]);
            assert(spec_release_same(orig[done], out@[out@.len() - 1]));
            witness = witness.push(out@.len() - 1);
            done = done + 1;
        }
    }
    proof {
        lemma_releases_represented(orig, out@, witness);
    }
    *releases = out;
}

} // verus!
