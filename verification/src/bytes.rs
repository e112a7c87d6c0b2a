//! Small verified utilities over byte strings. URIs and file paths are held
//! as byte vectors throughout the library, so the URI rewriting and path
//! derivation below reduce to a handful of scans and splices.

use vstd::prelude::*;

verus! {

/// ASCII `/`.
pub const SLASH: u8 = 47;

/// ASCII `:`.
pub const COLON: u8 = 58;

/// Copies a byte string.
pub fn copy_bytes(v: &Vec<u8>) -> (r: Vec<u8>)
    ensures
        r@ == v@,
{
    let mut r: Vec<u8> = Vec::new();
    append_range(&mut r, v, 0, v.len());
    proof {
        assert(v@.subrange(0, v@.len() as int) =~= v@);
    }
    r
}

/// The first index at or after `from` holding `b`, or `s.len()` when no
/// such index exists.
pub open spec fn idx_of(s: Seq<u8>, b: u8, from: int) -> int
    decreases s.len() - from,
{
    if from < 0 || from >= s.len() {
        s.len() as int
    } else if s[from] == b {
        from
    } else {
        idx_of(s, b, from + 1)
    }
}

/// The last index holding `b`, or `-1` when no such index exists.
pub open spec fn last_idx_of(s: Seq<u8>, b: u8) -> int
    decreases s.len(),
{
    if s.len() == 0 {
        -1
    } else if s[s.len() - 1] == b {
        s.len() - 1
    } else {
        last_idx_of(s.take(s.len() - 1), b)
    }
}

/// Finds the first occurrence of `b` at or after `from`; yields `v.len()`
/// when absent.
pub fn find_byte_from(v: &Vec<u8>, b: u8, from: usize) -> (r: usize)
    requires
        from <= v.len(),
    ensures
        from <= r <= v.len(),
        r as int == idx_of(v@, b, from as int),
{
    let mut i = from;
    while i < v.len()
        invariant
            from <= i <= v.len(),
            idx_of(v@, b, from as int) == idx_of(v@, b, i as int),
        decreases v.len() - i,
    {
        if v[i] == b {
            return i;
        }
        i = i + 1;
    }
    i
}

/// Finds the last occurrence of `b`, or `None` when absent.
pub fn rfind_byte(v: &Vec<u8>, b: u8) -> (r: Option<usize>)
    ensures
        match r {
            Some(i) => i < v.len() && i as int == last_idx_of(v@, b),
            None => last_idx_of(v@, b) == -1,
        },
{
    let mut i = v.len();
    proof {
        assert(v@.take(v@.len() as int) =~= v@);
    }
    while i > 0
        invariant
            i <= v.len(),
            last_idx_of(v@, b) == last_idx_of(v@.take(i as int), b),
        decreases i,
    {
        if v[i - 1] == b {
            assert(v@.take(i as int)[i - 1] == b);
            return Some(i - 1);
        }
        assert(v@.take(i as int).take(i - 1) =~= v@.take(i - 1));
        i = i - 1;
    }
    assert(v@.take(0) =~= Seq::<u8>::empty());
    None
}

/// Appends `src[from..to]` to `dst`.
pub fn append_range(dst: &mut Vec<u8>, src: &Vec<u8>, from: usize, to: usize)
    requires
        from <= to <= src.len(),
    ensures
        final(dst)@ == old(dst)@ + src@.subrange(from as int, to as int),
{
    let mut k = from;
    while k < to
        invariant
            from <= k <= to <= src.len(),
            dst@ == old(dst)@ + src@.subrange(from as int, k as int),
        decreases to - k,
    {
        dst.push(src[k]);
        assert(src@.subrange(from as int, k + 1) =~= src@.subrange(
            from as int,
            k as int,
        ).push(src@[k as int]));
        k = k + 1;
    }
}

/// Whether two byte strings hold the same bytes.
pub fn bytes_eq(a: &Vec<u8>, b: &Vec<u8>) -> (r: bool)
    ensures
        r == (a@ == b@),
{
    if a.len() != b.len() {
        return false;
    }
    let mut i: usize = 0;
    while i < a.len()
        invariant
            i <= a.len(),
            a.len() == b.len(),
            forall|k: int| 0 <= k < i ==> a@[k] == b@[k],
        decreases a.len() - i,
    {
        if a[i] != b[i] {
            return false;
        }
        i = i + 1;
    }
    proof {
        assert(a@ =~= b@);
    }
    true
}

/// `s` with every trailing `b` removed.
pub open spec fn trim_trailing(s: Seq<u8>, b: u8) -> Seq<u8>
    decreases s.len(),
{
    if s.len() == 0 {
        s
    } else if s[s.len() - 1] == b {
        trim_trailing(s.take(s.len() - 1), b)
    } else {
        s
    }
}

pub proof fn lemma_trim_trailing_characterize(s: Seq<u8>, b: u8, i: int)
    requires
        0 <= i <= s.len(),
        forall|k: int| i <= k < s.len() ==> s[k] == b,
        i > 0 ==> s[i - 1] != b,
    ensures
        trim_trailing(s, b) =~= s.take(i),
    decreases s.len(),
{
    if i == s.len() {
        if s.len() == 0 {
        } else {
            assert(s[s.len() - 1] != b);
            assert(s.take(s.len() as int) =~= s);
        }
    } else {
        assert(s[s.len() - 1] == b);
        let t = s.take(s.len() - 1);
        assert(forall|k: int| i <= k < t.len() ==> t[k] == b);
        lemma_trim_trailing_characterize(t, b, i);
        assert(t.take(i) =~= s.take(i));
    }
}

/// Removes every trailing `b` from `v`.
pub fn trim_trailing_bytes(v: &Vec<u8>, b: u8) -> (r: Vec<u8>)
    ensures
        r@ == trim_trailing(v@, b),
{
    let mut i = v.len();
    while i > 0 && v[i - 1] == b
        invariant
            i <= v.len(),
            forall|k: int| i <= k < v.len() ==> v@[k] == b,
        decreases i,
    {
        i = i - 1;
    }
    let mut r: Vec<u8> = Vec::new();
    append_range(&mut r, v, 0, i);
    proof {
        lemma_trim_trailing_characterize(v@, b, i as int);
        assert(r@ =~= v@.take(i as int));
    }
    r
}

} // verus!
