//! Verified helpers over byte strings.
//!
//! Paths inside version-control trees are byte strings, so the engine's
//! path logic works on `Vec<u8>` values and is specified over `Seq<u8>`.

use vstd::prelude::*;

verus! {

/// Whether `s` is free of NUL bytes, as every path inside a
/// version-control tree is.
pub open spec fn no_nul(s: Seq<u8>) -> bool {
    forall|i: int| 0 <= i < s.len() ==> s[i] != 0u8
}

/// `s` with every trailing occurrence of `b` removed.
pub open spec fn trim_end_spec(s: Seq<u8>, b: u8) -> Seq<u8>
    decreases s.len(),
{
    if s.len() > 0 && s.last() == b {
        trim_end_spec(s.drop_last(), b)
    } else {
        s
    }
}

/// Whether `a` and `b` hold the same bytes.
pub fn eq(a: &Vec<u8>, b: &Vec<u8>) -> (r: bool)
    ensures
        r == (a@ == b@),
{
    if a.len() != b.len() {
        return false;
    }
    let n: usize = a.len();
    let mut i: usize = 0;
    while i < n
        invariant
            i <= n,
            n == a@.len() == b@.len(),
            forall|j: int| 0 <= j < i ==> a@[j] == b@[j],
        decreases n - i,
    {
        if a[i] != b[i] {
            return false;
        }
        i = i + 1;
    }
    proof {
        assert(a@ =~= b@);
    }
    true
}

/// An owned copy of `v`.
pub fn copy(v: &Vec<u8>) -> (r: Vec<u8>)
    ensures
        r@ == v@,
{
    let mut r: Vec<u8> = Vec::new();
    let mut i: usize = 0;
    while i < v.len()
        invariant
            i <= v@.len(),
            r@ =~= v@.take(i as int),
        decreases v@.len() - i,
    {
        r.push(v[i]);
        i = i + 1;
    }
    proof {
        assert(r@ =~= v@);
    }
    r
}

/// Whether `prefix` starts `v`.
pub fn starts_with(v: &Vec<u8>, prefix: &Vec<u8>) -> (r: bool)
    ensures
        r == prefix@.is_prefix_of(v@),
{
    if prefix.len() > v.len() {
        return false;
    }
    let n: usize = prefix.len();
    let mut i: usize = 0;
    while i < n
        invariant
            i <= n,
            n == prefix@.len() <= v@.len(),
            forall|j: int| 0 <= j < i ==> v@[j] == prefix@[j],
        decreases n - i,
    {
        if v[i] != prefix[i] {
            return false;
        }
        i = i + 1;
    }
    proof {
        assert(prefix@ =~= v@.subrange(0, n as int));
    }
    true
}

/// Whether `suffix` ends `v`.
pub fn ends_with(v: &Vec<u8>, suffix: &Vec<u8>) -> (r: bool)
    ensures
        r == suffix@.is_suffix_of(v@),
{
    if suffix.len() > v.len() {
        return false;
    }
    let n: usize = suffix.len();
    let off: usize = v.len() - n;
    let mut i: usize = 0;
    while i < n
        invariant
            i <= n,
            n == suffix@.len(),
            off + n == v@.len(),
            off + n <= usize::MAX,
            forall|j: int| 0 <= j < i ==> v@[off + j] == suffix@[j],
        decreases n - i,
    {
        if v[off + i] != suffix[i] {
            return false;
        }
        i = i + 1;
    }
    proof {
        assert(suffix@ =~= v@.subrange(v@.len() - n, v@.len() as int));
    }
    true
}

/// A copy of `v` with every trailing occurrence of `b` removed.
pub fn trim_end(v: &Vec<u8>, b: u8) -> (r: Vec<u8>)
    ensures
        r@ == trim_end_spec(v@, b),
{
    let mut end: usize = v.len();
    proof {
        assert(v@.take(end as int) =~= v@);
    }
    while end > 0 && v[end - 1] == b
        invariant
            end <= v@.len(),
            trim_end_spec(v@, b) == trim_end_spec(v@.take(end as int), b),
        decreases end,
    {
        proof {
            assert(v@.take(end as int).drop_last() =~= v@.take(end - 1));
        }
        end = end - 1;
    }
    let mut r: Vec<u8> = Vec::new();
    let mut i: usize = 0;
    while i < end
        invariant
            i <= end <= v@.len(),
            r@ =~= v@.take(i as int),
        decreases end - i,
    {
        r.push(v[i]);
        i = i + 1;
    }
    proof {
        if end < v@.len() {
            assert(trim_end_spec(v@.take(end as int), b) == v@.take(end as int)) by {
                assert(!(v@.take(end as int).len() > 0 && v@.take(end as int).last() == b));
            }
        } else {
            assert(v@.take(end as int) =~= v@);
        }
    }
    r
}

/// The bytes of `v` from `start` on.
pub fn slice_from(v: &Vec<u8>, start: usize) -> (r: Vec<u8>)
    requires
        start <= v@.len(),
    ensures
        r@ == v@.skip(start as int),
{
    let mut r: Vec<u8> = Vec::new();
    let n: usize = v.len();
    let mut i: usize = start;
    while i < n
        invariant
            start <= i <= n,
            n == v@.len(),
            r@.len() == i - start,
            forall|j: int| 0 <= j < r@.len() ==> r@[j] == v@[start + j],
        decreases n - i,
    {
        r.push(v[i]);
        i = i + 1;
    }
    proof {
        assert(r@ =~= v@.skip(start as int));
    }
    r
}

/// The first `end` bytes of `v`.
pub fn take_to(v: &Vec<u8>, end: usize) -> (r: Vec<u8>)
    requires
        end <= v@.len(),
    ensures
        r@ == v@.take(end as int),
{
    let mut r: Vec<u8> = Vec::new();
    let mut i: usize = 0;
    while i < end
        invariant
            i <= end <= v@.len(),
            r@ =~= v@.take(i as int),
        decreases end - i,
    {
        r.push(v[i]);
        i = i + 1;
    }
    proof {
        assert(r@ =~= v@.take(end as int));
    }
    r
}

/// The concatenation of `a` and `b`.
pub fn concat(a: &Vec<u8>, b: &Vec<u8>) -> (r: Vec<u8>)
    ensures
        r@ == a@ + b@,
{
    let mut r: Vec<u8> = Vec::new();
    let mut i: usize = 0;
    while i < a.len()
        invariant
            i <= a@.len(),
            r@ =~= a@.take(i as int),
        decreases a@.len() - i,
    {
        r.push(a[i]);
        i = i + 1;
    }
    let mut j: usize = 0;
    while j < b.len()
        invariant
            j <= b@.len(),
            r@ =~= a@ + b@.take(j as int),
        decreases b@.len() - j,
    {
        r.push(b[j]);
        j = j + 1;
    }
    proof {
        assert(r@ =~= a@ + b@);
    }
    r
}

} // verus!
