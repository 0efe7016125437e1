//! Path-shaped decisions: what counts as the project root and which
//! changed files are proposal documents.

use vstd::prelude::*;

use crate::bytes;
use crate::merge;
use crate::repo;

verus! {

/// Whether a directory is the project root: it holds both a `.git`
/// directory and the content directory. The caller reports which of the
/// two it found on disk.
pub fn is_root(has_git_dir: bool, has_content_dir: bool) -> (r: bool)
    ensures
        r == (has_git_dir && has_content_dir),
{
    has_git_dir && has_content_dir
}

/// The nearest candidate directory that is the project root: the caller
/// probes each ancestor, nearest first, and this picks the first whose two
/// probes both hold.
pub fn first_root(probes: &Vec<(bool, bool)>) -> (r: Option<usize>)
    ensures
        match r {
            Some(i) => i < probes@.len() && probes@[i as int].0 && probes@[i as int].1
                && forall|j: int| 0 <= j < i ==> !((#[trigger] probes@[j]).0 && probes@[j].1),
            None => forall|j: int|
                0 <= j < probes@.len() ==> !((#[trigger] probes@[j]).0 && probes@[j].1),
        },
{
    let n: usize = probes.len();
    let mut i: usize = 0;
    while i < n
        invariant
            i <= n,
            n == probes@.len(),
            forall|j: int| 0 <= j < i ==> !((#[trigger] probes@[j]).0 && probes@[j].1),
        decreases n - i,
    {
        if is_root(probes[i].0, probes[i].1) {
            return Some(i);
        }
        i = i + 1;
    }
    None
}

/// Whether every byte is an ASCII decimal digit, and there is at least one.
pub open spec fn is_digits(s: Seq<u8>) -> bool {
    s.len() > 0 && forall|i: int| 0 <= i < s.len() ==> 48 <= #[trigger] s[i] <= 57
}

/// The number a digit string denotes.
pub open spec fn digits_val(s: Seq<u8>) -> int
    decreases s.len(),
{
    if s.len() == 0 {
        0
    } else {
        digits_val(s.drop_last()) * 10 + (s.last() - 48)
    }
}

/// A digit string denotes a number, never anything negative.
proof fn lemma_digits_val_nonneg(s: Seq<u8>)
    requires
        forall|i: int| 0 <= i < s.len() ==> 48 <= #[trigger] s[i] <= 57,
    ensures
        digits_val(s) >= 0,
    decreases s.len(),
{
    if s.len() > 0 {
        assert(forall|i: int|
            0 <= i < s.drop_last().len() ==> s.drop_last()[i] == s[i]);
        lemma_digits_val_nonneg(s.drop_last());
    }
}

/// A digit string denotes at least what any of its prefixes denotes.
proof fn lemma_digits_val_prefix(s: Seq<u8>, k: int)
    requires
        0 <= k <= s.len(),
        forall|i: int| 0 <= i < s.len() ==> 48 <= #[trigger] s[i] <= 57,
    ensures
        digits_val(s.take(k)) <= digits_val(s),
    decreases s.len() - k,
{
    if k < s.len() {
        lemma_digits_val_prefix(s, k + 1);
        assert(s.take(k + 1).drop_last() =~= s.take(k));
        assert(s.take(k + 1).last() == s[k]);
        assert(forall|i: int| 0 <= i < s.take(k).len() ==> s.take(k)[i] == s[i]);
        lemma_digits_val_nonneg(s.take(k));
        assert(digits_val(s.take(k)) <= digits_val(s.take(k)) * 10 + (s[k] - 48));
    } else {
        assert(s.take(k) =~= s);
    }
}

/// Parse a decimal digit string into a 64-bit number: `None` when some
/// byte is not a digit, the string is empty, or the value does not fit.
pub fn parse_u64_digits(s: &Vec<u8>) -> (r: Option<u64>)
    ensures
        match r {
            Some(v) => is_digits(s@) && digits_val(s@) <= u64::MAX && v == digits_val(s@),
            None => !(is_digits(s@) && digits_val(s@) <= u64::MAX),
        },
{
    let n: usize = s.len();
    if n == 0 {
        return None;
    }
    let mut acc: u64 = 0;
    proof {
        assert(digits_val(s@.take(0)) == 0);
    }
    let mut i: usize = 0;
    while i < n
        invariant
            i <= n,
            n == s@.len(),
            acc == digits_val(s@.take(i as int)),
            forall|j: int| 0 <= j < i ==> 48 <= #[trigger] s@[j] <= 57,
        decreases n - i,
    {
        let b = s[i];
        if b < 48 || b > 57 {
            return None;
        }
        proof {
            assert(s@.take(i as int + 1).drop_last() =~= s@.take(i as int));
            assert(s@.take(i as int + 1).last() == s@[i as int]);
        }
        let scaled = match acc.checked_mul(10) {
            Some(v) => v,
            None => {
                proof {
                    overflow_means_too_big(s@, i as int);
                }
                return None;
            },
        };
        let next = match scaled.checked_add((b - 48) as u64) {
            Some(v) => v,
            None => {
                proof {
                    overflow_means_too_big(s@, i as int);
                }
                return None;
            },
        };
        acc = next;
        i = i + 1;
    }
    proof {
        assert(s@.take(n as int) =~= s@);
    }
    Some(acc)
}

/// If one more digit no longer fits in 64 bits, the whole string's value
/// does not fit either.
proof fn overflow_means_too_big(s: Seq<u8>, i: int)
    requires
        0 <= i < s.len(),
        forall|j: int| 0 <= j <= i ==> 48 <= #[trigger] s[j] <= 57,
        digits_val(s.take(i + 1)) > u64::MAX,
    ensures
        !(is_digits(s) && digits_val(s) <= u64::MAX),
{
    if is_digits(s) {
        lemma_digits_val_prefix(s, i + 1);
    }
}

/// The `.md` file suffix.
pub open spec fn md_suffix() -> Seq<u8> {
    seq![46u8, 109u8, 100u8]
}

/// The `/index.md` path suffix.
pub open spec fn index_suffix() -> Seq<u8> {
    seq![47u8, 105u8, 110u8, 100u8, 101u8, 120u8, 46u8, 109u8, 100u8]
}

/// Whether a stem names a proposal: decimal digits denoting a number that
/// fits in 64 bits.
pub open spec fn proposal_stem_ok(stem: Seq<u8>) -> bool {
    is_digits(stem) && digits_val(stem) <= u64::MAX
}

/// Whether a path names a proposal document: directly under the content
/// root, either `<number>.md` or `<number>/index.md`.
pub open spec fn is_proposal_spec(p: Seq<u8>) -> bool {
    let pre = merge::content_prefix(repo::content_root_bytes());
    pre.is_prefix_of(p) && {
        let rest = p.skip(pre.len() as int);
        (md_suffix().is_suffix_of(rest) && proposal_stem_ok(rest.take(rest.len() - 3))) || (
        index_suffix().is_suffix_of(rest) && proposal_stem_ok(rest.take(rest.len() - 9)))
    }
}

/// The `.md` suffix, as bytes.
fn md_suffix_vec() -> (r: Vec<u8>)
    ensures
        r@ == md_suffix(),
{
    let mut r: Vec<u8> = Vec::new();
    r.push(46);
    r.push(109);
    r.push(100);
    proof {
        assert(r@ =~= md_suffix());
    }
    r
}

/// The `/index.md` suffix, as bytes.
fn index_suffix_vec() -> (r: Vec<u8>)
    ensures
        r@ == index_suffix(),
{
    let mut r: Vec<u8> = Vec::new();
    r.push(47);
    r.push(105);
    r.push(110);
    r.push(100);
    r.push(101);
    r.push(120);
    r.push(46);
    r.push(109);
    r.push(100);
    proof {
        assert(r@ =~= index_suffix());
    }
    r
}

/// Whether a changed path names a proposal document and so is worth
/// linting: `content/<number>.md` or `content/<number>/index.md`, with the
/// number in 64-bit range.
pub fn is_proposal_path(p: &Vec<u8>) -> (r: bool)
    ensures
        r == is_proposal_spec(p@),
{
    let content = repo::content_root();
    let pre = merge::content_prefix_vec(&content);
    if !bytes::starts_with(p, &pre) {
        return false;
    }
    let rest = bytes::slice_from(p, pre.len());
    let md = md_suffix_vec();
    if rest.len() >= 3 && bytes::ends_with(&rest, &md) {
        let stem = bytes::take_to(&rest, rest.len() - 3);
        if parse_u64_digits(&stem).is_some() {
            return true;
        }
    }
    let index = index_suffix_vec();
    if rest.len() >= 9 && bytes::ends_with(&rest, &index) {
        let stem = bytes::take_to(&rest, rest.len() - 9);
        if parse_u64_digits(&stem).is_some() {
            return true;
        }
    }
    false
}

} // verus!
