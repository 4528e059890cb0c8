//! The shared byte-sequence model: every string type of this crate views its
//! storage as a `Seq<u8>`, and its logical content as the prefix of that
//! storage that runs up to (and excludes) the first zero byte, the
//! terminator.

use vstd::prelude::*;

verus! {

/// True when the byte run holds at least one zero byte, i.e. when a
/// terminator scan over it is well defined.
pub open spec fn has_nul(s: Seq<u8>) -> bool {
    exists|i: int| 0 <= i < s.len() && s[i] == 0
}

/// Index of the first zero byte of `s`; `s.len()` when there is none.
pub open spec fn first_nul(s: Seq<u8>) -> int
    decreases s.len(),
{
    if s.len() == 0 {
        0
    } else if s[0] == 0 {
        0
    } else {
        1 + first_nul(s.subrange(1, s.len() as int))
    }
}

/// The logical content of nul-terminated storage: everything before the
/// first zero byte.
pub open spec fn nul_prefix(s: Seq<u8>) -> Seq<u8> {
    s.take(first_nul(s))
}

/// The terminator scan is sound: `first_nul` stays in bounds, lands on a
/// zero byte whenever one exists, and nothing before it is zero.
pub proof fn lemma_first_nul(s: Seq<u8>)
    ensures
        0 <= first_nul(s) <= s.len(),
        has_nul(s) ==> first_nul(s) < s.len() && s[first_nul(s)] == 0,
        forall|j: int| 0 <= j < first_nul(s) ==> s[j] != 0,
        !has_nul(s) ==> first_nul(s) == s.len(),
    decreases s.len(),
{
    if s.len() == 0 {
    } else if s[0] == 0 {
    } else {
        let t = s.subrange(1, s.len() as int);
        lemma_first_nul(t);
        assert(forall|i: int| 0 <= i < t.len() ==> t[i] == s[i + 1]);
        assert forall|j: int| 0 <= j < first_nul(s) implies s[j] != 0 by {
            if j > 0 {
                assert(t[j - 1] != 0);
            }
        }
        if has_nul(s) {
            let w = choose|i: int| 0 <= i < s.len() && s[i] == 0;
            assert(t[w - 1] == 0);
            assert(has_nul(t));
        }
        if has_nul(t) {
            let w = choose|i: int| 0 <= i < t.len() && t[i] == 0;
            assert(s[w + 1] == 0);
            assert(has_nul(s));
        }
    }
}

/// A position that holds a zero byte with no zero byte before it is exactly
/// `first_nul`.
pub proof fn lemma_first_nul_is_first(s: Seq<u8>, i: int)
    requires
        0 <= i < s.len(),
        s[i] == 0,
        forall|j: int| 0 <= j < i ==> s[j] != 0,
    ensures
        first_nul(s) == i,
{
    lemma_first_nul(s);
    assert(has_nul(s));
}

/// Round trip: a byte run with no zero byte is untouched by the content
/// scan, so storing it behind a terminator and reading it back yields it
/// exactly.
pub proof fn lemma_round_trip(s: Seq<u8>)
    requires
        forall|j: int| 0 <= j < s.len() ==> s[j] != 0,
    ensures
        first_nul(s) == s.len(),
        nul_prefix(s) == s,
{
    lemma_first_nul(s);
    if has_nul(s) {
        let w = choose|i: int| 0 <= i < s.len() && s[i] == 0;
        assert(s[w] == 0);
        assert(false);
    }
    assert(nul_prefix(s) =~= s);
}

/// Relies on `memchr::memchr`: the index of the first occurrence of
/// `needle` in `hay`, `None` when the byte does not occur; a returned index
/// is always in bounds.
#[verifier::external_body]
pub(crate) fn find_byte(needle: u8, hay: &[u8]) -> (r: Option<usize>)
    ensures
        match r {
            Some(i) => i < hay@.len() && hay@[i as int] == needle && forall|j: int|
                0 <= j < i ==> hay@[j] != needle,
            None => forall|j: int| 0 <= j < hay@.len() ==> hay@[j] != needle,
        },
{
    memchr::memchr(needle, hay)
}

/// Terminator scan: position of the first zero byte of storage known to
/// hold one.
pub(crate) fn scan_nul(hay: &[u8]) -> (r: usize)
    requires
        has_nul(hay@),
    ensures
        r == first_nul(hay@),
{
    let found = find_byte(0, hay);
    match found {
        Some(i) => {
            proof {
                lemma_first_nul_is_first(hay@, i as int);
            }
            i
        },
        None => {
            proof {
                let w = choose|i: int| 0 <= i < hay@.len() && hay@[i] == 0;
                assert(hay@[w] == 0);
                assert(false);
            }
            0
        },
    }
}

/// Byte-wise equality of two runs.
pub fn bytes_eq(a: &[u8], b: &[u8]) -> (r: bool)
    ensures
        r == (a@ == b@),
{
    if a.len() != b.len() {
        proof {
            assert(a@.len() != b@.len());
        }
        return false;
    }
    let n = a.len();
    let mut i: usize = 0;
    while i < n
        invariant
            n == a@.len() == b@.len(),
            0 <= i <= n,
            forall|j: int| 0 <= j < i ==> a@[j] == b@[j],
        decreases n - i,
    {
        if a[i] != b[i] {
            return false;
        }
        i += 1;
    }
    proof {
        assert(a@ =~= b@);
    }
    true
}

} // verus!
