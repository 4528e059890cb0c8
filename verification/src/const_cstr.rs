//! `CStr`: a read-only handle over nul-terminated storage.
//!
//! The handle owns its storage outright: exclusive access comes from
//! ownership, not from the aliasing conventions that raw-pointer string
//! interfaces leave to the caller. The length is never stored: every
//! query scans the storage for its first terminator.

use vstd::prelude::*;
use vstd::slice::slice_subrange;
use crate::bytes::{first_nul, has_nul, lemma_first_nul, nul_prefix, scan_nul};

verus! {

/// A read-only nul-terminated byte string.
pub struct CStr {
    storage: Vec<u8>,
}

impl View for CStr {
    type V = Seq<u8>;

    /// The logical content: every storage byte before the terminator.
    open spec fn view(&self) -> Seq<u8> {
        nul_prefix(self.storage())
    }
}

impl CStr {
    /// All bytes the handle addresses, terminator and what may follow it
    /// included.
    pub closed spec fn storage(self) -> Seq<u8> {
        self.storage@
    }

    /// Well-formedness: the storage holds a terminator somewhere.
    pub open spec fn wf(self) -> bool {
        has_nul(self.storage())
    }

    /// Adopt storage that already carries a terminator; the presence of
    /// that terminator, which the name treats as unchecked at run time,
    /// is demanded statically.
    pub fn from_chars_unchecked(chars: Vec<u8>) -> (r: Self)
        requires
            has_nul(chars@),
        ensures
            r.wf(),
            r.storage() == chars@,
    {
        CStr { storage: chars }
    }

    /// Content length, recovered by a terminator scan.
    pub fn len(&self) -> (r: usize)
        requires
            self.wf(),
        ensures
            r == self@.len(),
            r == first_nul(self.storage()),
            r < usize::MAX,
    {
        let n = self.storage.len();
        let r = scan_nul(self.storage.as_slice());
        proof {
            lemma_first_nul(self.storage());
            assert(r < n);
        }
        r
    }

    /// The content bytes, terminator excluded.
    pub fn to_bytes(&self) -> (r: &[u8])
        requires
            self.wf(),
        ensures
            r@ == self@,
    {
        let l = self.len();
        proof {
            lemma_first_nul(self.storage());
        }
        let r = slice_subrange(self.storage.as_slice(), 0, l);
        proof {
            assert(r@ =~= self@);
        }
        r
    }

    /// The content bytes followed by the terminator.
    pub fn to_bytes_with_nul(&self) -> (r: &[u8])
        requires
            self.wf(),
        ensures
            r@ == self@.push(0),
    {
        let l = self.len();
        proof {
            lemma_first_nul(self.storage());
        }
        let r = slice_subrange(self.storage.as_slice(), 0, l + 1);
        proof {
            assert(r@ =~= self@.push(0));
        }
        r
    }
}

} // verus!
