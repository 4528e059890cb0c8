//! `CMutStr`: a read-write handle over nul-terminated storage.
//!
//! It may overwrite content bytes but never the terminator's position nor
//! the storage's extent — the writes its contract admits cannot introduce
//! or remove a terminator. Like `CStr` it owns its storage, so exclusive
//! mutable access comes from ownership rather than convention; `into_cstr`
//! hands the same storage on as a read-only handle.

use vstd::prelude::*;
use vstd::slice::slice_subrange;
use crate::bytes::{
    first_nul, has_nul, lemma_first_nul, lemma_first_nul_is_first, nul_prefix, scan_nul,
};
use crate::const_cstr::CStr;
use crate::fold::{
    fold_range_wide, lemma_fold_keeps_nonzero, lower_byte, lower_fold, upper_byte, upper_fold,
};

verus! {

/// A mutable nul-terminated byte string.
pub struct CMutStr {
    storage: Vec<u8>,
}

impl View for CMutStr {
    type V = Seq<u8>;

    /// The logical content: every storage byte before the terminator.
    open spec fn view(&self) -> Seq<u8> {
        nul_prefix(self.storage())
    }
}

impl CMutStr {
    /// All bytes the handle addresses.
    pub closed spec fn storage(self) -> Seq<u8> {
        self.storage@
    }

    /// Well-formedness: the storage holds a terminator somewhere.
    pub open spec fn wf(self) -> bool {
        has_nul(self.storage())
    }

    /// Adopt storage that already carries a terminator.
    pub fn from_chars_unchecked(chars: Vec<u8>) -> (r: Self)
        requires
            has_nul(chars@),
        ensures
            r.wf(),
            r.storage() == chars@,
    {
        CMutStr { storage: chars }
    }

    /// Content length, recovered by a terminator scan.
    pub fn len(&self) -> (r: usize)
        requires
            self.wf(),
        ensures
            r == self@.len(),
            r == first_nul(self.storage()),
            r < usize::MAX,
    {
        let n = self.storage.len();
        let r = scan_nul(self.storage.as_slice());
        proof {
            lemma_first_nul(self.storage());
            assert(r < n);
        }
        r
    }

    /// The content bytes, terminator excluded.
    pub fn as_bytes(&self) -> (r: &[u8])
        requires
            self.wf(),
        ensures
            r@ == self@,
    {
        let l = self.len();
        proof {
            lemma_first_nul(self.storage());
        }
        let r = slice_subrange(self.storage.as_slice(), 0, l);
        proof {
            assert(r@ =~= self@);
        }
        r
    }

    /// The content bytes followed by the terminator.
    pub fn as_bytes_with_nul(&self) -> (r: &[u8])
        requires
            self.wf(),
        ensures
            r@ == self@.push(0),
    {
        let l = self.len();
        proof {
            lemma_first_nul(self.storage());
        }
        let r = slice_subrange(self.storage.as_slice(), 0, l + 1);
        proof {
            assert(r@ =~= self@.push(0));
        }
        r
    }

    /// Overwrite one content byte. Only offsets strictly before the
    /// terminator may be written, and never with zero: either would move
    /// the terminator, which this handle must not do.
    pub fn set_byte(&mut self, i: usize, b: u8)
        requires
            old(self).wf(),
            i < old(self)@.len(),
            b != 0,
        ensures
            final(self).wf(),
            final(self)@ == old(self)@.update(i as int, b),
            final(self).storage() == old(self).storage().update(i as int, b),
    {
        proof {
            lemma_first_nul(old(self).storage());
        }
        self.storage[i] = b;
        proof {
            let s = self.storage@;
            let l = first_nul(old(self).storage());
            assert(s[l] == 0);
            lemma_first_nul_is_first(s, l);
            assert(nul_prefix(s) =~= old(self)@.update(i as int, b));
        }
    }

    /// Fold the content to uppercase in place; the terminator stays where
    /// it is.
    pub fn uppercase(&mut self)
        requires
            old(self).wf(),
        ensures
            final(self).wf(),
            final(self)@ == upper_fold(old(self)@),
            final(self).storage().len() == old(self).storage().len(),
    {
        let l = self.len();
        proof {
            lemma_first_nul(old(self).storage());
            lemma_fold_keeps_nonzero();
        }
        fold_range_wide(&mut self.storage, l, 0x61, 0x7A);
        proof {
            let s = self.storage@;
            assert forall|j: int| 0 <= j < l implies s[j] != 0 by {
                assert(s[j] == upper_byte(old(self).storage()[j]));
            }
            assert(s[l as int] == 0);
            lemma_first_nul_is_first(s, l as int);
            assert(nul_prefix(s) =~= upper_fold(old(self)@));
        }
    }

    /// Fold the content to lowercase in place.
    pub fn lowercase(&mut self)
        requires
            old(self).wf(),
        ensures
            final(self).wf(),
            final(self)@ == lower_fold(old(self)@),
            final(self).storage().len() == old(self).storage().len(),
    {
        let l = self.len();
        proof {
            lemma_first_nul(old(self).storage());
            lemma_fold_keeps_nonzero();
        }
        fold_range_wide(&mut self.storage, l, 0x41, 0x5A);
        proof {
            let s = self.storage@;
            assert forall|j: int| 0 <= j < l implies s[j] != 0 by {
                assert(s[j] == lower_byte(old(self).storage()[j]));
            }
            assert(s[l as int] == 0);
            lemma_first_nul_is_first(s, l as int);
            assert(nul_prefix(s) =~= lower_fold(old(self)@));
        }
    }

    /// Give up write access: the same storage as a read-only handle.
    pub fn into_cstr(self) -> (r: CStr)
        requires
            self.wf(),
        ensures
            r.wf(),
            r.storage() == self.storage(),
            r@ == self@,
    {
        CStr::from_chars_unchecked(self.storage)
    }
}

} // verus!
