//! `CSubStr`: a contiguous run of bytes independent of any terminator.
//!
//! Every other string type of the crate reads and mutates its content
//! through this one. A substring asserts nothing about zero bytes: it is
//! plain data, and its view is exactly its byte sequence.

use vstd::prelude::*;
use vstd::slice::slice_to_vec;
use crate::fold::{
    fold_range_scalar, fold_range_wide, lower_fold, upper_fold,
};

verus! {

/// A run of bytes with no ownership of (or claim about) any terminator.
pub struct CSubStr {
    chars: Vec<u8>,
}

impl View for CSubStr {
    type V = Seq<u8>;

    closed spec fn view(&self) -> Seq<u8> {
        self.chars@
    }
}

impl CSubStr {
    /// Wrap a byte run as a substring; any content is admissible.
    pub fn from_bytes_unchecked(chars: Vec<u8>) -> (r: Self)
        ensures
            r@ == chars@,
    {
        CSubStr { chars }
    }

    /// Wrap the UTF-8 bytes of `s` as a substring.
    pub fn from_str_unchecked(s: &str) -> (r: Self)
        ensures
            r@ == vstd::utf8::encode_utf8(s@),
    {
        CSubStr { chars: slice_to_vec(s.as_bytes()) }
    }

    /// Number of bytes in the run.
    pub fn len(&self) -> (r: usize)
        ensures
            r == self@.len(),
    {
        self.chars.len()
    }

    /// The run as a borrowed slice.
    pub fn as_bytes(&self) -> (r: &[u8])
        ensures
            r@ == self@,
    {
        self.chars.as_slice()
    }

    /// Read the byte at `i`.
    pub fn get(&self, i: usize) -> (r: u8)
        requires
            i < self@.len(),
        ensures
            r == self@[i as int],
    {
        self.chars[i]
    }

    /// Overwrite the byte at `i`.
    pub fn set(&mut self, i: usize, b: u8)
        requires
            i < old(self)@.len(),
        ensures
            final(self)@ == old(self)@.update(i as int, b),
    {
        self.chars[i] = b;
    }

    /// Fold every ASCII lowercase letter to uppercase, in place, through
    /// the width-adaptive fast path.
    pub fn uppercase(&mut self)
        ensures
            final(self)@ == upper_fold(old(self)@),
    {
        let end = self.chars.len();
        fold_range_wide(&mut self.chars, end, 0x61, 0x7A);
        proof {
            assert(self.chars@ =~= upper_fold(old(self)@));
        }
    }

    /// Fold every ASCII uppercase letter to lowercase, in place, through
    /// the width-adaptive fast path.
    pub fn lowercase(&mut self)
        ensures
            final(self)@ == lower_fold(old(self)@),
    {
        let end = self.chars.len();
        fold_range_wide(&mut self.chars, end, 0x41, 0x5A);
        proof {
            assert(self.chars@ =~= lower_fold(old(self)@));
        }
    }

    /// Scalar reference path for `uppercase`; it carries the same contract,
    /// so the two paths agree on every input.
    pub fn uppercase_scalar(&mut self)
        ensures
            final(self)@ == upper_fold(old(self)@),
    {
        let end = self.chars.len();
        fold_range_scalar(&mut self.chars, end, 0x61, 0x7A);
        proof {
            assert(self.chars@ =~= upper_fold(old(self)@));
        }
    }

    /// Scalar reference path for `lowercase`.
    pub fn lowercase_scalar(&mut self)
        ensures
            final(self)@ == lower_fold(old(self)@),
    {
        let end = self.chars.len();
        fold_range_scalar(&mut self.chars, end, 0x41, 0x5A);
        proof {
            assert(self.chars@ =~= lower_fold(old(self)@));
        }
    }
}

impl CSubStr {
    /// Whether `pat` occurs in this run, by the pattern's own strategy and
    /// match rule.
    pub fn contains<P: crate::pattern::CPattern>(&self, pat: P) -> (r: bool)
        requires
            pat.valid(),
        ensures
            r == pat.found_in(self@),
    {
        let mut searcher = pat.into_searcher(self);
        let found = crate::pattern::CSearcher::next_match(&mut searcher);
        found.is_some()
    }

    /// An owned nul-terminated copy; content past a zero byte of the run
    /// (if any) falls outside the copy's logical content.
    pub fn to_cstring(&self) -> (r: crate::string::CString)
        requires
            self@.len() < usize::MAX,
        ensures
            r.wf(),
            r@ == crate::bytes::nul_prefix(self@),
            r.cap() == self@.len(),
    {
        crate::string::CString::from_substr(self)
    }

    /// An uppercased owned copy; the substring itself is untouched.
    pub fn to_uppercase(&self) -> (r: crate::string::CString)
        requires
            self@.len() < usize::MAX,
        ensures
            r.wf(),
            r@ == upper_fold(crate::bytes::nul_prefix(self@)),
    {
        let mut r = self.to_cstring();
        r.uppercase();
        r
    }

    /// A lowercased owned copy; the substring itself is untouched.
    pub fn to_lowercase(&self) -> (r: crate::string::CString)
        requires
            self@.len() < usize::MAX,
        ensures
            r.wf(),
            r@ == lower_fold(crate::bytes::nul_prefix(self@)),
    {
        let mut r = self.to_cstring();
        r.lowercase();
        r
    }
}

impl PartialEq for CSubStr {
    /// Byte-wise equality.
    fn eq(&self, other: &Self) -> (r: bool) {
        crate::bytes::bytes_eq(self.chars.as_slice(), other.chars.as_slice())
    }
}

impl Eq for CSubStr {

}

impl vstd::std_specs::cmp::PartialEqSpecImpl for CSubStr {
    open spec fn obeys_eq_spec() -> bool {
        true
    }

    open spec fn eq_spec(&self, other: &Self) -> bool {
        self@ == other@
    }
}

} // verus!
