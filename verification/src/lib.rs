//! Null-terminated byte strings with verified invariants.
//!
//! The crate offers a family of C-string types: `CSubStr`, a plain run of
//! bytes independent of any terminator; `CStr` and `CMutStr`, read-only and
//! read-write handles over nul-terminated storage; and `CString`, a growable
//! buffer that owns its storage and keeps exactly one trailing zero byte
//! after every operation. On top of those sit a pattern-search abstraction
//! (`CPattern`, `CSearcher`) and an in-place ASCII case-folding transform
//! with a wide, lane-parallel fast path and a scalar reference path that
//! provably agree.

pub mod bytes;
pub mod const_cstr;
pub mod error;
pub mod fold;
pub mod mut_cstr;
pub mod pattern;
pub mod string;
pub mod substr;

pub use bytes::{first_nul, has_nul, lemma_first_nul, lemma_round_trip, nul_prefix};
pub use const_cstr::CStr;
pub use error::{AllocationFailure, NulError};
pub use fold::{lemma_case_fold_involution, lower_byte, lower_fold, upper_byte, upper_fold};
pub use mut_cstr::CMutStr;
pub use pattern::{
    lemma_char_scan_coverage, lemma_substr_scan_coverage, CCharSearcher, CPattern, CSearcher,
    CSubStrSearcher, SearchStep,
};
pub use string::{lemma_terminator_invariant, CString};
pub use substr::CSubStr;

use vstd::prelude::*;

verus! {

/// Relies on `Vec::capacity` of std: the number of elements the vector
/// can hold without reallocating, never less than its length.
#[verifier::external_body]
fn vec_capacity<T>(v: &Vec<T>) -> (r: usize)
    ensures
        r >= v@.len(),
{
    v.capacity()
}

/// Split a vector into the pieces its raw decomposition consists of: the
/// storage itself, standing in for the pointer that owns it, together
/// with its length and its capacity.
pub fn vec_into_raw_parts<T>(v: Vec<T>) -> (r: (Vec<T>, usize, usize))
    ensures
        r.0@ == v@,
        r.1 == v@.len(),
        r.2 >= v@.len(),
{
    let len = v.len();
    let capacity = vec_capacity(&v);
    (v, len, capacity)
}

} // verus!
