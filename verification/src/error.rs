//! Validation failures.
//!
//! `NulError` reports a byte run that was offered as a C string but holds a
//! zero byte somewhere other than its last position (or no zero byte at
//! all); it carries the offending position and the original bytes so the
//! caller can recover them. `AllocationFailure` reports capacity arithmetic
//! that would overflow; the buffer that reported it is left untouched.

use vstd::prelude::*;

verus! {

/// A byte run could not be accepted as a nul-terminated string.
#[derive(Debug)]
pub struct NulError {
    idx: Option<usize>,
    chars: Vec<u8>,
}

impl NulError {
    /// Position of the offending zero byte; `None` when the input held no
    /// zero byte at all.
    pub closed spec fn pos_spec(self) -> Option<usize> {
        self.idx
    }

    /// The original, unconsumed input bytes.
    pub closed spec fn bytes_spec(self) -> Seq<u8> {
        self.chars@
    }

    /// Package a validation failure: a reported position must point at a
    /// zero byte of the input.
    pub fn new(idx: Option<usize>, chars: Vec<u8>) -> (r: Self)
        requires
            match idx {
                Some(i) => i < chars@.len() && chars@[i as int] == 0,
                None => true,
            },
        ensures
            r.pos_spec() == idx,
            r.bytes_spec() == chars@,
    {
        NulError { idx, chars }
    }

    /// Where the offending zero byte sat, if there was one.
    pub fn nul_position(&self) -> (r: Option<usize>)
        ensures
            r == self.pos_spec(),
    {
        self.idx
    }

    /// Hand the original bytes back for recovery.
    pub fn into_bytes(self) -> (r: Vec<u8>)
        ensures
            r@ == self.bytes_spec(),
    {
        self.chars
    }
}

/// Capacity arithmetic overflowed; the operation that reported this left
/// its buffer in the pre-call state.
#[derive(Debug, PartialEq, Eq, Structural)]
pub struct AllocationFailure;

} // verus!
