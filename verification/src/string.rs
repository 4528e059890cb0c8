//! `CString`: the owning, growable nul-terminated buffer.
//!
//! The buffer is either `Empty` — a zero-capacity placeholder that owns no
//! storage at all, mirroring a shared static one-byte terminator — or
//! `Allocated`, holding storage of exactly `capacity + 1` bytes. In every
//! well-formed state the storage holds a zero byte; the byte at offset
//! `len()` is zero and no byte before it is, so the length can always be
//! recovered by a terminator scan. Growth is exact-fit: when an operation
//! needs more room than the capacity offers, the buffer reallocates to
//! exactly the needed size, copies content plus terminator, and only then
//! replaces the old storage — on any failure the buffer is left untouched.

use vstd::prelude::*;
use vstd::slice::{slice_subrange, slice_to_vec};
use vstd::utf8::encode_utf8;
use crate::bytes::{
    find_byte, first_nul, has_nul, lemma_first_nul, lemma_first_nul_is_first, nul_prefix,
    scan_nul,
};
use crate::error::{AllocationFailure, NulError};
use crate::fold::{
    fold_range_wide, lemma_fold_keeps_nonzero, lower_byte, lower_fold, upper_byte, upper_fold,
};
use crate::substr::CSubStr;

verus! {

/// An owning nul-terminated byte buffer.
pub enum CString {
    /// The zero-capacity placeholder: no storage is owned; the logical
    /// storage is a single terminator byte.
    Empty,
    /// Owned storage of exactly `capacity + 1` bytes.
    Allocated { buf: Vec<u8> },
}

impl View for CString {
    type V = Seq<u8>;

    /// The logical content: every storage byte before the terminator.
    open spec fn view(&self) -> Seq<u8> {
        nul_prefix(self.storage())
    }
}

impl CString {
    /// The bytes the buffer addresses, terminator slot included.
    pub closed spec fn storage(self) -> Seq<u8> {
        match self {
            CString::Empty => seq![0u8],
            CString::Allocated { buf } => buf@,
        }
    }

    /// Bytes the buffer can hold without growing, terminator excluded.
    pub closed spec fn cap(self) -> int {
        match self {
            CString::Empty => 0,
            CString::Allocated { buf } => buf@.len() - 1,
        }
    }

    /// Well-formedness: the storage holds a terminator, so the byte at
    /// offset `len()` is zero and no byte at a smaller offset is.
    pub open spec fn wf(self) -> bool {
        has_nul(self.storage())
    }

    /// A new buffer: the placeholder state, no allocation performed.
    pub fn new() -> (r: Self)
        ensures
            r.wf(),
            r@ == Seq::<u8>::empty(),
            r.cap() == 0,
            r is Empty,
    {
        let r = CString::Empty;
        proof {
            assert(r.storage()[0] == 0);
            assert(r@ =~= Seq::<u8>::empty());
        }
        r
    }

    /// An empty buffer with room for `capacity` content bytes, allocated
    /// up front.
    pub fn with_capacity(capacity: usize) -> (r: Self)
        requires
            capacity < usize::MAX,
        ensures
            r.wf(),
            r@ == Seq::<u8>::empty(),
            r.cap() == capacity,
            r is Allocated,
    {
        let buf = zero_vec(capacity + 1);
        let r = CString::Allocated { buf };
        proof {
            assert(r.storage()[0] == 0);
            lemma_first_nul_is_first(r.storage(), 0);
            assert(r@ =~= Seq::<u8>::empty());
        }
        r
    }

    /// `with_capacity`, reporting (instead of ruling out) the one failure
    /// the model can produce: a capacity so large that the terminator slot
    /// no longer fits in the address space.
    pub fn try_with_capacity(capacity: usize) -> (r: Result<Self, AllocationFailure>)
        ensures
            (r is Ok) == (capacity < usize::MAX),
            match r {
                Ok(c) => c.wf() && c@ == Seq::<u8>::empty() && c.cap() == capacity
                    && c is Allocated,
                Err(_) => true,
            },
    {
        if capacity < usize::MAX {
            Ok(Self::with_capacity(capacity))
        } else {
            Err(AllocationFailure)
        }
    }

    /// Whether the buffer still sits in the unallocated placeholder state.
    pub fn is_placeholder(&self) -> (r: bool)
        ensures
            r == (self is Empty),
    {
        match self {
            CString::Empty => true,
            CString::Allocated { .. } => false,
        }
    }

    /// Content length, recovered by a terminator scan over the storage.
    pub fn len(&self) -> (r: usize)
        requires
            self.wf(),
        ensures
            r == self@.len(),
            r == first_nul(self.storage()),
            r <= self.cap(),
    {
        proof {
            lemma_first_nul(self.storage());
        }
        match self {
            CString::Empty => 0,
            CString::Allocated { buf } => scan_nul(buf.as_slice()),
        }
    }

    /// Capacity in content bytes; the live storage is one byte larger.
    pub fn capacity(&self) -> (r: usize)
        requires
            self.wf(),
        ensures
            r == self.cap(),
    {
        match self {
            CString::Empty => 0,
            CString::Allocated { buf } => {
                proof {
                    lemma_first_nul(buf@);
                }
                buf.len() - 1
            },
        }
    }

    /// The content bytes, copied out; the terminator is not included.
    pub fn as_bytes(&self) -> (r: Vec<u8>)
        requires
            self.wf(),
        ensures
            r@ == self@,
            r@.len() < usize::MAX,
    {
        match self {
            CString::Empty => {
                let r = Vec::new();
                proof {
                    assert(r@ =~= self@);
                }
                r
            },
            CString::Allocated { buf } => {
                let n = buf.len();
                let l = scan_nul(buf.as_slice());
                proof {
                    lemma_first_nul(buf@);
                    assert(l < n);
                }
                let r = slice_to_vec(slice_subrange(buf.as_slice(), 0, l));
                proof {
                    assert(r@ =~= self@);
                }
                r
            },
        }
    }

    /// The content bytes followed by the terminator, copied out.
    pub fn as_bytes_with_nul(&self) -> (r: Vec<u8>)
        requires
            self.wf(),
        ensures
            r@ == self@.push(0),
    {
        match self {
            CString::Empty => {
                let mut r = Vec::new();
                r.push(0u8);
                proof {
                    assert(r@ =~= self@.push(0));
                }
                r
            },
            CString::Allocated { buf } => {
                let n = buf.len();
                let l = scan_nul(buf.as_slice());
                proof {
                    lemma_first_nul(buf@);
                    assert(l < n);
                }
                let r = slice_to_vec(slice_subrange(buf.as_slice(), 0, l + 1));
                proof {
                    assert(r@ =~= self@.push(0));
                }
                r
            },
        }
    }

    /// The content as a substring.
    pub fn as_substr(&self) -> (r: CSubStr)
        requires
            self.wf(),
        ensures
            r@ == self@,
            r@.len() < usize::MAX,
    {
        CSubStr::from_bytes_unchecked(self.as_bytes())
    }

    /// The content, with its terminator, as an owned read-only handle.
    pub fn as_cstr(&self) -> (r: crate::const_cstr::CStr)
        requires
            self.wf(),
        ensures
            r.wf(),
            r@ == self@,
    {
        let v = self.as_bytes_with_nul();
        proof {
            assert(v@[self@.len() as int] == 0);
            assert(has_nul(v@));
            lemma_first_nul(self.storage());
            assert(forall|j: int| 0 <= j < self@.len() ==> self@[j] == self.storage()[j]);
        }
        let r = crate::const_cstr::CStr::from_chars_unchecked(v);
        proof {
            crate::bytes::lemma_round_trip(self@);
            crate::bytes::lemma_first_nul_is_first(r.storage(), self@.len() as int);
            assert(r@ =~= self@);
        }
        r
    }

    /// The content, with its terminator, as an owned mutable handle.
    pub fn as_mut_cstr(&self) -> (r: crate::mut_cstr::CMutStr)
        requires
            self.wf(),
        ensures
            r.wf(),
            r@ == self@,
    {
        let v = self.as_bytes_with_nul();
        proof {
            assert(v@[self@.len() as int] == 0);
            assert(has_nul(v@));
            lemma_first_nul(self.storage());
            assert(forall|j: int| 0 <= j < self@.len() ==> self@[j] == self.storage()[j]);
        }
        let r = crate::mut_cstr::CMutStr::from_chars_unchecked(v);
        proof {
            crate::bytes::lemma_round_trip(self@);
            crate::bytes::lemma_first_nul_is_first(r.storage(), self@.len() as int);
            assert(r@ =~= self@);
        }
        r
    }

    /// Truncate the content to nothing by writing a terminator at offset
    /// zero; capacity and storage are kept.
    pub fn clear(&mut self)
        requires
            old(self).wf(),
        ensures
            final(self).wf(),
            final(self)@ == Seq::<u8>::empty(),
            final(self).cap() == old(self).cap(),
            (*final(self) is Empty) == (*old(self) is Empty),
    {
        match self {
            CString::Empty => {
                proof {
                    assert(self@ =~= Seq::<u8>::empty());
                }
            },
            CString::Allocated { buf } => {
                proof {
                    lemma_first_nul(buf@);
                }
                buf[0] = 0;
                proof {
                    lemma_first_nul_is_first(buf@, 0);
                    assert(nul_prefix(buf@) =~= Seq::<u8>::empty());
                }
            },
        }
    }
}

impl CString {
    /// Exact-fit reallocation to `new_cap` content bytes: fresh storage of
    /// `new_cap + 1` bytes takes a copy of content plus terminator, and
    /// only then replaces the old storage.
    fn grow_to(&mut self, new_cap: usize)
        requires
            old(self).wf(),
            old(self)@.len() <= new_cap,
            new_cap < usize::MAX,
        ensures
            final(self).wf(),
            final(self)@ == old(self)@,
            final(self).cap() == new_cap,
            *final(self) is Allocated,
    {
        let l = self.len();
        proof {
            lemma_first_nul(old(self).storage());
        }
        let nb: Vec<u8> = match self {
            CString::Empty => zero_vec(new_cap + 1),
            CString::Allocated { buf } => copy_resize(buf.as_slice(), l + 1, new_cap + 1),
        };
        *self = CString::Allocated { buf: nb };
        proof {
            let s_old = old(self).storage();
            let s_new = self.storage();
            assert forall|j: int| 0 <= j < l implies s_new[j] == s_old[j] && s_new[j] != 0 by {}
            assert(s_new[l as int] == 0);
            lemma_first_nul_is_first(s_new, l as int);
            assert(nul_prefix(s_new) =~= old(self)@);
        }
    }

    /// Make room for `additional` more content bytes. Growth is exact-fit:
    /// when the current capacity already suffices nothing at all changes
    /// (not even a placeholder is replaced); otherwise the buffer
    /// reallocates to exactly `len + additional`. The only failure is
    /// capacity arithmetic overflowing the address space, and a failed
    /// call leaves the buffer untouched.
    pub fn try_reserve(&mut self, additional: usize) -> (r: Result<(), AllocationFailure>)
        requires
            old(self).wf(),
        ensures
            final(self).wf(),
            (r is Ok) == (old(self)@.len() + additional <= old(self).cap() || old(self)@.len()
                + additional < usize::MAX),
            r is Err ==> *final(self) == *old(self),
            r is Ok ==> final(self)@ == old(self)@,
            r is Ok && old(self)@.len() + additional <= old(self).cap() ==> *final(self) == *old(
                self,
            ),
            r is Ok && old(self)@.len() + additional > old(self).cap() ==> final(self).cap()
                == old(self)@.len() + additional && *final(self) is Allocated,
    {
        let l = self.len();
        let c = self.capacity();
        if additional <= c && l <= c - additional {
            Ok(())
        } else if additional < usize::MAX - l {
            let new_cap = l + additional;
            self.grow_to(new_cap);
            Ok(())
        } else {
            Err(AllocationFailure)
        }
    }

    /// `try_reserve`, with the overflow case ruled out by contract.
    pub fn reserve(&mut self, additional: usize)
        requires
            old(self).wf(),
            old(self)@.len() + additional <= old(self).cap() || old(self)@.len() + additional
                < usize::MAX,
        ensures
            final(self).wf(),
            final(self)@ == old(self)@,
            old(self)@.len() + additional <= old(self).cap() ==> *final(self) == *old(self),
            old(self)@.len() + additional > old(self).cap() ==> final(self).cap() == old(self)@.len()
                + additional && *final(self) is Allocated,
    {
        let r = self.try_reserve(additional);
        match r {
            Ok(()) => (),
            Err(_) => {
                proof {
                    assert(false);
                }
            },
        }
    }

    /// Identical to `try_reserve`: the growth policy is already exact-fit,
    /// so no slack is there to omit.
    pub fn try_reserve_exact(&mut self, additional: usize) -> (r: Result<(), AllocationFailure>)
        requires
            old(self).wf(),
        ensures
            final(self).wf(),
            (r is Ok) == (old(self)@.len() + additional <= old(self).cap() || old(self)@.len()
                + additional < usize::MAX),
            r is Err ==> *final(self) == *old(self),
            r is Ok ==> final(self)@ == old(self)@,
            r is Ok && old(self)@.len() + additional <= old(self).cap() ==> *final(self) == *old(
                self,
            ),
            r is Ok && old(self)@.len() + additional > old(self).cap() ==> final(self).cap()
                == old(self)@.len() + additional && *final(self) is Allocated,
    {
        self.try_reserve(additional)
    }

    /// Identical to `reserve`.
    pub fn reserve_exact(&mut self, additional: usize)
        requires
            old(self).wf(),
            old(self)@.len() + additional <= old(self).cap() || old(self)@.len() + additional
                < usize::MAX,
        ensures
            final(self).wf(),
            final(self)@ == old(self)@,
            old(self)@.len() + additional <= old(self).cap() ==> *final(self) == *old(self),
            old(self)@.len() + additional > old(self).cap() ==> final(self).cap() == old(self)@.len()
                + additional && *final(self) is Allocated,
    {
        self.reserve(additional)
    }

    /// Append one non-zero content byte, reporting (instead of ruling out)
    /// capacity overflow. The byte lands at offset `len()`, and a fresh
    /// terminator right after it.
    pub fn try_push_unchecked(&mut self, c: u8) -> (r: Result<(), AllocationFailure>)
        requires
            old(self).wf(),
            c != 0,
        ensures
            final(self).wf(),
            (r is Ok) == (old(self)@.len() + 1 <= old(self).cap() || old(self)@.len() + 1
                < usize::MAX),
            r is Err ==> *final(self) == *old(self),
            r is Ok ==> final(self)@ == old(self)@.push(c),
            r is Ok ==> final(self).cap() == if old(self)@.len() + 1 <= old(self).cap() {
                old(self).cap()
            } else {
                (old(self)@.len() + 1) as int
            },
    {
        let l = self.len();
        match self.try_reserve(1) {
            Err(e) => Err(e),
            Ok(()) => {
                let ghost mid = *self;
                match self {
                    CString::Empty => {
                        proof {
                            assert(false);
                        }
                        Ok(())
                    },
                    CString::Allocated { buf } => {
                        let bl = buf.len();
                        proof {
                            lemma_first_nul(mid.storage());
                            assert(first_nul(mid.storage()) == l);
                            assert(bl == mid.cap() + 1);
                            assert(l + 1 < bl);
                        }
                        buf[l] = c;
                        buf[l + 1] = 0;
                        proof {
                            let s = buf@;
                            assert forall|j: int| 0 <= j < l implies s[j] != 0 by {
                                assert(s[j] == mid.storage()[j]);
                            }
                            lemma_first_nul_is_first(s, l + 1);
                            assert forall|j: int| 0 <= j < l implies s[j] == old(self)@[j] by {
                                assert(s[j] == mid.storage()[j]);
                                assert(mid@[j] == mid.storage()[j]);
                            }
                            assert(nul_prefix(s) =~= old(self)@.push(c));
                        }
                        Ok(())
                    },
                }
            },
        }
    }

    /// Append one non-zero content byte; the zero byte is excluded by
    /// contract, since it would plant a second terminator.
    pub fn push(&mut self, c: u8)
        requires
            old(self).wf(),
            c != 0,
            old(self)@.len() + 1 <= old(self).cap() || old(self)@.len() + 2 <= usize::MAX,
        ensures
            final(self).wf(),
            final(self)@ == old(self)@.push(c),
            final(self).cap() == if old(self)@.len() + 1 <= old(self).cap() {
                old(self).cap()
            } else {
                (old(self)@.len() + 1) as int
            },
    {
        let r = self.try_push_unchecked(c);
        match r {
            Ok(()) => (),
            Err(_) => {
                proof {
                    assert(false);
                }
            },
        }
    }

    /// Append one ASCII character; the nul character is excluded by
    /// contract as `push` excludes the zero byte.
    pub fn push_char(&mut self, c: char)
        requires
            old(self).wf(),
            0 < (c as u32) && (c as u32) < 0x80,
            old(self)@.len() + 1 <= old(self).cap() || old(self)@.len() + 2 <= usize::MAX,
        ensures
            final(self).wf(),
            final(self)@ == old(self)@.push((c as u32) as u8),
            final(self).cap() == if old(self)@.len() + 1 <= old(self).cap() {
                old(self).cap()
            } else {
                (old(self)@.len() + 1) as int
            },
    {
        let code = c as u32;
        let b = code as u8;
        self.push(b);
    }

    /// Append a substring: reserve room for all of its bytes, copy them in
    /// starting at the current length, and write a fresh terminator right
    /// after them. Content past the substring's own first zero byte (if it
    /// has one) ends up beyond the new terminator, outside the logical
    /// content.
    pub fn append(&mut self, chars: &CSubStr)
        requires
            old(self).wf(),
            old(self)@.len() + chars@.len() <= old(self).cap() || old(self)@.len() + chars@.len()
                < usize::MAX,
        ensures
            final(self).wf(),
            final(self)@ == old(self)@ + nul_prefix(chars@),
            final(self).cap() == if old(self)@.len() + chars@.len() <= old(self).cap() {
                old(self).cap()
            } else {
                (old(self)@.len() + chars@.len()) as int
            },
    {
        let n = chars.len();
        self.reserve(n);
        let l = self.len();
        let ghost mid = *self;
        proof {
            lemma_first_nul(mid.storage());
            lemma_first_nul(chars@);
        }
        match self {
            CString::Empty => {
                proof {
                    assert(chars@.len() == 0);
                    assert(nul_prefix(chars@) =~= Seq::<u8>::empty());
                    assert(self@ =~= old(self)@ + nul_prefix(chars@));
                }
            },
            CString::Allocated { buf } => {
                let bl = buf.len();
                proof {
                    assert(bl == mid.cap() + 1);
                    assert(l + n < bl);
                }
                let mut k: usize = 0;
                while k < n
                    invariant
                        k <= n,
                        n == chars@.len(),
                        buf@.len() == bl,
                        l + n < bl,
                        l == first_nul(mid.storage()),
                        forall|j: int| 0 <= j < l ==> buf@[j] == mid.storage()[j],
                        forall|j: int| l <= j < l + k ==> buf@[j] == chars@[j - l],
                    decreases n - k,
                {
                    let b = chars.get(k);
                    buf[l + k] = b;
                    k += 1;
                }
                buf[l + n] = 0;
                proof {
                    let s = buf@;
                    let m = first_nul(chars@);
                    assert(s[l + m] == 0) by {
                        if m < n {
                            assert(s[l + m] == chars@[m]);
                        }
                    }
                    assert forall|j: int| 0 <= j < l + m implies s[j] != 0 by {
                        if j < l {
                            assert(s[j] == mid.storage()[j]);
                        } else {
                            assert(s[j] == chars@[j - l]);
                        }
                    }
                    lemma_first_nul_is_first(s, l + m);
                    assert forall|j: int| 0 <= j < l implies s[j] == old(self)@[j] by {
                        assert(s[j] == mid.storage()[j]);
                        assert(mid@[j] == mid.storage()[j]);
                    }
                    assert(nul_prefix(s) =~= old(self)@ + nul_prefix(chars@));
                }
            },
        }
    }

    /// An owned copy of a substring's content, with exactly the needed
    /// capacity.
    pub fn from_substr(sub: &CSubStr) -> (r: Self)
        requires
            sub@.len() < usize::MAX,
        ensures
            r.wf(),
            r@ == nul_prefix(sub@),
            r.cap() == sub@.len(),
    {
        let mut this = Self::with_capacity(sub.len());
        this.append(sub);
        proof {
            assert(this@ =~= nul_prefix(sub@));
        }
        this
    }
}

impl CString {
    /// Validate and adopt a byte run that should already carry its
    /// terminator: accepted exactly when the first zero byte of the input
    /// is its last byte. On rejection the original bytes come back inside
    /// the error, together with the position of the offending zero byte
    /// (`None` when there was no zero byte at all).
    pub fn from_bytes_with_nul(bytes: Vec<u8>) -> (r: Result<Self, NulError>)
        ensures
            (r is Ok) == (has_nul(bytes@) && first_nul(bytes@) == bytes@.len() - 1),
            match r {
                Ok(c) => c.wf() && c@ == bytes@.take(bytes@.len() - 1) && c.cap() == bytes@.len()
                    - 1 && c is Allocated,
                Err(e) => e.bytes_spec() == bytes@ && e.pos_spec() == (if has_nul(bytes@) {
                    Some(first_nul(bytes@) as usize)
                } else {
                    None::<usize>
                }),
            },
    {
        let n = bytes.len();
        let found = find_byte(0, bytes.as_slice());
        match found {
            Some(pos) => {
                proof {
                    lemma_first_nul_is_first(bytes@, pos as int);
                    assert(pos < n);
                }
                if pos + 1 == bytes.len() {
                    let c = CString::Allocated { buf: bytes };
                    proof {
                        assert(c@ =~= bytes@.take(bytes@.len() - 1));
                    }
                    Ok(c)
                } else {
                    Err(NulError::new(Some(pos), bytes))
                }
            },
            None => {
                proof {
                    if has_nul(bytes@) {
                        let w = choose|i: int| 0 <= i < bytes@.len() && bytes@[i] == 0;
                        assert(bytes@[w] == 0);
                        assert(false);
                    }
                }
                Err(NulError::new(None, bytes))
            },
        }
    }

    /// Append a terminator to a byte run and adopt it: accepted exactly
    /// when the run holds no zero byte of its own. A rejected run comes
    /// back with the appended terminator still in place.
    pub fn from_bytes(bytes: Vec<u8>) -> (r: Result<Self, NulError>)
        ensures
            (r is Ok) == !has_nul(bytes@),
            match r {
                Ok(c) => c.wf() && c@ == bytes@ && c.cap() == bytes@.len() && c is Allocated,
                Err(e) => e.bytes_spec() == bytes@.push(0) && e.pos_spec() == Some(
                    first_nul(bytes@) as usize,
                ),
            },
    {
        let mut b = bytes;
        b.push(0);
        proof {
            lemma_first_nul(bytes@);
            assert(b@.len() == bytes@.len() + 1);
            assert(forall|j: int| 0 <= j < bytes@.len() ==> b@[j] == bytes@[j]);
            assert(b@[bytes@.len() as int] == 0);
            assert(has_nul(b@));
            if has_nul(bytes@) {
                lemma_first_nul_is_first(b@, first_nul(bytes@));
            } else {
                crate::bytes::lemma_round_trip(bytes@);
                lemma_first_nul_is_first(b@, bytes@.len() as int);
            }
        }
        let r = Self::from_bytes_with_nul(b);
        proof {
            match r {
                Ok(ref c) => {
                    assert(c@ =~= bytes@);
                },
                Err(_) => {},
            }
        }
        r
    }

    /// Adopt the UTF-8 bytes of a string, appending a terminator:
    /// accepted exactly when the encoding holds no zero byte.
    pub fn from_string(s: String) -> (r: Result<Self, NulError>)
        ensures
            (r is Ok) == !has_nul(encode_utf8(s@)),
            match r {
                Ok(c) => c.wf() && c@ == encode_utf8(s@) && c.cap() == encode_utf8(s@).len()
                    && c is Allocated,
                Err(e) => e.bytes_spec() == encode_utf8(s@).push(0) && e.pos_spec() == Some(
                    first_nul(encode_utf8(s@)) as usize,
                ),
            },
    {
        let b = slice_to_vec(s.as_str().as_bytes());
        Self::from_bytes(b)
    }

    /// Validate the UTF-8 bytes of a string that should already end in a
    /// nul character.
    pub fn from_string_with_nul(s: String) -> (r: Result<Self, NulError>)
        ensures
            (r is Ok) == (has_nul(encode_utf8(s@)) && first_nul(encode_utf8(s@)) == encode_utf8(
                s@,
            ).len() - 1),
            match r {
                Ok(c) => c.wf() && c@ == encode_utf8(s@).take(encode_utf8(s@).len() - 1)
                    && c.cap() == encode_utf8(s@).len() - 1 && c is Allocated,
                Err(e) => e.bytes_spec() == encode_utf8(s@) && e.pos_spec() == (if has_nul(
                    encode_utf8(s@),
                ) {
                    Some(first_nul(encode_utf8(s@)) as usize)
                } else {
                    None::<usize>
                }),
            },
    {
        let b = slice_to_vec(s.as_str().as_bytes());
        Self::from_bytes_with_nul(b)
    }

    /// Fold the content to uppercase in place; storage shape, capacity and
    /// the terminator position are untouched.
    pub fn uppercase(&mut self)
        requires
            old(self).wf(),
        ensures
            final(self).wf(),
            final(self)@ == upper_fold(old(self)@),
            final(self).cap() == old(self).cap(),
            (*final(self) is Empty) == (*old(self) is Empty),
    {
        let l = self.len();
        proof {
            lemma_first_nul(old(self).storage());
            lemma_fold_keeps_nonzero();
        }
        match self {
            CString::Empty => {
                proof {
                    assert(upper_fold(old(self)@) =~= old(self)@);
                }
            },
            CString::Allocated { buf } => {
                fold_range_wide(buf, l, 0x61, 0x7A);
                proof {
                    let s = buf@;
                    assert forall|j: int| 0 <= j < l implies s[j] != 0 by {
                        assert(s[j] == upper_byte(old(self).storage()[j]));
                    }
                    assert(s[l as int] == 0);
                    lemma_first_nul_is_first(s, l as int);
                    assert(nul_prefix(s) =~= upper_fold(old(self)@));
                }
            },
        }
    }

    /// Fold the content to lowercase in place.
    pub fn lowercase(&mut self)
        requires
            old(self).wf(),
        ensures
            final(self).wf(),
            final(self)@ == lower_fold(old(self)@),
            final(self).cap() == old(self).cap(),
            (*final(self) is Empty) == (*old(self) is Empty),
    {
        let l = self.len();
        proof {
            lemma_first_nul(old(self).storage());
            lemma_fold_keeps_nonzero();
        }
        match self {
            CString::Empty => {
                proof {
                    assert(lower_fold(old(self)@) =~= old(self)@);
                }
            },
            CString::Allocated { buf } => {
                fold_range_wide(buf, l, 0x41, 0x5A);
                proof {
                    let s = buf@;
                    assert forall|j: int| 0 <= j < l implies s[j] != 0 by {
                        assert(s[j] == lower_byte(old(self).storage()[j]));
                    }
                    assert(s[l as int] == 0);
                    lemma_first_nul_is_first(s, l as int);
                    assert(nul_prefix(s) =~= lower_fold(old(self)@));
                }
            },
        }
    }

    /// An uppercased copy; the original is untouched.
    pub fn to_uppercase(&self) -> (r: CString)
        requires
            self.wf(),
        ensures
            r.wf(),
            r@ == upper_fold(self@),
    {
        let sub = self.as_substr();
        proof {
            lemma_first_nul(self.storage());
            crate::bytes::lemma_round_trip(sub@);
        }
        let mut r = CString::from_substr(&sub);
        r.uppercase();
        r
    }

    /// A lowercased copy; the original is untouched.
    pub fn to_lowercase(&self) -> (r: CString)
        requires
            self.wf(),
        ensures
            r.wf(),
            r@ == lower_fold(self@),
    {
        let sub = self.as_substr();
        proof {
            lemma_first_nul(self.storage());
            crate::bytes::lemma_round_trip(sub@);
        }
        let mut r = CString::from_substr(&sub);
        r.lowercase();
        r
    }
}

/// The terminator invariant, as every operation leaves it: the byte at
/// offset `len()` of a well-formed buffer is zero, and no byte at a
/// smaller offset is.
pub proof fn lemma_terminator_invariant(s: CString)
    requires
        s.wf(),
    ensures
        s@.len() == first_nul(s.storage()),
        s.storage()[s@.len() as int] == 0,
        forall|j: int| 0 <= j < s@.len() ==> s.storage()[j] != 0,
{
    lemma_first_nul(s.storage());
}

/// Fresh storage of `total` bytes: the first `keep` copied from `src`, the
/// rest zero.
fn copy_resize(src: &[u8], keep: usize, total: usize) -> (v: Vec<u8>)
    requires
        keep <= src@.len(),
        keep <= total,
    ensures
        v@.len() == total,
        forall|j: int| 0 <= j < keep ==> v@[j] == src@[j],
        forall|j: int| keep <= j < total ==> v@[j] == 0,
{
    let mut v: Vec<u8> = Vec::new();
    let mut i: usize = 0;
    while i < keep
        invariant
            i <= keep,
            keep <= src@.len(),
            v@.len() == i,
            forall|j: int| 0 <= j < i ==> v@[j] == src@[j],
        decreases keep - i,
    {
        let b = src[i];
        v.push(b);
        i += 1;
    }
    while i < total
        invariant
            keep <= i <= total,
            v@.len() == i,
            forall|j: int| 0 <= j < keep ==> v@[j] == src@[j],
            forall|j: int| keep <= j < i ==> v@[j] == 0,
        decreases total - i,
    {
        v.push(0);
        i += 1;
    }
    v
}

/// A vector of `n` zero bytes.
fn zero_vec(n: usize) -> (v: Vec<u8>)
    ensures
        v@.len() == n,
        forall|j: int| 0 <= j < n ==> v@[j] == 0,
{
    let mut v: Vec<u8> = Vec::new();
    let mut i: usize = 0;
    while i < n
        invariant
            i <= n,
            v@.len() == i,
            forall|j: int| 0 <= j < i ==> v@[j] == 0,
        decreases n - i,
    {
        v.push(0);
        i += 1;
    }
    v
}

} // verus!
