//! In-place ASCII case folding.
//!
//! A byte inside the cased range is flipped by XOR with `0x20`; every other
//! byte is left alone. The transform runs as a chain of progressively
//! narrower passes: an eight-byte lane-parallel pass, a four-byte
//! lane-parallel pass on what remains, and a byte-at-a-time scalar pass on
//! the tail. A pure scalar walk over the whole range serves as the
//! reference path; both paths carry the same contract, so they agree on
//! every input length and content.

use vstd::prelude::*;

verus! {

/// Both cased ranges sit below the high bit; flipping bit `0x20` moves a
/// byte between them.
pub const CASE_MASK: u8 = 0x20;

/// Flip `b` by the case mask exactly when it lies in `lo..=hi`.
pub open spec fn flip_cased(lo: u8, hi: u8, b: u8) -> u8 {
    if lo <= b && b <= hi {
        b ^ CASE_MASK
    } else {
        b
    }
}

/// Uppercasing folds the lowercase letters `a..=z`.
pub open spec fn upper_byte(b: u8) -> u8 {
    flip_cased(0x61, 0x7A, b)
}

/// Lowercasing folds the uppercase letters `A..=Z`.
pub open spec fn lower_byte(b: u8) -> u8 {
    flip_cased(0x41, 0x5A, b)
}

/// The whole-sequence uppercase transform.
pub open spec fn upper_fold(s: Seq<u8>) -> Seq<u8> {
    s.map_values(|b: u8| upper_byte(b))
}

/// The whole-sequence lowercase transform.
pub open spec fn lower_fold(s: Seq<u8>) -> Seq<u8> {
    s.map_values(|b: u8| lower_byte(b))
}

/// Folding one way and then the other lands where the second fold alone
/// would: case folding is idempotent up to direction, and it never changes
/// a sequence's length.
pub proof fn lemma_case_fold_involution(s: Seq<u8>)
    ensures
        lower_fold(upper_fold(s)) == lower_fold(s),
        upper_fold(lower_fold(s)) == upper_fold(s),
        upper_fold(s).len() == s.len(),
        lower_fold(s).len() == s.len(),
{
    assert(forall|b: u8|
        lower_byte(upper_byte(b)) == lower_byte(b) && upper_byte(lower_byte(b)) == upper_byte(b))
        by (bit_vector);
    assert(lower_fold(upper_fold(s)) =~= lower_fold(s));
    assert(upper_fold(lower_fold(s)) =~= upper_fold(s));
}

/// Case folding maps no byte to zero, so it cannot move a terminator.
pub proof fn lemma_fold_keeps_nonzero()
    ensures
        forall|b: u8| b != 0 ==> upper_byte(b) != 0 && lower_byte(b) != 0,
{
    assert(forall|b: u8| b != 0 ==> upper_byte(b) != 0 && lower_byte(b) != 0) by (bit_vector);
}

/// Fold the eight bytes `v[i..i + 8]` in one lane-parallel step over a
/// 64-bit word.
fn fold_chunk8(v: &mut Vec<u8>, i: usize, lo: u8, hi: u8)
    requires
        i + 8 <= old(v)@.len(),
        lo <= hi,
        hi < 0x80,
    ensures
        final(v)@.len() == old(v)@.len(),
        forall|j: int| i <= j < i + 8 ==> final(v)@[j] == flip_cased(lo, hi, old(v)@[j]),
        forall|j: int|
            0 <= j < old(v)@.len() && !(i <= j < i + 8) ==> final(v)@[j] == old(v)@[j],
{
    let n = v.len();
    proof {
        assert(i + 8 <= n);
    }
    let b0 = v[i];
    let b1 = v[i + 1];
    let b2 = v[i + 2];
    let b3 = v[i + 3];
    let b4 = v[i + 4];
    let b5 = v[i + 5];
    let b6 = v[i + 6];
    let b7 = v[i + 7];
    let w: u64 = (b0 as u64) | ((b1 as u64) << 8) | ((b2 as u64) << 16) | ((b3 as u64) << 24)
        | ((b4 as u64) << 32) | ((b5 as u64) << 40) | ((b6 as u64) << 48) | ((b7 as u64) << 56);
    let low7: u64 = w & 0x7F7F7F7F7F7F7F7F;
    let ge_rep: u64 = 0x80 - (lo as u64);
    let gt_rep: u64 = 0x7F - (hi as u64);
    let ge_add: u64 = ge_rep | (ge_rep << 8) | (ge_rep << 16) | (ge_rep << 24) | (ge_rep << 32)
        | (ge_rep << 40) | (ge_rep << 48) | (ge_rep << 56);
    let gt_add: u64 = gt_rep | (gt_rep << 8) | (gt_rep << 16) | (gt_rep << 24) | (gt_rep << 32)
        | (gt_rep << 40) | (gt_rep << 48) | (gt_rep << 56);
    proof {
        assert(low7 + ge_add <= 0xFFFFFFFFFFFFFFFF && low7 + gt_add <= 0xFFFFFFFFFFFFFFFF)
            by (bit_vector)
            requires
                low7 == w & 0x7F7F7F7F7F7F7F7F,
                ge_rep == 0x80 - (lo as u64),
                gt_rep == 0x7F - (hi as u64),
                ge_add == ge_rep | (ge_rep << 8) | (ge_rep << 16) | (ge_rep << 24) | (ge_rep
                    << 32) | (ge_rep << 40) | (ge_rep << 48) | (ge_rep << 56),
                gt_add == gt_rep | (gt_rep << 8) | (gt_rep << 16) | (gt_rep << 24) | (gt_rep
                    << 32) | (gt_rep << 40) | (gt_rep << 48) | (gt_rep << 56),
                lo <= hi,
                hi < 0x80,
        ;
    }
    let ge: u64 = (low7 + ge_add) & 0x8080808080808080;
    let gt: u64 = (low7 + gt_add) & 0x8080808080808080;
    let cased: u64 = ge & !gt & !w & 0x8080808080808080;
    let r: u64 = w ^ (cased >> 2);
    let r0: u8 = #[verifier::truncate] ((r & 0xFF) as u8);
    let r1: u8 = #[verifier::truncate] (((r >> 8) & 0xFF) as u8);
    let r2: u8 = #[verifier::truncate] (((r >> 16) & 0xFF) as u8);
    let r3: u8 = #[verifier::truncate] (((r >> 24) & 0xFF) as u8);
    let r4: u8 = #[verifier::truncate] (((r >> 32) & 0xFF) as u8);
    let r5: u8 = #[verifier::truncate] (((r >> 40) & 0xFF) as u8);
    let r6: u8 = #[verifier::truncate] (((r >> 48) & 0xFF) as u8);
    let r7: u8 = #[verifier::truncate] (((r >> 56) & 0xFF) as u8);
    proof {
        assert(r0 == flip_cased(lo, hi, b0) && r1 == flip_cased(lo, hi, b1) && r2 == flip_cased(
            lo,
            hi,
            b2,
        ) && r3 == flip_cased(lo, hi, b3) && r4 == flip_cased(lo, hi, b4) && r5 == flip_cased(
            lo,
            hi,
            b5,
        ) && r6 == flip_cased(lo, hi, b6) && r7 == flip_cased(lo, hi, b7)) by (bit_vector)
            requires
                w == (b0 as u64) | ((b1 as u64) << 8) | ((b2 as u64) << 16) | ((b3 as u64) << 24)
                    | ((b4 as u64) << 32) | ((b5 as u64) << 40) | ((b6 as u64) << 48) | ((b7
                    as u64) << 56),
                low7 == w & 0x7F7F7F7F7F7F7F7F,
                ge_rep == 0x80 - (lo as u64),
                gt_rep == 0x7F - (hi as u64),
                ge_add == ge_rep | (ge_rep << 8) | (ge_rep << 16) | (ge_rep << 24) | (ge_rep
                    << 32) | (ge_rep << 40) | (ge_rep << 48) | (ge_rep << 56),
                gt_add == gt_rep | (gt_rep << 8) | (gt_rep << 16) | (gt_rep << 24) | (gt_rep
                    << 32) | (gt_rep << 40) | (gt_rep << 48) | (gt_rep << 56),
                ge == (low7 + ge_add) as u64 & 0x8080808080808080,
                gt == (low7 + gt_add) as u64 & 0x8080808080808080,
                cased == ge & !gt & !w & 0x8080808080808080,
                r == w ^ (cased >> 2),
                r0 == (r & 0xFF) as u8,
                r1 == ((r >> 8) & 0xFF) as u8,
                r2 == ((r >> 16) & 0xFF) as u8,
                r3 == ((r >> 24) & 0xFF) as u8,
                r4 == ((r >> 32) & 0xFF) as u8,
                r5 == ((r >> 40) & 0xFF) as u8,
                r6 == ((r >> 48) & 0xFF) as u8,
                r7 == ((r >> 56) & 0xFF) as u8,
                lo <= hi,
                hi < 0x80,
        ;
    }
    v[i] = r0;
    v[i + 1] = r1;
    v[i + 2] = r2;
    v[i + 3] = r3;
    v[i + 4] = r4;
    v[i + 5] = r5;
    v[i + 6] = r6;
    v[i + 7] = r7;
}

/// Fold the four bytes `v[i..i + 4]` in one lane-parallel step over a
/// 32-bit word.
fn fold_chunk4(v: &mut Vec<u8>, i: usize, lo: u8, hi: u8)
    requires
        i + 4 <= old(v)@.len(),
        lo <= hi,
        hi < 0x80,
    ensures
        final(v)@.len() == old(v)@.len(),
        forall|j: int| i <= j < i + 4 ==> final(v)@[j] == flip_cased(lo, hi, old(v)@[j]),
        forall|j: int|
            0 <= j < old(v)@.len() && !(i <= j < i + 4) ==> final(v)@[j] == old(v)@[j],
{
    let n = v.len();
    proof {
        assert(i + 4 <= n);
    }
    let b0 = v[i];
    let b1 = v[i + 1];
    let b2 = v[i + 2];
    let b3 = v[i + 3];
    let w: u32 = (b0 as u32) | ((b1 as u32) << 8) | ((b2 as u32) << 16) | ((b3 as u32) << 24);
    let low7: u32 = w & 0x7F7F7F7F;
    let ge_rep: u32 = 0x80 - (lo as u32);
    let gt_rep: u32 = 0x7F - (hi as u32);
    let ge_add: u32 = ge_rep | (ge_rep << 8) | (ge_rep << 16) | (ge_rep << 24);
    let gt_add: u32 = gt_rep | (gt_rep << 8) | (gt_rep << 16) | (gt_rep << 24);
    proof {
        assert(low7 + ge_add <= 0xFFFFFFFF && low7 + gt_add <= 0xFFFFFFFF) by (bit_vector)
            requires
                low7 == w & 0x7F7F7F7F,
                ge_rep == 0x80 - (lo as u32),
                gt_rep == 0x7F - (hi as u32),
                ge_add == ge_rep | (ge_rep << 8) | (ge_rep << 16) | (ge_rep << 24),
                gt_add == gt_rep | (gt_rep << 8) | (gt_rep << 16) | (gt_rep << 24),
                lo <= hi,
                hi < 0x80,
        ;
    }
    let ge: u32 = (low7 + ge_add) & 0x80808080;
    let gt: u32 = (low7 + gt_add) & 0x80808080;
    let cased: u32 = ge & !gt & !w & 0x80808080;
    let r: u32 = w ^ (cased >> 2);
    let r0: u8 = #[verifier::truncate] ((r & 0xFF) as u8);
    let r1: u8 = #[verifier::truncate] (((r >> 8) & 0xFF) as u8);
    let r2: u8 = #[verifier::truncate] (((r >> 16) & 0xFF) as u8);
    let r3: u8 = #[verifier::truncate] (((r >> 24) & 0xFF) as u8);
    proof {
        assert(r0 == flip_cased(lo, hi, b0) && r1 == flip_cased(lo, hi, b1) && r2 == flip_cased(
            lo,
            hi,
            b2,
        ) && r3 == flip_cased(lo, hi, b3)) by (bit_vector)
            requires
                w == (b0 as u32) | ((b1 as u32) << 8) | ((b2 as u32) << 16) | ((b3 as u32) << 24),
                low7 == w & 0x7F7F7F7F,
                ge_rep == 0x80 - (lo as u32),
                gt_rep == 0x7F - (hi as u32),
                ge_add == ge_rep | (ge_rep << 8) | (ge_rep << 16) | (ge_rep << 24),
                gt_add == gt_rep | (gt_rep << 8) | (gt_rep << 16) | (gt_rep << 24),
                ge == (low7 + ge_add) as u32 & 0x80808080,
                gt == (low7 + gt_add) as u32 & 0x80808080,
                cased == ge & !gt & !w & 0x80808080,
                r == w ^ (cased >> 2),
                r0 == (r & 0xFF) as u8,
                r1 == ((r >> 8) & 0xFF) as u8,
                r2 == ((r >> 16) & 0xFF) as u8,
                r3 == ((r >> 24) & 0xFF) as u8,
                lo <= hi,
                hi < 0x80,
        ;
    }
    v[i] = r0;
    v[i + 1] = r1;
    v[i + 2] = r2;
    v[i + 3] = r3;
}

/// Scalar pass: fold `v[from..end]` one byte at a time.
pub(crate) fn fold_range_tail(v: &mut Vec<u8>, from: usize, end: usize, lo: u8, hi: u8)
    requires
        from <= end,
        end <= old(v)@.len(),
        lo <= hi,
        hi < 0x80,
    ensures
        final(v)@.len() == old(v)@.len(),
        forall|j: int| from <= j < end ==> final(v)@[j] == flip_cased(lo, hi, old(v)@[j]),
        forall|j: int|
            0 <= j < old(v)@.len() && !(from <= j < end) ==> final(v)@[j] == old(v)@[j],
{
    let mut i = from;
    while i < end
        invariant
            from <= i <= end,
            end <= v@.len(),
            v@.len() == old(v)@.len(),
            forall|j: int| from <= j < i ==> v@[j] == flip_cased(lo, hi, old(v)@[j]),
            forall|j: int| 0 <= j < v@.len() && !(from <= j < i) ==> v@[j] == old(v)@[j],
        decreases end - i,
    {
        let b = v[i];
        if lo <= b && b <= hi {
            v[i] = b ^ CASE_MASK;
        }
        i += 1;
    }
}

/// Width-adaptive pass: eight-byte steps while they fit, then a four-byte
/// step, then the scalar tail.
pub(crate) fn fold_range_wide(v: &mut Vec<u8>, end: usize, lo: u8, hi: u8)
    requires
        end <= old(v)@.len(),
        lo <= hi,
        hi < 0x80,
    ensures
        final(v)@.len() == old(v)@.len(),
        forall|j: int| 0 <= j < end ==> final(v)@[j] == flip_cased(lo, hi, old(v)@[j]),
        forall|j: int| end <= j < old(v)@.len() ==> final(v)@[j] == old(v)@[j],
{
    let mut i: usize = 0;
    while end - i >= 8
        invariant
            i <= end,
            end <= v@.len(),
            v@.len() == old(v)@.len(),
            forall|j: int| 0 <= j < i ==> v@[j] == flip_cased(lo, hi, old(v)@[j]),
            forall|j: int| i <= j < v@.len() ==> v@[j] == old(v)@[j],
            lo <= hi,
            hi < 0x80,
        decreases end - i,
    {
        fold_chunk8(v, i, lo, hi);
        i += 8;
    }
    if end - i >= 4 {
        fold_chunk4(v, i, lo, hi);
        i += 4;
    }
    fold_range_tail(v, i, end, lo, hi);
}

/// Scalar reference path over the whole range; its contract is identical to
/// the wide path's, so the two are interchangeable on every input.
pub(crate) fn fold_range_scalar(v: &mut Vec<u8>, end: usize, lo: u8, hi: u8)
    requires
        end <= old(v)@.len(),
        lo <= hi,
        hi < 0x80,
    ensures
        final(v)@.len() == old(v)@.len(),
        forall|j: int| 0 <= j < end ==> final(v)@[j] == flip_cased(lo, hi, old(v)@[j]),
        forall|j: int| end <= j < old(v)@.len() ==> final(v)@[j] == old(v)@[j],
{
    fold_range_tail(v, 0, end, lo, hi);
}

} // verus!
