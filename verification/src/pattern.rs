//! The pattern-search abstraction: a stateful cursor that walks a haystack
//! and emits one event per step.
//!
//! A searcher's cursor only advances. Each call of `next` reports `Match`
//! or `Reject` over a half-open range, or `Done` once every byte has been
//! visited; over a full scan the emitted ranges are strictly increasing,
//! mutually adjacent, and cover the haystack exactly once
//! (`lemma_substr_scan_coverage`, `lemma_char_scan_coverage`).
//!
//! Two strategies implement the abstraction: an exact-substring searcher
//! that advances past each non-overlapping match, and a single-byte
//! searcher. Each searcher owns snapshots of its haystack and pattern, so
//! no aliasing discipline is needed while it is scanning.

use vstd::prelude::*;
use vstd::slice::slice_subrange;
use crate::bytes::bytes_eq;
use crate::substr::CSubStr;

verus! {

/// One step of a search over a half-open byte range.
#[derive(Clone, Copy, Debug, PartialEq, Eq, Structural)]
pub enum SearchStep {
    /// `haystack[a..b]` matches the pattern.
    Match(usize, usize),
    /// `haystack[a..b]` cannot contain a match starting at `a`.
    Reject(usize, usize),
    /// Every byte of the haystack has been visited.
    Done,
}

/// A stateful search cursor over a haystack.
pub trait CSearcher: Sized {
    /// The haystack bytes being searched.
    spec fn hay(&self) -> Seq<u8>;

    /// The pattern searched for, as bytes.
    spec fn needle(&self) -> Seq<u8>;

    /// The cursor: the offset scanning continues from.
    spec fn pos(&self) -> int;

    /// States the search methods may be called in.
    spec fn wf(&self) -> bool;

    /// The event `next` emits in this state, and the state it leaves.
    spec fn next_spec(&self) -> (SearchStep, Self);

    /// Whether a match event still lies ahead of the cursor.
    spec fn found_ahead(&self) -> bool;

    /// What `next_match` returns in this state, and the state it leaves.
    spec fn next_match_spec(&self) -> (Option<(usize, usize)>, Self);

    /// What `next_reject` returns in this state, and the state it leaves.
    spec fn next_reject_spec(&self) -> (Option<(usize, usize)>, Self);

    /// The haystack; the same view on every call.
    fn haystack(&self) -> (r: &CSubStr)
        ensures
            r@ == self.hay(),
    ;

    /// Perform one search step; the cursor never moves backward.
    fn next(&mut self) -> (r: SearchStep)
        requires
            old(self).wf(),
        ensures
            final(self).wf(),
            final(self).hay() == old(self).hay(),
            final(self).needle() == old(self).needle(),
            old(self).pos() <= final(self).pos(),
            (r, *final(self)) == old(self).next_spec(),
    ;

    /// Skip to the next `Match` event; `None` once `Done` is reached
    /// first.
    fn next_match(&mut self) -> (r: Option<(usize, usize)>)
        requires
            old(self).wf(),
        ensures
            final(self).wf(),
            final(self).hay() == old(self).hay(),
            final(self).needle() == old(self).needle(),
            (r, *final(self)) == old(self).next_match_spec(),
            (r is Some) == old(self).found_ahead(),
    ;

    /// Skip to the next `Reject` event; `None` once `Done` is reached
    /// first.
    fn next_reject(&mut self) -> (r: Option<(usize, usize)>)
        requires
            old(self).wf(),
        ensures
            final(self).wf(),
            final(self).hay() == old(self).hay(),
            final(self).needle() == old(self).needle(),
            (r, *final(self)) == old(self).next_reject_spec(),
    ;
}

/// Something a haystack can be searched for.
pub trait CPattern: Sized {
    /// The searcher strategy this pattern selects.
    type Searcher: CSearcher;

    /// The pattern as the byte needle it searches for.
    spec fn pat(self) -> Seq<u8>;

    /// Patterns a searcher may be built from.
    spec fn valid(self) -> bool;

    /// Whether the pattern occurs in `hay`, by this strategy's own match
    /// rule.
    spec fn found_in(self, hay: Seq<u8>) -> bool;

    /// Build a searcher positioned at the start of `haystack`.
    fn into_searcher(self, haystack: &CSubStr) -> (r: Self::Searcher)
        requires
            self.valid(),
        ensures
            r.wf(),
            r.hay() == haystack@,
            r.needle() == self.pat(),
            r.pos() == 0,
            r.found_ahead() == self.found_in(haystack@),
    ;
}

/// Exact-substring strategy: compare the needle against the haystack at
/// the cursor; a match advances past itself (matches never overlap), a
/// mismatch advances by one byte.
pub struct CSubStrSearcher {
    /// Snapshot of the bytes searched in.
    pub haystack: CSubStr,
    /// Snapshot of the bytes searched for.
    pub needle: CSubStr,
    /// The cursor; it only advances.
    pub offset: usize,
}

impl CSearcher for CSubStrSearcher {
    open spec fn hay(&self) -> Seq<u8> {
        self.haystack@
    }

    open spec fn needle(&self) -> Seq<u8> {
        self.needle@
    }

    open spec fn pos(&self) -> int {
        self.offset as int
    }

    open spec fn wf(&self) -> bool {
        &&& self.offset <= self.haystack@.len()
        &&& self.haystack@.len() <= usize::MAX
        &&& 1 <= self.needle@.len() <= usize::MAX
    }

    open spec fn next_spec(&self) -> (SearchStep, Self) {
        let c = self.offset as int;
        let h = self.haystack@;
        let n = self.needle@;
        if c + n.len() < h.len() {
            if h.subrange(c, c + n.len()) == n {
                (
                    SearchStep::Match(self.offset, (c + n.len()) as usize),
                    CSubStrSearcher {
                        haystack: self.haystack,
                        needle: self.needle,
                        offset: (c + n.len()) as usize,
                    },
                )
            } else {
                (
                    SearchStep::Reject(self.offset, (c + 1) as usize),
                    CSubStrSearcher {
                        haystack: self.haystack,
                        needle: self.needle,
                        offset: (c + 1) as usize,
                    },
                )
            }
        } else if c < h.len() {
            (
                SearchStep::Reject(self.offset, h.len() as usize),
                CSubStrSearcher {
                    haystack: self.haystack,
                    needle: self.needle,
                    offset: h.len() as usize,
                },
            )
        } else {
            (SearchStep::Done, *self)
        }
    }

    open spec fn found_ahead(&self) -> bool {
        exists|i: int|
            self.offset <= i && i + self.needle@.len() < self.haystack@.len() && #[trigger] self.haystack@.subrange(
                i,
                i + self.needle@.len(),
            ) == self.needle@
    }

    open spec fn next_match_spec(&self) -> (Option<(usize, usize)>, Self) {
        substr_next_match_spec(*self)
    }

    open spec fn next_reject_spec(&self) -> (Option<(usize, usize)>, Self) {
        substr_next_reject_spec(*self)
    }

    fn haystack(&self) -> (r: &CSubStr) {
        &self.haystack
    }

    fn next(&mut self) -> (r: SearchStep) {
        let hlen = self.haystack.len();
        let nlen = self.needle.len();
        if self.offset < hlen && hlen - self.offset > nlen {
            let start = self.offset;
            let end = start + nlen;
            let region = slice_subrange(self.haystack.as_bytes(), start, end);
            if bytes_eq(region, self.needle.as_bytes()) {
                self.offset = end;
                SearchStep::Match(start, end)
            } else {
                self.offset = start + 1;
                SearchStep::Reject(start, start + 1)
            }
        } else if self.offset < hlen {
            let start = self.offset;
            self.offset = hlen;
            SearchStep::Reject(start, hlen)
        } else {
            SearchStep::Done
        }
    }

    fn next_match(&mut self) -> (r: Option<(usize, usize)>) {
        proof {
            lemma_substr_match_iff(*self);
        }
        loop
            invariant
                self.wf(),
                self.hay() == old(self).hay(),
                self.needle() == old(self).needle(),
                self.next_match_spec() == old(self).next_match_spec(),
                self.found_ahead() == old(self).found_ahead(),
            decreases self.haystack@.len() - self.offset,
        {
            proof {
                lemma_substr_match_iff(*self);
            }
            let step = self.next();
            match step {
                SearchStep::Match(a, b) => {
                    return Some((a, b));
                },
                SearchStep::Done => {
                    return None;
                },
                SearchStep::Reject(_, _) => {},
            }
        }
    }

    fn next_reject(&mut self) -> (r: Option<(usize, usize)>) {
        loop
            invariant
                self.wf(),
                self.hay() == old(self).hay(),
                self.needle() == old(self).needle(),
                self.next_reject_spec() == old(self).next_reject_spec(),
            decreases self.haystack@.len() - self.offset,
        {
            let step = self.next();
            match step {
                SearchStep::Reject(a, b) => {
                    return Some((a, b));
                },
                SearchStep::Done => {
                    return None;
                },
                SearchStep::Match(_, _) => {},
            }
        }
    }
}

/// Where a full scan from this state first reports a match, and the state
/// it leaves behind.
pub open spec fn substr_next_match_spec(s: CSubStrSearcher) -> (Option<(usize, usize)>, CSubStrSearcher)
    decreases s.haystack@.len() - s.offset,
    when s.wf()
{
    let (step, s2) = s.next_spec();
    match step {
        SearchStep::Match(a, b) => (Some((a, b)), s2),
        SearchStep::Done => (None, s2),
        SearchStep::Reject(_, _) => substr_next_match_spec(s2),
    }
}

/// Where a full scan from this state first reports a reject, and the
/// state it leaves behind.
pub open spec fn substr_next_reject_spec(s: CSubStrSearcher) -> (Option<(usize, usize)>, CSubStrSearcher)
    decreases s.haystack@.len() - s.offset,
    when s.wf()
{
    let (step, s2) = s.next_spec();
    match step {
        SearchStep::Reject(a, b) => (Some((a, b)), s2),
        SearchStep::Done => (None, s2),
        SearchStep::Match(_, _) => substr_next_reject_spec(s2),
    }
}

/// A searcher's stream of match answers agrees with the direct statement
/// "some match lies ahead of the cursor".
proof fn lemma_substr_match_iff(s: CSubStrSearcher)
    requires
        s.wf(),
    ensures
        (s.next_match_spec().0 is Some) == s.found_ahead(),
    decreases s.haystack@.len() - s.offset,
{
    let c = s.offset as int;
    let h = s.haystack@;
    let n = s.needle@;
    let (step, s2) = s.next_spec();
    match step {
        SearchStep::Match(_, _) => {
            assert(s.found_ahead()) by {
                assert(h.subrange(c, c + n.len()) == n);
            }
        },
        SearchStep::Done => {
            assert(!s.found_ahead());
        },
        SearchStep::Reject(_, _) => {
            lemma_substr_match_iff(s2);
            if c + n.len() < h.len() {
                // advanced by one byte past a mismatch
                if s.found_ahead() {
                    let i = choose|i: int|
                        c <= i && i + n.len() < h.len() && #[trigger] h.subrange(i, i + n.len())
                            == n;
                    assert(i != c);
                    assert(s2.found_ahead());
                }
                if s2.found_ahead() {
                    let i = choose|i: int|
                        s2.offset <= i && i + n.len() < h.len() && #[trigger] h.subrange(
                            i,
                            i + n.len(),
                        ) == n;
                    assert(s.found_ahead());
                }
            } else {
                // the tail reject: nothing can match beyond it
                assert(!s2.found_ahead());
                assert(!s.found_ahead());
            }
        },
    }
}

/// Single-byte strategy: compare one byte per step and always advance by
/// one.
pub struct CCharSearcher {
    /// Snapshot of the bytes searched in.
    pub haystack: CSubStr,
    /// The byte searched for.
    pub needle: u8,
    /// The cursor; it only advances.
    pub offset: usize,
}

impl CSearcher for CCharSearcher {
    open spec fn hay(&self) -> Seq<u8> {
        self.haystack@
    }

    open spec fn needle(&self) -> Seq<u8> {
        seq![self.needle]
    }

    open spec fn pos(&self) -> int {
        self.offset as int
    }

    open spec fn wf(&self) -> bool {
        &&& self.offset <= self.haystack@.len()
        &&& self.haystack@.len() <= usize::MAX
    }

    open spec fn next_spec(&self) -> (SearchStep, Self) {
        let c = self.offset as int;
        let h = self.haystack@;
        if c < h.len() {
            let s2 = CCharSearcher {
                haystack: self.haystack,
                needle: self.needle,
                offset: (c + 1) as usize,
            };
            if h[c] == self.needle {
                (SearchStep::Match(self.offset, (c + 1) as usize), s2)
            } else {
                (SearchStep::Reject(self.offset, (c + 1) as usize), s2)
            }
        } else {
            (SearchStep::Done, *self)
        }
    }

    open spec fn found_ahead(&self) -> bool {
        exists|i: int| self.offset <= i < self.haystack@.len() && self.haystack@[i] == self.needle
    }

    open spec fn next_match_spec(&self) -> (Option<(usize, usize)>, Self) {
        char_next_match_spec(*self)
    }

    open spec fn next_reject_spec(&self) -> (Option<(usize, usize)>, Self) {
        char_next_reject_spec(*self)
    }

    fn haystack(&self) -> (r: &CSubStr) {
        &self.haystack
    }

    fn next(&mut self) -> (r: SearchStep) {
        let hlen = self.haystack.len();
        if self.offset < hlen {
            let c = self.offset;
            let b = self.haystack.get(c);
            self.offset = c + 1;
            if b == self.needle {
                SearchStep::Match(c, c + 1)
            } else {
                SearchStep::Reject(c, c + 1)
            }
        } else {
            SearchStep::Done
        }
    }

    fn next_match(&mut self) -> (r: Option<(usize, usize)>) {
        proof {
            lemma_char_match_iff(*self);
        }
        loop
            invariant
                self.wf(),
                self.hay() == old(self).hay(),
                self.needle() == old(self).needle(),
                self.next_match_spec() == old(self).next_match_spec(),
                self.found_ahead() == old(self).found_ahead(),
            decreases self.haystack@.len() - self.offset,
        {
            proof {
                lemma_char_match_iff(*self);
            }
            let step = self.next();
            match step {
                SearchStep::Match(a, b) => {
                    return Some((a, b));
                },
                SearchStep::Done => {
                    return None;
                },
                SearchStep::Reject(_, _) => {},
            }
        }
    }

    fn next_reject(&mut self) -> (r: Option<(usize, usize)>) {
        loop
            invariant
                self.wf(),
                self.hay() == old(self).hay(),
                self.needle() == old(self).needle(),
                self.next_reject_spec() == old(self).next_reject_spec(),
            decreases self.haystack@.len() - self.offset,
        {
            let step = self.next();
            match step {
                SearchStep::Reject(a, b) => {
                    return Some((a, b));
                },
                SearchStep::Done => {
                    return None;
                },
                SearchStep::Match(_, _) => {},
            }
        }
    }
}

/// Where a byte scan from this state first reports a match, and the state
/// it leaves behind.
pub open spec fn char_next_match_spec(s: CCharSearcher) -> (Option<(usize, usize)>, CCharSearcher)
    decreases s.haystack@.len() - s.offset,
    when s.wf()
{
    let (step, s2) = s.next_spec();
    match step {
        SearchStep::Match(a, b) => (Some((a, b)), s2),
        SearchStep::Done => (None, s2),
        SearchStep::Reject(_, _) => char_next_match_spec(s2),
    }
}

/// Where a byte scan from this state first reports a reject, and the
/// state it leaves behind.
pub open spec fn char_next_reject_spec(s: CCharSearcher) -> (Option<(usize, usize)>, CCharSearcher)
    decreases s.haystack@.len() - s.offset,
    when s.wf()
{
    let (step, s2) = s.next_spec();
    match step {
        SearchStep::Reject(a, b) => (Some((a, b)), s2),
        SearchStep::Done => (None, s2),
        SearchStep::Match(_, _) => char_next_reject_spec(s2),
    }
}

/// The single-byte analogue of `lemma_substr_match_iff`.
proof fn lemma_char_match_iff(s: CCharSearcher)
    requires
        s.wf(),
    ensures
        (s.next_match_spec().0 is Some) == s.found_ahead(),
    decreases s.haystack@.len() - s.offset,
{
    let c = s.offset as int;
    let h = s.haystack@;
    let (step, s2) = s.next_spec();
    match step {
        SearchStep::Match(_, _) => {},
        SearchStep::Done => {},
        SearchStep::Reject(_, _) => {
            lemma_char_match_iff(s2);
        },
    }
}

impl<'b> CPattern for &'b CSubStr {
    type Searcher = CSubStrSearcher;

    open spec fn pat(self) -> Seq<u8> {
        self@
    }

    /// An empty needle would match everywhere without advancing the
    /// cursor, so a searcher is only built from a non-empty one.
    open spec fn valid(self) -> bool {
        self@.len() >= 1
    }

    open spec fn found_in(self, hay: Seq<u8>) -> bool {
        exists|i: int|
            0 <= i && i + self@.len() < hay.len() && #[trigger] hay.subrange(i, i + self@.len())
                == self@
    }

    fn into_searcher(self, haystack: &CSubStr) -> (r: Self::Searcher) {
        let hlen = haystack.len();
        let nlen = self.len();
        let r = CSubStrSearcher {
            haystack: CSubStr::from_bytes_unchecked(vstd::slice::slice_to_vec(
                haystack.as_bytes(),
            )),
            needle: CSubStr::from_bytes_unchecked(vstd::slice::slice_to_vec(self.as_bytes())),
            offset: 0,
        };
        proof {
            let h = haystack@;
            let n = self@;
            if r.found_ahead() {
                let i = choose|i: int|
                    r.offset <= i && i + r.needle@.len() < r.haystack@.len()
                        && #[trigger] r.haystack@.subrange(i, i + r.needle@.len()) == r.needle@;
                assert(h.subrange(i, i + n.len()) == n);
            }
            if self.found_in(h) {
                let i = choose|i: int|
                    0 <= i && i + n.len() < h.len() && #[trigger] h.subrange(i, i + n.len())
                        == n;
                assert(r.haystack@.subrange(i, i + r.needle@.len()) == r.needle@);
            }
        }
        r
    }
}

impl CPattern for u8 {
    type Searcher = CCharSearcher;

    open spec fn pat(self) -> Seq<u8> {
        seq![self]
    }

    open spec fn valid(self) -> bool {
        true
    }

    open spec fn found_in(self, hay: Seq<u8>) -> bool {
        exists|i: int| 0 <= i < hay.len() && hay[i] == self
    }

    fn into_searcher(self, haystack: &CSubStr) -> (r: Self::Searcher) {
        let hlen = haystack.len();
        let r = CCharSearcher {
            haystack: CSubStr::from_bytes_unchecked(vstd::slice::slice_to_vec(
                haystack.as_bytes(),
            )),
            needle: self,
            offset: 0,
        };
        proof {
            if r.found_ahead() {
                let i = choose|i: int|
                    r.offset <= i < r.haystack@.len() && r.haystack@[i] == r.needle;
                assert(haystack@[i] == self);
            }
            if self.found_in(haystack@) {
                let i = choose|i: int| 0 <= i < haystack@.len() && haystack@[i] == self;
                assert(r.haystack@[i] == r.needle);
            }
        }
        r
    }
}


/// The ranges a full scan emits from cursor `c`, in order, under the
/// exact-substring strategy.
pub open spec fn substr_scan_ranges(h: Seq<u8>, n: Seq<u8>, c: int) -> Seq<(int, int)>
    decreases h.len() - c,
    when 0 <= c <= h.len() && 1 <= n.len()
{
    if c + n.len() < h.len() {
        if h.subrange(c, c + n.len()) == n {
            seq![(c, c + n.len() as int)] + substr_scan_ranges(h, n, c + n.len())
        } else {
            seq![(c, c + 1)] + substr_scan_ranges(h, n, c + 1)
        }
    } else if c < h.len() {
        seq![(c, h.len() as int)]
    } else {
        Seq::empty()
    }
}

/// The ranges a full scan emits from cursor `c` under the single-byte
/// strategy: one range per byte.
pub open spec fn char_scan_ranges(h: Seq<u8>, c: int) -> Seq<(int, int)>
    decreases h.len() - c,
    when 0 <= c <= h.len()
{
    if c < h.len() {
        seq![(c, c + 1)] + char_scan_ranges(h, c + 1)
    } else {
        Seq::empty()
    }
}

/// The summed lengths of a stream of ranges.
pub open spec fn range_len_sum(evs: Seq<(int, int)>) -> int
    decreases evs.len(),
{
    if evs.len() == 0 {
        0
    } else {
        (evs[0].1 - evs[0].0) + range_len_sum(evs.drop_first())
    }
}

/// One step of the exact-substring searcher emits exactly the head of its
/// range stream; the state it leaves owns the tail. `Done` comes exactly
/// when the stream is exhausted, and leaves the state unchanged — so it
/// is reported once, after the last range.
pub proof fn lemma_substr_next_emits(s: CSubStrSearcher)
    requires
        s.wf(),
    ensures
        ({
            let (step, s2) = s.next_spec();
            let evs = substr_scan_ranges(s.hay(), s.needle(), s.pos());
            &&& (step is Done) == (evs.len() == 0)
            &&& step is Done ==> s2 == s
            &&& !(step is Done) ==> s2.wf() && substr_scan_ranges(s2.hay(), s2.needle(), s2.pos())
                == evs.drop_first()
            &&& step matches SearchStep::Match(a, b) ==> evs[0] == (a as int, b as int)
            &&& step matches SearchStep::Reject(a, b) ==> evs[0] == (a as int, b as int)
        }),
{
    let (step, s2) = s.next_spec();
    let evs = substr_scan_ranges(s.hay(), s.needle(), s.pos());
    match step {
        SearchStep::Done => {},
        _ => {
            assert(evs.drop_first() =~= substr_scan_ranges(s2.hay(), s2.needle(), s2.pos()));
        },
    }
}

/// The single-byte analogue of `lemma_substr_next_emits`.
pub proof fn lemma_char_next_emits(s: CCharSearcher)
    requires
        s.wf(),
    ensures
        ({
            let (step, s2) = s.next_spec();
            let evs = char_scan_ranges(s.hay(), s.pos());
            &&& (step is Done) == (evs.len() == 0)
            &&& step is Done ==> s2 == s
            &&& !(step is Done) ==> s2.wf() && char_scan_ranges(s2.hay(), s2.pos())
                == evs.drop_first()
            &&& step matches SearchStep::Match(a, b) ==> evs[0] == (a as int, b as int)
            &&& step matches SearchStep::Reject(a, b) ==> evs[0] == (a as int, b as int)
        }),
{
    let (step, s2) = s.next_spec();
    let evs = char_scan_ranges(s.hay(), s.pos());
    match step {
        SearchStep::Done => {},
        _ => {
            assert(evs.drop_first() =~= char_scan_ranges(s2.hay(), s2.pos()));
        },
    }
}

/// Pattern-search coverage, exact-substring strategy: the ranges a full
/// scan emits before `Done` are strictly increasing and mutually adjacent,
/// the first begins at the cursor, the last ends at the haystack's end,
/// and their lengths sum to every byte scanned — the haystack is covered
/// exactly once.
pub proof fn lemma_substr_scan_coverage(h: Seq<u8>, n: Seq<u8>, c: int)
    requires
        0 <= c <= h.len(),
        1 <= n.len(),
    ensures
        ({
            let evs = substr_scan_ranges(h, n, c);
            &&& (evs.len() == 0) == (c == h.len())
            &&& evs.len() > 0 ==> evs[0].0 == c && evs[evs.len() - 1].1 == h.len()
            &&& forall|k: int| 0 <= k < evs.len() ==> (#[trigger] evs[k]).0 < evs[k].1 <= h.len()
            &&& forall|k: int| 0 <= k < evs.len() - 1 ==> (#[trigger] evs[k]).1 == evs[k + 1].0
            &&& range_len_sum(evs) == h.len() - c
        }),
    decreases h.len() - c,
{
    let evs = substr_scan_ranges(h, n, c);
    if c == h.len() {
    } else if c + n.len() < h.len() {
        let step: int = if h.subrange(c, c + n.len()) == n {
            c + n.len()
        } else {
            c + 1
        };
        let rest = substr_scan_ranges(h, n, step);
        lemma_substr_scan_coverage(h, n, step);
        assert(evs.drop_first() =~= rest);
        assert(evs[0] == (c, step));
        assert forall|k: int| 0 <= k < evs.len() implies (#[trigger] evs[k]).0 < evs[k].1
            <= h.len() by {
            if k > 0 {
                assert(evs[k] == rest[k - 1]);
            }
        }
        assert forall|k: int| 0 <= k < evs.len() - 1 implies (#[trigger] evs[k]).1 == evs[k
            + 1].0 by {
            if k > 0 {
                assert(evs[k] == rest[k - 1]);
                assert(evs[k + 1] == rest[k]);
            } else {
                assert(evs[1] == rest[0]);
            }
        }
        if rest.len() > 0 {
            assert(evs[evs.len() - 1] == rest[rest.len() - 1]);
        }
        assert(range_len_sum(evs) == (step - c) + range_len_sum(evs.drop_first()));
        assert(range_len_sum(evs.drop_first()) == range_len_sum(rest));
    } else {
        assert(evs =~= seq![(c, h.len() as int)]);
        assert(evs.drop_first() =~= Seq::<(int, int)>::empty());
        assert(range_len_sum(evs) == (h.len() - c) + range_len_sum(evs.drop_first()));
        assert(range_len_sum(Seq::<(int, int)>::empty()) == 0);
    }
}

/// Pattern-search coverage, single-byte strategy: one range per byte, in
/// order, covering the haystack exactly once.
pub proof fn lemma_char_scan_coverage(h: Seq<u8>, c: int)
    requires
        0 <= c <= h.len(),
    ensures
        ({
            let evs = char_scan_ranges(h, c);
            &&& evs.len() == h.len() - c
            &&& forall|k: int| 0 <= k < evs.len() ==> #[trigger] evs[k] == (c + k, c + k + 1)
            &&& range_len_sum(evs) == h.len() - c
        }),
    decreases h.len() - c,
{
    let evs = char_scan_ranges(h, c);
    if c < h.len() {
        let rest = char_scan_ranges(h, c + 1);
        lemma_char_scan_coverage(h, c + 1);
        assert(evs.drop_first() =~= rest);
        assert forall|k: int| 0 <= k < evs.len() implies #[trigger] evs[k] == (c + k, c + k
            + 1) by {
            if k > 0 {
                assert(evs[k] == rest[k - 1]);
            }
        }
    }
}

} // verus!
