use cstring::{
    AllocationFailure, CMutStr, CPattern, CSearcher, CStr, CString, CSubStr, SearchStep,
};

// The terminator invariant, observed after each mutating call.
fn check_terminator(s: &CString) {
    let with_nul = s.as_bytes_with_nul();
    let len = s.len();
    assert_eq!(with_nul.len(), len + 1);
    assert_eq!(with_nul[len], 0);
    assert!(with_nul[..len].iter().all(|&b| b != 0));
}

#[test]
fn terminator_invariant_across_mutations() {
    let mut s = CString::new();
    check_terminator(&s);
    s.push(b'h');
    check_terminator(&s);
    s.append(&CSubStr::from_bytes_unchecked(b"ey".to_vec()));
    check_terminator(&s);
    s.reserve(10);
    check_terminator(&s);
    s.push(b'!');
    check_terminator(&s);
    assert_eq!(s.as_bytes(), b"hey!".to_vec());
    s.clear();
    check_terminator(&s);
    assert_eq!(s.as_bytes(), Vec::<u8>::new());
}

#[test]
fn round_trip_preserves_clean_bytes() {
    let bytes = b"hello world".to_vec();
    let sub = CSubStr::from_bytes_unchecked(bytes.clone());
    let owned = sub.to_cstring();
    assert_eq!(owned.as_bytes(), bytes);
    assert_eq!(owned.capacity(), bytes.len());
}

#[test]
fn case_fold_involution() {
    let bytes = b"AbCdXyZ".to_vec();
    let mut upper_then_lower = CSubStr::from_bytes_unchecked(bytes.clone());
    upper_then_lower.uppercase();
    assert_eq!(upper_then_lower.len(), bytes.len());
    upper_then_lower.lowercase();
    let mut lower_only = CSubStr::from_bytes_unchecked(bytes.clone());
    lower_only.lowercase();
    assert_eq!(upper_then_lower.as_bytes(), lower_only.as_bytes());

    let mut lower_then_upper = CSubStr::from_bytes_unchecked(bytes.clone());
    lower_then_upper.lowercase();
    lower_then_upper.uppercase();
    let mut upper_only = CSubStr::from_bytes_unchecked(bytes);
    upper_only.uppercase();
    assert_eq!(lower_then_upper.as_bytes(), upper_only.as_bytes());
}

#[test]
fn wide_and_scalar_paths_agree() {
    for len in 0..70usize {
        let bytes: Vec<u8> = (0..len).map(|i| (i * 37 + 11) as u8).collect();
        let mut wide = CSubStr::from_bytes_unchecked(bytes.clone());
        let mut scalar = CSubStr::from_bytes_unchecked(bytes.clone());
        wide.uppercase();
        scalar.uppercase_scalar();
        assert_eq!(wide.as_bytes(), scalar.as_bytes());

        let mut wide = CSubStr::from_bytes_unchecked(bytes.clone());
        let mut scalar = CSubStr::from_bytes_unchecked(bytes);
        wide.lowercase();
        scalar.lowercase_scalar();
        assert_eq!(wide.as_bytes(), scalar.as_bytes());
    }
    // every byte value once, high half included
    let all: Vec<u8> = (0..=255u8).collect();
    let mut wide = CSubStr::from_bytes_unchecked(all.clone());
    let mut scalar = CSubStr::from_bytes_unchecked(all);
    wide.uppercase();
    scalar.uppercase_scalar();
    assert_eq!(wide.as_bytes(), scalar.as_bytes());
}

#[test]
fn case_fold_scenario_alex() {
    let mut upper = CString::from_bytes(b"Alex!".to_vec()).unwrap();
    upper.uppercase();
    assert_eq!(upper.as_bytes(), b"ALEX!".to_vec());

    let mut lower = CString::from_bytes(b"Alex!".to_vec()).unwrap();
    lower.lowercase();
    assert_eq!(lower.as_bytes(), b"alex!".to_vec());
}

#[test]
fn substring_scan_scenario() {
    let hay = CSubStr::from_bytes_unchecked(b"cbaaaaab".to_vec());
    let needle = CSubStr::from_bytes_unchecked(b"aaa".to_vec());
    let mut s = (&needle).into_searcher(&hay);
    assert_eq!(s.next(), SearchStep::Reject(0, 1));
    assert_eq!(s.next(), SearchStep::Reject(1, 2));
    assert_eq!(s.next(), SearchStep::Match(2, 5));
    assert_eq!(s.next(), SearchStep::Reject(5, 8));
    assert_eq!(s.next(), SearchStep::Done);
}

#[test]
fn scan_covers_haystack_exactly_once() {
    let hay = CSubStr::from_bytes_unchecked(b"abracadabra".to_vec());
    let needle = CSubStr::from_bytes_unchecked(b"ab".to_vec());
    let mut s = (&needle).into_searcher(&hay);
    let mut covered = 0usize;
    let mut prev_end = 0usize;
    loop {
        match s.next() {
            SearchStep::Match(a, b) | SearchStep::Reject(a, b) => {
                assert_eq!(a, prev_end);
                assert!(b > a);
                covered += b - a;
                prev_end = b;
            },
            SearchStep::Done => break,
        }
    }
    assert_eq!(covered, hay.len());
    assert_eq!(prev_end, hay.len());

    let mut s = b'a'.into_searcher(&hay);
    let mut covered = 0usize;
    let mut prev_end = 0usize;
    loop {
        match s.next() {
            SearchStep::Match(a, b) | SearchStep::Reject(a, b) => {
                assert_eq!(a, prev_end);
                assert_eq!(b, a + 1);
                covered += 1;
                prev_end = b;
            },
            SearchStep::Done => break,
        }
    }
    assert_eq!(covered, hay.len());
}

#[test]
fn next_match_and_next_reject() {
    let hay = CSubStr::from_bytes_unchecked(b"cbaaaaab".to_vec());
    let needle = CSubStr::from_bytes_unchecked(b"aaa".to_vec());
    let mut s = (&needle).into_searcher(&hay);
    assert_eq!(s.next_match(), Some((2, 5)));
    assert_eq!(s.next_match(), None);

    let mut s = (&needle).into_searcher(&hay);
    assert_eq!(s.next_reject(), Some((0, 1)));
    assert_eq!(s.next_reject(), Some((1, 2)));
    assert_eq!(s.next_reject(), Some((5, 8)));
    assert_eq!(s.next_reject(), None);

    let mut s = b'b'.into_searcher(&hay);
    assert_eq!(s.next_match(), Some((1, 2)));
    assert_eq!(s.next_match(), Some((7, 8)));
    assert_eq!(s.next_match(), None);
}

#[test]
fn searcher_haystack_is_stable() {
    let hay = CSubStr::from_bytes_unchecked(b"abc".to_vec());
    let mut s = b'b'.into_searcher(&hay);
    assert_eq!(s.haystack().as_bytes(), b"abc");
    let _ = s.next();
    assert_eq!(s.haystack().as_bytes(), b"abc");
}

#[test]
fn contains_by_both_strategies() {
    let hay = CSubStr::from_bytes_unchecked(b"hello".to_vec());
    assert!(hay.contains(b'e'));
    assert!(hay.contains(b'o'));
    assert!(!hay.contains(b'z'));
    let ell = CSubStr::from_bytes_unchecked(b"ell".to_vec());
    assert!(hay.contains(&ell));
    let zzz = CSubStr::from_bytes_unchecked(b"zzz".to_vec());
    assert!(!hay.contains(&zzz));
}

#[test]
fn reserve_zero_keeps_placeholder() {
    let mut s = CString::new();
    assert!(s.is_placeholder());
    s.reserve(0);
    assert!(s.is_placeholder());
    assert_eq!(s.capacity(), 0);
    assert_eq!(s.len(), 0);
}

#[test]
fn growth_is_exact_fit() {
    let mut s = CString::with_capacity(2);
    assert!(!s.is_placeholder());
    assert_eq!(s.capacity(), 2);
    s.append(&CSubStr::from_bytes_unchecked(b"abcde".to_vec()));
    assert_eq!(s.capacity(), 5);
    s.push(b'x');
    assert_eq!(s.capacity(), 6);
    s.reserve(0);
    assert_eq!(s.capacity(), 6);
    s.reserve_exact(4);
    assert_eq!(s.capacity(), 10);
    assert_eq!(s.as_bytes(), b"abcdex".to_vec());
}

#[test]
fn reserve_overflow_is_reported_and_harmless() {
    let mut s = CString::new();
    assert_eq!(s.try_reserve(usize::MAX), Err(AllocationFailure));
    assert!(s.is_placeholder());
    assert_eq!(s.len(), 0);
    let mut t = CString::from_bytes(b"ab".to_vec()).unwrap();
    assert_eq!(t.try_reserve_exact(usize::MAX - 1), Err(AllocationFailure));
    assert_eq!(t.as_bytes(), b"ab".to_vec());
    assert_eq!(t.capacity(), 2);
}

#[test]
fn from_bytes_with_nul_reports_embedded_nul() {
    let r = CString::from_bytes_with_nul(vec![65, 66, 0, 67, 0]);
    match r {
        Ok(_) => panic!("embedded nul accepted"),
        Err(e) => {
            assert_eq!(e.nul_position(), Some(2));
            assert_eq!(e.into_bytes(), vec![65, 66, 0, 67, 0]);
        },
    }
}

#[test]
fn from_bytes_with_nul_accepts_trailing_nul() {
    let s = CString::from_bytes_with_nul(vec![65, 66, 0]).unwrap();
    assert_eq!(s.as_bytes(), vec![65, 66]);
    assert_eq!(s.len(), 2);
    assert_eq!(s.capacity(), 2);
}

#[test]
fn from_bytes_with_nul_rejects_missing_nul() {
    let r = CString::from_bytes_with_nul(vec![65, 66]);
    match r {
        Ok(_) => panic!("missing nul accepted"),
        Err(e) => {
            assert_eq!(e.nul_position(), None);
            assert_eq!(e.into_bytes(), vec![65, 66]);
        },
    }
}

#[test]
fn from_bytes_rejects_interior_nul() {
    let r = CString::from_bytes(vec![1, 0, 2]);
    match r {
        Ok(_) => panic!("interior nul accepted"),
        Err(e) => {
            assert_eq!(e.nul_position(), Some(1));
            assert_eq!(e.into_bytes(), vec![1, 0, 2, 0]);
        },
    }
}

#[test]
fn from_string_round_trips() {
    let s = CString::from_string("hi there".to_string()).unwrap();
    assert_eq!(s.as_bytes(), b"hi there".to_vec());
    let t = CString::from_string_with_nul("ok\0".to_string()).unwrap();
    assert_eq!(t.as_bytes(), b"ok".to_vec());
    assert!(CString::from_string("bad\0middle".to_string()).is_err());
}

#[test]
fn push_char_appends_ascii() {
    let mut s = CString::new();
    s.push_char('H');
    s.push_char('i');
    assert_eq!(s.as_bytes(), b"Hi".to_vec());
}

#[test]
fn try_push_unchecked_reports_state() {
    let mut s = CString::with_capacity(1);
    assert_eq!(s.try_push_unchecked(b'a'), Ok(()));
    assert_eq!(s.capacity(), 1);
    assert_eq!(s.try_push_unchecked(b'b'), Ok(()));
    assert_eq!(s.capacity(), 2);
    assert_eq!(s.as_bytes(), b"ab".to_vec());
}

#[test]
fn substr_accessors() {
    let mut sub = CSubStr::from_bytes_unchecked(b"abc".to_vec());
    assert_eq!(sub.len(), 3);
    assert_eq!(sub.get(1), b'b');
    sub.set(1, 0);
    assert_eq!(sub.as_bytes(), &[b'a', 0, b'c']);
    let other = CSubStr::from_bytes_unchecked(vec![b'a', 0, b'c']);
    assert!(sub == other);
    let owned = sub.to_cstring();
    // content stops at the substring's own zero byte
    assert_eq!(owned.as_bytes(), b"a".to_vec());
}

#[test]
fn borrowed_and_mutable_views() {
    let c = CStr::from_chars_unchecked(b"abc\0tail".to_vec());
    assert_eq!(c.len(), 3);
    assert_eq!(c.to_bytes(), b"abc");
    assert_eq!(c.to_bytes_with_nul(), b"abc\0");

    let mut m = CMutStr::from_chars_unchecked(b"abc\0".to_vec());
    assert_eq!(m.len(), 3);
    m.set_byte(0, b'x');
    assert_eq!(m.as_bytes(), b"xbc");
    m.uppercase();
    assert_eq!(m.as_bytes(), b"XBC");
    m.lowercase();
    assert_eq!(m.as_bytes(), b"xbc");
    let frozen = m.into_cstr();
    assert_eq!(frozen.to_bytes(), b"xbc");
}

#[test]
fn try_with_capacity_reports_overflow() {
    let s = CString::try_with_capacity(8).unwrap();
    assert_eq!(s.capacity(), 8);
    assert_eq!(s.len(), 0);
    assert!(CString::try_with_capacity(usize::MAX).is_err());
}

#[test]
fn cstr_handles_from_buffer() {
    let s = CString::from_bytes(b"abc".to_vec()).unwrap();
    let c = s.as_cstr();
    assert_eq!(c.to_bytes(), b"abc");
    let mut m = s.as_mut_cstr();
    m.uppercase();
    assert_eq!(m.as_bytes(), b"ABC");
    // the buffer itself is untouched
    assert_eq!(s.as_bytes(), b"abc".to_vec());
}

#[test]
fn vec_decomposition_keeps_contents() {
    let (storage, len, cap) = cstring::vec_into_raw_parts(vec![1u8, 2, 3]);
    assert_eq!(storage, vec![1, 2, 3]);
    assert_eq!(len, 3);
    assert!(cap >= 3);
}

#[test]
fn cstring_view_conversions() {
    let s = CString::from_bytes(b"view".to_vec()).unwrap();
    assert_eq!(s.as_bytes_with_nul(), b"view\0".to_vec());
    let sub = s.as_substr();
    assert_eq!(sub.as_bytes(), b"view");
    let upper = sub.to_uppercase();
    assert_eq!(upper.as_bytes(), b"VIEW".to_vec());
    let lower = upper.as_substr().to_lowercase();
    assert_eq!(lower.as_bytes(), b"view".to_vec());
}
