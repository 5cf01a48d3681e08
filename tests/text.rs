use whitedew::helpers::{opt_ptr_eq, ReplaceRange};
use whitedew::release::{AllocError, Arena};
use whitedew::string::{ArenaString, ReplaceError};

#[test]
fn lossy_valid_input_is_borrowed() {
    let mut a = Arena::new(1 << 16).unwrap();
    let text = "héllo wörld €".as_bytes();
    match ArenaString::from_utf8_lossy(&mut a, text) {
        Ok(Ok(s)) => {
            assert_eq!(s.as_bytes(), text);
            assert_eq!(s.as_ptr(), text.as_ptr());
        }
        _ => panic!("valid input must come back as is"),
    }
    assert_eq!(a.offset(), 0);
    assert_eq!(a.committed_bytes(), 0);
}

#[test]
fn lossy_empty_input() {
    let mut a = Arena::new(1 << 16).unwrap();
    assert!(matches!(ArenaString::from_utf8_lossy(&mut a, b""), Ok(Ok(""))));
}

#[test]
fn lossy_single_invalid_byte() {
    let mut a = Arena::new(1 << 16).unwrap();
    match ArenaString::from_utf8_lossy(&mut a, b"ab\xffcd") {
        Ok(Err(s)) => {
            assert_eq!(s.as_str(&a), "ab\u{FFFD}cd");
            assert_eq!(s.len(), 7);
            assert_eq!(s.capacity(), 8);
        }
        _ => panic!("invalid input must be repaired"),
    }
    assert_eq!(a.offset(), 8);
}

#[test]
fn lossy_matches_std() {
    let cases: [&[u8]; 10] = [
        b"\xff\xfe",
        b"\xe2\x82",
        b"a\xe2\x82b",
        b"\xf0\x9f\x98",
        b"\xf0\x9f\x98\x80x\xc3",
        b"\xed\xa0\x80",
        b"\xc0\xaf",
        b"\xe0\x80\xaf",
        b"\xf4\x90\x80\x80",
        b"\x80abc\xbf",
    ];
    for case in cases {
        let mut a = Arena::new(1 << 16).unwrap();
        let expected = String::from_utf8_lossy(case).into_owned();
        match ArenaString::from_utf8_lossy(&mut a, case) {
            Ok(Err(s)) => assert_eq!(s.as_str(&a), expected),
            _ => panic!("invalid input must be repaired"),
        }
    }
}

#[test]
fn lossy_fails_when_arena_is_full() {
    let mut a = Arena::new(1).unwrap();
    a.alloc_raw(65536 - 4, 1).unwrap();
    assert!(matches!(ArenaString::from_utf8_lossy(&mut a, b"\xff"), Err(AllocError)));
    assert_eq!(a.offset(), 65532);
}

#[test]
fn push_str_grows_into_new_regions() {
    let mut a = Arena::new(1 << 16).unwrap();
    let mut s = ArenaString::new_in(&a);
    assert_eq!(s.capacity(), 0);
    s.push_str(&mut a, "abc").unwrap();
    assert_eq!(s.capacity(), 8);
    assert_eq!(s.region_start(), 0);
    assert_eq!(a.offset(), 8);
    s.push_str(&mut a, "defghi").unwrap();
    assert_eq!(s.capacity(), 16);
    assert_eq!(s.region_start(), 8);
    assert_eq!(a.offset(), 24);
    assert_eq!(s.as_str(&a), "abcdefghi");
    s.reserve(&mut a, 2).unwrap();
    assert_eq!(a.offset(), 24);
}

#[test]
fn push_str_failure_changes_nothing() {
    let mut a = Arena::new(1).unwrap();
    let mut s = ArenaString::new_in(&a);
    let big = "x".repeat(70000);
    assert_eq!(s.push_str(&mut a, &big), Err(AllocError));
    assert_eq!(s.len(), 0);
    assert_eq!(a.offset(), 0);
}

#[test]
fn shrink_to_fit_gives_space_back() {
    let mut a = Arena::new(1 << 16).unwrap();
    let mut s = ArenaString::new_in(&a);
    s.push_str(&mut a, "hello world, again").unwrap();
    assert_eq!(s.capacity(), 18);
    s.reserve(&mut a, 100).unwrap();
    let start = s.region_start();
    assert_eq!(a.offset(), start + s.capacity());
    s.shrink_to_fit(&mut a);
    assert_eq!(s.capacity(), 18);
    assert_eq!(a.offset(), start + 18);
    assert_eq!(s.as_str(&a), "hello world, again");
}

#[test]
fn replace_range_inside_a_code_point_is_refused() {
    let mut a = Arena::new(1 << 16).unwrap();
    let mut s = ArenaString::new_in(&a);
    s.push_str(&mut a, "aéb").unwrap();
    assert!(!s.is_char_boundary(&a, 2));
    assert_eq!(s.replace_range(&mut a, 2, 3, "x"), Err(ReplaceError::NotCharBoundary));
    assert_eq!(s.replace_range(&mut a, 0, 2, "x"), Err(ReplaceError::NotCharBoundary));
    assert_eq!(s.as_str(&a), "aéb");
    assert_eq!(s.replace_range(&mut a, 5, 5, "x"), Err(ReplaceError::NotCharBoundary));
}

#[test]
fn replace_range_shifts_the_tail() {
    let mut a = Arena::new(1 << 16).unwrap();
    let mut s = ArenaString::new_in(&a);
    s.push_str(&mut a, "aéb").unwrap();
    s.replace_range(&mut a, 1, 3, "ü-ü").unwrap();
    assert_eq!(s.as_str(&a), "aü-üb");
    s.replace_range(&mut a, 0, 0, "\x1b[8;24;80t").unwrap();
    assert_eq!(s.as_str(&a), "\x1b[8;24;80taü-üb");
    s.replace_range(&mut a, 0, 10, "").unwrap();
    assert_eq!(s.as_str(&a), "aü-üb");
    s.replace_range(&mut a, 3, 1, "+").unwrap();
    assert_eq!(s.as_str(&a), "aü+-üb");
}

#[test]
fn replace_range_that_cannot_grow_fails() {
    let mut a = Arena::new(1).unwrap();
    let mut s = ArenaString::new_in(&a);
    s.push_str(&mut a, "ab").unwrap();
    a.alloc_raw(65536 - 8, 1).unwrap();
    let big = "y".repeat(10);
    assert_eq!(s.replace_range(&mut a, 1, 1, &big), Err(ReplaceError::Alloc));
    assert_eq!(s.as_str(&a), "ab");
}

#[test]
fn vec_replace_range_clips_to_length() {
    let mut v = vec![1u8, 2, 3, 4, 5];
    v.replace_range(1, 3, &[9, 9, 9]);
    assert_eq!(v, vec![1, 9, 9, 9, 4, 5]);
    v.replace_range(4, 100, &[]);
    assert_eq!(v, vec![1, 9, 9, 9]);
    v.replace_range(10, 12, &[7]);
    assert_eq!(v, vec![1, 9, 9, 9, 7]);
    let mut w = vec!['a', 'b', 'c'];
    w.replace_range(0, 2, &['z']);
    assert_eq!(w, vec!['z', 'c']);
}

#[test]
fn opt_ptr_eq_compares_identities() {
    assert!(opt_ptr_eq(None, None));
    assert!(opt_ptr_eq(Some(1), Some(1)));
    assert!(!opt_ptr_eq(Some(0), Some(1)));
    assert!(!opt_ptr_eq(Some(0), None));
}

#[test]
fn string_bytes_live_in_the_arena() {
    let mut a = Arena::new(1 << 16).unwrap();
    let mut s = ArenaString::new_in(&a);
    s.push_str(&mut a, "hi").unwrap();
    assert_eq!(s.as_bytes(&a), b"hi");
    assert_eq!(a.byte_at(s.region_start()), b'h');
    assert_eq!(a.byte_at(s.region_start() + 1), b'i');
    let old_start = s.region_start();
    s.push_str(&mut a, "-there-and-back").unwrap();
    assert_ne!(s.region_start(), old_start);
    assert_eq!(a.byte_at(old_start), b'h');
    assert_eq!(s.as_str(&a), "hi-there-and-back");
    s.reserve(&mut a, 100).unwrap();
    assert_eq!(s.capacity(), 117);
    s.shrink_to_fit(&mut a);
    assert_eq!(a.offset(), s.region_start() + 17);
    assert_eq!(a.byte_at(a.offset()), whitedew::release::RESET_FILL);
}

#[test]
fn two_strings_share_an_arena() {
    let mut a = Arena::new(1 << 16).unwrap();
    let mut s = ArenaString::new_in(&a);
    s.push_str(&mut a, "one").unwrap();
    let mut t = ArenaString::new_in(&a);
    t.push_str(&mut a, "two").unwrap();
    s.push_str(&mut a, "!").unwrap();
    t.replace_range(&mut a, 0, 1, "T").unwrap();
    assert_eq!(s.as_str(&a), "one!");
    assert_eq!(t.as_str(&a), "Two");
}
