use widestring::{U16String, U32String};

#[test]
fn number_to_string() {
    let mut s = U16String::new();
    s.push_str(&format!("{}", 1234));
    assert_eq!(s, U16String::from_str("1234"));
}

#[test]
fn round_trip_16() {
    let text = "Test";
    let s = U16String::from_str(text);
    assert_eq!(s.to_string_lossy(), text);
}

#[test]
fn round_trip_16_astral() {
    let text = "a\u{1F600}b";
    let s = U16String::from_str(text);
    assert_eq!(s.len(), 4);
    assert_eq!(s.to_string_lossy(), text);
}

#[test]
fn round_trip_32() {
    let text = "Test";
    let s = U32String::from_str(text);
    assert_eq!(s.len(), 4);
    assert_eq!(s.to_string_lossy(), text);
}

#[test]
fn round_trip_32_astral() {
    let text = "a\u{1F600}b";
    let s = U32String::from_str(text);
    assert_eq!(s.len(), 3);
    assert_eq!(s.to_string_lossy(), text);
}

#[test]
fn push_char_pop_16_basic() {
    let mut s = U16String::from_str("xy");
    s.push_char('Q');
    assert_eq!(s.pop(), Some('Q' as u32));
    assert_eq!(s, U16String::from_str("xy"));
}

#[test]
fn push_char_pop_16_supplementary() {
    let mut s = U16String::new();
    s.push_char('\u{1F600}');
    assert_eq!(s.len(), 2);
    assert_eq!(s.pop(), Some(0x1F600));
    assert!(s.is_empty());
}

#[test]
fn push_char_pop_32() {
    let mut s = U32String::from_str("xy");
    s.push_char('\u{1F600}');
    assert_eq!(s.len(), 3);
    assert_eq!(s.pop(), Some(0x1F600));
    assert_eq!(s, U32String::from_str("xy"));
}

#[test]
fn pop_empty_is_none() {
    let mut s16 = U16String::new();
    assert_eq!(s16.pop(), None);
    let mut s32 = U32String::new();
    assert_eq!(s32.pop(), None);
}

#[test]
fn insert_remove_restores_16() {
    let mut s = U16String::from_str("abcd");
    let prior = s.clone();
    s.insert(2, '\u{1F600}');
    assert_eq!(s.len(), 6);
    assert_eq!(s.remove(2), 0x1F600);
    assert_eq!(s, prior);

    s.insert(0, 'z');
    assert_eq!(s.remove(0), 'z' as u32);
    assert_eq!(s, prior);
}

#[test]
fn insert_remove_restores_32() {
    let mut s = U32String::from_str("abcd");
    let prior = s.clone();
    s.insert(4, '\u{E9}');
    assert_eq!(s.remove(4), 0xE9);
    assert_eq!(s, prior);
}

#[test]
fn pop_lone_low_surrogate() {
    let mut s = U16String::from_vec(vec![0xDC00u16]);
    assert_eq!(s.pop(), Some(0xDC00));
    assert!(s.is_empty());
}

#[test]
fn pop_low_surrogate_after_non_high() {
    let mut s = U16String::from_vec(vec![0x0041u16, 0xDC00u16]);
    assert_eq!(s.pop(), Some(0xDC00));
    assert_eq!(s.len(), 1);
}

#[test]
fn pop_combines_trailing_pair() {
    let mut s = U16String::from_vec(vec![0xD83Du16, 0xDE00u16]);
    assert_eq!(s.pop(), Some(0x1F600));
    assert!(s.is_empty());
}

#[test]
fn remove_unpaired_surrogate_is_raw() {
    let mut s = U16String::from_vec(vec![0xD800u16, 0x0041u16]);
    assert_eq!(s.remove(0), 0xD800);
    assert_eq!(s.into_vec(), vec![0x0041u16]);
}

#[test]
fn decode_replaces_unpaired_surrogates() {
    let s = U16String::from_vec(vec![0x0061u16, 0xD800u16, 0x0062u16]);
    assert_eq!(s.to_string_lossy(), "a\u{FFFD}b");
}

#[test]
fn decode_32_replaces_invalid_units() {
    let s = U32String::from_vec(vec![0x61u32, 0x110000u32, 0xD800u32, 0x62u32]);
    assert_eq!(s.to_string_lossy(), "a\u{FFFD}\u{FFFD}b");
}

#[test]
fn capacity_after_reserve_and_shrink() {
    let mut s = U16String::from_str("foo");

    s.reserve(100);
    assert!(s.capacity() >= 100);
    assert!(s.capacity() >= s.len() + 100);
    assert_eq!(s.to_string_lossy(), "foo");

    s.shrink_to_fit();
    assert_eq!(3, s.capacity());
    assert_eq!(s.to_string_lossy(), "foo");
}

#[test]
fn capacity_after_reserve_exact_32() {
    let mut s = U32String::from_str("foo");

    s.reserve_exact(100);
    assert!(s.capacity() >= s.len() + 100);

    s.shrink_to_fit();
    assert_eq!(3, s.capacity());
    assert_eq!(s.to_string_lossy(), "foo");
}

#[test]
fn with_capacity_accounts() {
    let s16 = U16String::with_capacity(10);
    assert!(s16.is_empty());
    assert_eq!(s16.capacity(), 10);
    let s32 = U32String::with_capacity(7);
    assert!(s32.is_empty());
    assert_eq!(s32.capacity(), 7);
}

#[test]
fn split_off_at_length_yields_empty_tail() {
    let mut s = U16String::from_str("abc");
    let cap_before = s.capacity();
    let tail = s.split_off(3);
    assert!(tail.is_empty());
    assert_eq!(s, U16String::from_str("abc"));
    assert_eq!(s.capacity(), cap_before);
}

#[test]
fn split_off_mid() {
    let mut s = U32String::from_str("abcd");
    let tail = s.split_off(1);
    assert_eq!(s, U32String::from_str("a"));
    assert_eq!(tail, U32String::from_str("bcd"));
}

#[test]
fn truncate_drops_tail_only() {
    let mut s = U16String::from_str("abcd");
    let cap_before = s.capacity();
    s.truncate(9);
    assert_eq!(s, U16String::from_str("abcd"));
    s.truncate(2);
    assert_eq!(s, U16String::from_str("ab"));
    assert_eq!(s.capacity(), cap_before);
}

#[test]
fn from_chars_abc() {
    let v = vec!['A', 'B', 'C'];
    let s = U32String::from_chars(v);
    assert_eq!(s.len(), 3);
    assert_eq!(s.into_vec(), vec![65u32, 66u32, 67u32]);
}

#[test]
fn from_chars_stress() {
    for _ in 0..10_000 {
        let v = vec!['A', 'B', 'C'];
        let s = U32String::from_chars(v);
        assert_eq!(s.len(), 3);
    }
}

#[test]
fn cafe_scenario() {
    let mut s = U16String::from_str("caf\u{E9}");
    assert_eq!(s.len(), 4);
    assert_eq!(s.pop(), Some(0xE9));
    assert_eq!(s, U16String::from_str("caf"));
}

#[test]
fn supplementary_push_scenario() {
    let mut s = U16String::new();
    s.push_char('\u{1F600}');
    assert_eq!(s.len(), 2);
    assert_eq!(s.pop(), Some(0x1F600));
}

#[test]
fn push_repeats_string() {
    let s = "MyString";
    let mut wstr = U16String::from_str(s);
    let cloned = wstr.clone();
    wstr.push(&cloned);
    assert_eq!(wstr.to_string_lossy(), "MyStringMyString");

    let mut wstr32 = U32String::from_str(s);
    let cloned32 = wstr32.clone();
    wstr32.push(&cloned32);
    assert_eq!(wstr32.to_string_lossy(), "MyStringMyString");
}

#[test]
fn push_str_appends() {
    let s = "MyString";
    let mut wstr = U16String::from_str(s);
    wstr.push_str(s);
    assert_eq!(wstr.to_string_lossy(), "MyStringMyString");

    let mut wstr32 = U32String::from_str(s);
    wstr32.push_str(s);
    assert_eq!(wstr32.to_string_lossy(), "MyStringMyString");
}

#[test]
fn push_slice_appends_verbatim() {
    let mut s = U16String::from_vec(vec![84u16, 104u16]);
    s.push_slice(&[101u16]);
    assert_eq!(s.into_vec(), vec![84u16, 104u16, 101u16]);

    let mut s32 = U32String::from_vec(vec![84u32]);
    s32.push_slice(&[104u32, 101u32]);
    assert_eq!(s32.into_vec(), vec![84u32, 104u32, 101u32]);
}

#[test]
fn insert_ustr_splices() {
    let mut s = U16String::from_str("ad");
    let mid = U16String::from_str("bc");
    s.insert_ustr(1, mid.as_slice());
    assert_eq!(s, U16String::from_str("abcd"));

    let mut s32 = U32String::from_str("ad");
    let mid32 = U32String::from_str("bc");
    s32.insert_ustr(1, mid32.as_slice());
    assert_eq!(s32, U32String::from_str("abcd"));
}

#[test]
fn clear_keeps_capacity() {
    let mut s = U32String::from_str("abc");
    let cap_before = s.capacity();
    s.clear();
    assert!(s.is_empty());
    assert_eq!(s.capacity(), cap_before);
}

#[test]
fn vec_accessors_agree() {
    let s = U16String::from_vec(vec![1u16, 2u16, 3u16]);
    assert_eq!(s.as_vec().as_slice(), &[1u16, 2u16, 3u16]);
    assert_eq!(s.as_slice(), &[1u16, 2u16, 3u16]);
    assert_eq!(s.len(), 3);

    let s32 = U32String::from_vec(vec![9u32]);
    assert_eq!(s32.as_vec().as_slice(), &[9u32]);
    assert_eq!(s32.as_slice(), &[9u32]);
}

#[test]
fn default_is_empty() {
    let s16 = U16String::default();
    assert!(s16.is_empty());
    assert_eq!(s16.capacity(), 0);
    let s32 = U32String::default();
    assert!(s32.is_empty());
    assert_eq!(s32.capacity(), 0);
}

#[test]
fn equality_ignores_capacity() {
    let mut a = U16String::from_str("same");
    a.reserve(50);
    let b = U16String::from_str("same");
    assert_eq!(a, b);
    assert_ne!(a, U16String::from_str("other"));
    assert_ne!(U32String::from_str("ab"), U32String::from_str("abc"));
}

#[test]
fn nul_units_are_preserved() {
    let mut s = U16String::from_vec(vec![0u16, 65u16]);
    s.push_slice(&[0u16]);
    assert_eq!(s.into_vec(), vec![0u16, 65u16, 0u16]);
}
