use roc_std::roc_str::TEMP_CSTR_MAX_STACK_BYTES;
use roc_std::RocStr;
use std::cmp::Ordering;
use std::collections::hash_map::DefaultHasher;
use std::hash::{Hash, Hasher};
use roc_std::small::SMALL_STR_CAPACITY;

fn text_of_len(n: usize) -> String {
    let alphabet = b"abcdefghijklmnopqrstuvwxyz";
    (0..n).map(|i| alphabet[i % alphabet.len()] as char).collect()
}

fn make(s: &str) -> RocStr {
    RocStr::from_str_slice(s)
}

fn terminated(s: &str) -> Vec<u8> {
    let mut v = s.as_bytes().to_vec();
    v.push(0);
    v
}

fn capture(buf: &[u8], len: usize) -> (Vec<u8>, usize) {
    (buf.to_vec(), len)
}

#[test]
fn empty_is_inline_and_empty() {
    let s = RocStr::empty();
    assert!(s.is_small_str());
    assert!(s.is_empty());
    assert_eq!(s.len(), 0);
    assert_eq!(s.as_str(), "");
    assert_eq!(s.capacity(), SMALL_STR_CAPACITY);
}

#[test]
fn default_is_empty() {
    let s = RocStr::default();
    assert!(s.is_empty());
    assert_eq!(s.capacity(), SMALL_STR_CAPACITY);
}

#[test]
fn short_string_is_inline_and_round_trips() {
    let s = make("hello");
    assert!(s.is_small_str());
    assert_eq!(s.as_str(), "hello");
    assert_eq!(s.as_bytes(), b"hello");
    assert_eq!(s.len(), 5);
    assert!(!s.is_empty());
    assert_eq!(s.capacity(), SMALL_STR_CAPACITY);
}

#[test]
fn long_string_is_on_heap_and_round_trips() {
    let text = text_of_len(100);
    let s = make(&text);
    assert!(!s.is_small_str());
    assert_eq!(s.as_str(), text.as_str());
    assert_eq!(s.len(), 100);
    assert_eq!(s.capacity(), 100);
}

#[test]
fn multibyte_round_trip() {
    let text = "grüße, 世界! 🎉 and some more text to pass the inline limit";
    let s = make(text);
    assert_eq!(s.as_str(), text);
    let small = make("é🎉");
    assert_eq!(small.as_str(), "é🎉");
    assert_eq!(small.len(), 6);
}

#[test]
fn capacity_boundary_between_forms() {
    let fits = text_of_len(SMALL_STR_CAPACITY);
    let s = make(&fits);
    assert!(s.is_small_str());
    assert_eq!(s.as_str(), fits.as_str());
    assert_eq!(s.capacity(), SMALL_STR_CAPACITY);
    assert_eq!(s.len(), 23);

    let over = text_of_len(SMALL_STR_CAPACITY + 1);
    let h = make(&over);
    assert!(!h.is_small_str());
    assert_eq!(h.as_str(), over.as_str());
    assert_eq!(h.capacity(), 24);
    assert_eq!(h.len(), 24);
}

#[test]
fn from_slice_unchecked_keeps_bytes() {
    let s = RocStr::from_slice_unchecked(b"plain bytes");
    assert_eq!(s.as_str(), "plain bytes");
}

#[test]
fn from_utf8_accepts_valid_and_rejects_invalid() {
    let ok = RocStr::from_utf8("héllo".as_bytes());
    assert_eq!(ok.map(|s| s.as_str().to_string()), Some("héllo".to_string()));
    assert!(RocStr::from_utf8(&[0x66, 0xff, 0x66]).is_none());
    assert!(RocStr::from_utf8(&[0xc3]).is_none());
    assert!(RocStr::from_utf8(&[0xed, 0xa0, 0x80]).is_none());
}

#[test]
fn clone_heap_then_drop_original() {
    let text = text_of_len(50);
    let original = make(&text);
    let copy = original.clone();
    drop(original);
    assert!(!copy.is_small_str());
    assert_eq!(copy.as_str(), text.as_str());
    assert_eq!(copy.capacity(), 50);
}

#[test]
fn clone_inline_is_independent() {
    let original = make("tiny");
    let copy = original.clone();
    drop(original);
    assert_eq!(copy.as_str(), "tiny");
    assert_eq!(copy.capacity(), SMALL_STR_CAPACITY);
}

#[test]
fn equality_is_by_content() {
    let text = text_of_len(40);
    let a = make(&text);
    let b = a.clone();
    let c = make(&text);
    assert!(a == b);
    assert!(a == c);
    assert!(a != make(&text_of_len(41)));
    assert!(make("abc") == make("abc"));
    assert!(make("abc") != make("abd"));
    assert!(make("") == RocStr::empty());
}

#[test]
fn interior_nul_is_reported_with_string_returned() {
    let text = "ab\0c\0";
    let r = make(text).temp_c_utf8(capture);
    match r {
        Err(e) => {
            assert_eq!(e.pos, 2);
            assert_eq!(e.roc_str.as_str(), text);
        }
        Ok(_) => panic!("a string with a zero byte converted"),
    }
}

#[test]
fn interior_nul_on_heap_string() {
    let mut text = text_of_len(40);
    text.push('\0');
    text.push_str("tail");
    let r = make(&text).temp_c_utf8(capture);
    match r {
        Err(e) => {
            assert_eq!(e.pos, 40);
            assert_eq!(e.roc_str.as_str(), text.as_str());
            assert_eq!(e.roc_str.capacity(), 45);
        }
        Ok(_) => panic!("a string with a zero byte converted"),
    }
}

#[test]
fn leading_nul_is_at_zero() {
    let r = make("\0").temp_c_utf8(capture);
    assert!(matches!(r, Err(ref e) if e.pos == 0));
}

#[test]
fn inline_conversion_terminates() {
    let out = make("hi there").temp_c_utf8(capture);
    assert!(matches!(out, Ok((ref b, 8)) if *b == terminated("hi there")));
}

#[test]
fn full_inline_conversion_terminates() {
    let text = text_of_len(SMALL_STR_CAPACITY);
    let out = make(&text).temp_c_utf8(capture);
    assert!(matches!(out, Ok((ref b, 23)) if *b == terminated(&text)));
}

#[test]
fn unique_heap_conversion_terminates() {
    let text = text_of_len(40);
    let out = make(&text).temp_c_utf8(capture);
    assert!(matches!(out, Ok((ref b, 40)) if *b == terminated(&text)));
}

#[test]
fn conversion_is_the_same_for_every_strategy() {
    let text = text_of_len(40);
    let unique = make(&text).temp_c_utf8(capture);

    let original = make(&text);
    let shared = original.clone().temp_c_utf8(capture);
    assert_eq!(original.as_str(), text.as_str());

    assert!(matches!(unique, Ok((ref b, 40)) if *b == terminated(&text)));
    assert!(matches!(shared, Ok((ref b, 40)) if *b == terminated(&text)));
    let unique = unique.map_err(|e| e.pos);
    let shared = shared.map_err(|e| e.pos);

    let edge = text_of_len(SMALL_STR_CAPACITY);
    let inline = make(&edge).temp_c_utf8(capture);
    let edge_original = make(&edge);
    let edge_shared = edge_original.clone().temp_c_utf8(capture);
    assert!(matches!(inline, Ok((ref b, 23)) if *b == terminated(&edge)));
    assert!(matches!(edge_shared, Ok((ref b, 23)) if *b == terminated(&edge)));
    assert_eq!(unique.ok(), shared.ok());
}

#[test]
fn shared_conversion_below_and_above_scratch_size() {
    assert_eq!(TEMP_CSTR_MAX_STACK_BYTES, 64);
    for n in [63usize, 64, 65] {
        let text = text_of_len(n);
        let original = make(&text);
        let out = original.clone().temp_c_utf8(capture);
        assert!(matches!(out, Ok((ref b, l)) if l == n && *b == terminated(&text)));
        assert_eq!(original.as_str(), text.as_str());
    }
}

#[test]
fn unique_conversion_leaves_clones_of_others_alone() {
    let text = text_of_len(70);
    let a = make(&text);
    let b = a.clone();
    let out = a.temp_c_utf8(capture);
    assert!(matches!(out, Ok((ref v, 70)) if *v == terminated(&text)));
    assert_eq!(b.as_str(), text.as_str());
    let out_b = b.temp_c_utf8(capture);
    assert!(matches!(out_b, Ok((ref v, 70)) if *v == terminated(&text)));
}

#[test]
fn empty_conversion_gives_lone_terminator() {
    let out = RocStr::empty().temp_c_utf8(capture);
    assert!(matches!(out, Ok((ref b, 0)) if *b == vec![0u8]));
    let out2 = make("").temp_c_utf8(|b: &[u8], n: usize| b.len() + n);
    assert!(matches!(out2, Ok(1)));
}

#[test]
fn consumer_result_is_returned() {
    let out = make("count me").temp_c_utf8(|b: &[u8], n: usize| b.iter().filter(|x| **x == 0).count() * 100 + n);
    assert!(matches!(out, Ok(108)));
}

fn hash_of(s: &RocStr) -> u64 {
    let mut h = DefaultHasher::new();
    s.hash(&mut h);
    h.finish()
}

#[test]
fn ordering_is_lexicographic_by_content() {
    assert_eq!(make("abc").partial_cmp(&make("abd")), Some(Ordering::Less));
    assert_eq!(make("abd").partial_cmp(&make("abc")), Some(Ordering::Greater));
    assert_eq!(make("ab").partial_cmp(&make("abc")), Some(Ordering::Less));
    assert_eq!(make("").partial_cmp(&RocStr::empty()), Some(Ordering::Equal));
    let long = text_of_len(30);
    assert_eq!(make("b").partial_cmp(&make(&long)), Some(Ordering::Greater));
    assert!(make(&long) < make("b"));
    assert_eq!(make(&long).partial_cmp(&make(&long)), Some(Ordering::Equal));
}

#[test]
fn hash_follows_content() {
    let text = text_of_len(30);
    let a = make(&text);
    let b = a.clone();
    assert_eq!(hash_of(&a), hash_of(&b));
    assert_eq!(hash_of(&make(&text)), hash_of(&a));
    let mut h = DefaultHasher::new();
    text.as_str().hash(&mut h);
    assert_eq!(hash_of(&a), h.finish());
}

#[test]
fn interior_nul_error_compares_by_fields() {
    let e1 = make("x\0").temp_c_utf8(capture).err();
    let e2 = make("x\0").temp_c_utf8(capture).err();
    assert!(e1.is_some());
    assert!(e1 == e2);
    let e3 = e1.clone();
    assert!(e3 == e2);
}

#[test]
fn debug_text_matches_str() {
    assert_eq!(make("hi").to_debug_string(), "\"hi\"");
    assert_eq!(make("a\"b\n").to_debug_string(), format!("{:?}", "a\"b\n"));
    let long = text_of_len(40);
    assert_eq!(make(&long).to_debug_string(), format!("{:?}", long.as_str()));
}

#[test]
fn length_never_exceeds_capacity() {
    for n in [0usize, 1, 22, 23, 24, 64, 200] {
        let s = make(&text_of_len(n));
        assert_eq!(s.len(), n);
        assert!(s.len() <= s.capacity());
        if s.is_small_str() {
            assert!(s.len() <= SMALL_STR_CAPACITY);
        }
    }
}
