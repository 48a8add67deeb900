use short_string::{Heap, Inline, ShortString, INLINE_CAPACITY};
use std::collections::hash_map::DefaultHasher;
use std::hash::{Hash, Hasher};

fn hash_of(s: &str) -> u64 {
    let mut h = DefaultHasher::new();
    s.hash(&mut h);
    h.finish()
}

/// A heap string holding `text`, reached by promotion and then clearing.
fn heap_holding(text: &str) -> ShortString {
    let mut s = ShortString::from_str("this text is far too long to stay inline");
    assert!(!s.is_inline());
    s.clear();
    s.push_str(text);
    s
}

#[test]
fn new_is_empty_and_inline() {
    let s = ShortString::new();
    assert!(s.is_inline());
    assert!(s.is_empty());
    assert_eq!(s.len(), 0);
    assert_eq!(s.as_str(), "");
    assert_eq!(s.capacity(), INLINE_CAPACITY);
    let d = ShortString::default();
    assert!(d.is_inline());
    assert_eq!(d.as_str(), "");
}

#[test]
fn inline_capacity_is_fifteen() {
    assert_eq!(INLINE_CAPACITY, 15);
}

#[test]
fn hello_world_promotes_on_sixteenth_byte() {
    let mut s = ShortString::from_str("hello");
    assert!(s.is_inline());
    assert_eq!(s.len(), 5);
    s.push_str("world12345");
    assert_eq!(s.len(), 15);
    assert!(s.is_inline());
    assert_eq!(s.as_str(), "helloworld12345");
    s.push_str("!");
    assert!(!s.is_inline());
    assert_eq!(s.as_str(), "helloworld12345!");
    assert_eq!(s.len(), 16);
    assert!(s.capacity() >= 16);
}

#[test]
fn round_trip_inline_and_heap() {
    for text in ["", "a", "héllo", "exactly15bytes!", "a string longer than fifteen bytes", "日本語のテキストです"] {
        let s = ShortString::from_str(text);
        assert_eq!(s.as_str(), text);
        assert_eq!(s.as_bytes(), text.as_bytes());
        assert_eq!(s.len(), text.len());
        let t = ShortString::from_string(text.to_string());
        assert_eq!(t.as_str(), text);
        assert_eq!(t.into_string(), text.to_string());
        assert_eq!(s.into_string(), text.to_string());
    }
}

#[test]
fn equal_content_in_both_representations_agrees() {
    let a = ShortString::from_str("abc");
    let b = heap_holding("abc");
    assert!(a.is_inline());
    assert!(!b.is_inline());
    assert!(a == b);
    assert_eq!(a.as_str(), b.as_str());
    assert_eq!(a.as_str().cmp(b.as_str()), "abc".cmp("abc"));
    assert_eq!(hash_of(a.as_str()), hash_of(b.as_str()));
    let c = heap_holding("abd");
    assert!(a != c);
    assert_eq!(a.as_str().cmp(c.as_str()), "abc".cmp("abd"));
    assert!(ShortString::from_str("ab") != ShortString::from_str("abc"));
}

#[test]
fn capacity_boundary_on_construction() {
    let at = ShortString::from_str("123456789012345");
    assert_eq!(at.len(), 15);
    assert!(at.is_inline());
    let over = ShortString::from_str("1234567890123456");
    assert_eq!(over.len(), 16);
    assert!(!over.is_inline());
    let over_owned = ShortString::from_string("1234567890123456".to_string());
    assert!(!over_owned.is_inline());
    assert!(ShortString::from_string("123456789012345".to_string()).is_inline());
}

#[test]
fn promotion_keeps_multibyte_character_across_boundary() {
    // 14 bytes inline, then a 3-byte character that crosses the capacity line.
    let mut s = ShortString::from_str("abcdefghijklmn");
    assert!(s.is_inline());
    s.push_str("€x");
    assert!(!s.is_inline());
    assert_eq!(s.as_str(), "abcdefghijklmn€x");
    assert_eq!(s.len(), 18);
}

#[test]
fn three_byte_characters_up_to_capacity_then_one_more() {
    let five = "€€€€€";
    assert_eq!(five.len(), 15);
    let mut s = ShortString::from_str(five);
    assert!(s.is_inline());
    s.push('é');
    assert!(!s.is_inline());
    assert_eq!(s.as_str(), "€€€€€é");
    assert!(std::str::from_utf8(s.as_bytes()).is_ok());
    assert_eq!(s.len(), 17);
}

#[test]
fn push_chars_of_each_width() {
    let mut s = ShortString::new();
    s.push('a');
    s.push('ß');
    s.push('€');
    s.push('😀');
    assert_eq!(s.as_str(), "aß€😀");
    assert_eq!(s.len(), 10);
    assert!(s.is_inline());
    s.push('😀');
    s.push('😀');
    assert!(!s.is_inline());
    assert_eq!(s.as_str(), "aß€😀😀😀");
}

#[test]
fn clear_twice_keeps_representation() {
    let mut i = ShortString::from_str("short");
    i.clear();
    assert_eq!(i.len(), 0);
    assert!(i.is_inline());
    i.clear();
    assert_eq!(i.len(), 0);
    assert!(i.is_inline());

    let mut h = ShortString::from_str("a heap string of some length");
    let cap = h.capacity();
    h.clear();
    assert_eq!(h.len(), 0);
    assert!(h.is_empty());
    assert!(!h.is_inline());
    assert_eq!(h.capacity(), cap);
    h.clear();
    assert_eq!(h.len(), 0);
    assert!(!h.is_inline());
    h.push_str("x");
    assert_eq!(h.as_str(), "x");
    assert!(!h.is_inline());
}

#[test]
fn clone_of_heap_is_independent() {
    let orig = ShortString::from_str("a heap string of some length");
    let mut copy = orig.clone();
    assert!(!copy.is_inline());
    copy.push_str(" and more");
    copy.push('!');
    assert_eq!(orig.as_str(), "a heap string of some length");
    assert_eq!(copy.as_str(), "a heap string of some length and more!");
    copy.clear();
    assert_eq!(orig.as_str(), "a heap string of some length");
}

#[test]
fn clone_of_inline_stays_inline() {
    let orig = ShortString::from_str("tiny");
    let mut copy = orig.clone();
    assert!(copy.is_inline());
    copy.push_str("er");
    assert_eq!(orig.as_str(), "tiny");
    assert_eq!(copy.as_str(), "tinyer");
}

#[test]
fn concat_builds_a_new_value() {
    let s = ShortString::from_str("foo");
    let t = s.concat("bar");
    assert_eq!(t.as_str(), "foobar");
    assert!(t.is_inline());
    let u = t.concat(" and a lot more text");
    assert_eq!(u.as_str(), "foobar and a lot more text");
    assert!(!u.is_inline());
}

#[test]
fn inline_try_push_str_refuses_overflow() {
    let mut i = Inline::from_str("0123456789").unwrap();
    assert_eq!(i.len(), 10);
    assert_eq!(i.capacity(), 15);
    assert!(i.try_push_str("abcde").is_ok());
    assert_eq!(i.as_str(), "0123456789abcde");
    assert!(i.try_push_str("f").is_err());
    assert_eq!(i.as_str(), "0123456789abcde");
    i.clear();
    assert_eq!(i.len(), 0);
    assert_eq!(i.as_str(), "");
    assert_eq!(Inline::new().as_str(), "");
}

#[test]
fn inline_from_str_and_can_inline() {
    assert!(Inline::can_inline("123456789012345"));
    assert!(!Inline::can_inline("1234567890123456"));
    assert!(Inline::can_inline("€€€€€"));
    assert!(!Inline::can_inline("€€€€€a"));
    assert!(Inline::from_str("1234567890123456").is_none());
    assert_eq!(Inline::from_str("ñandú").unwrap().as_str(), "ñandú");
}

#[test]
fn heap_operations() {
    let mut h = Heap::from_string(String::from("heap"));
    assert_eq!(h.as_str(), "heap");
    assert_eq!(h.len(), 4);
    assert!(h.capacity() >= 4);
    h.push_str(" text");
    assert_eq!(h.as_str(), "heap text");
    let c = h.clone();
    h.clear();
    assert_eq!(h.len(), 0);
    assert_eq!(h.as_str(), "");
    assert_eq!(c.as_str(), "heap text");
    assert_eq!(c.into_string(), "heap text".to_string());
}

#[test]
fn from_string_adopts_long_buffer() {
    let mut owned = String::with_capacity(64);
    owned.push_str("a long owned string beyond inline");
    let s = ShortString::from_string(owned);
    assert!(!s.is_inline());
    assert!(s.capacity() >= 64);
    assert_eq!(s.as_str(), "a long owned string beyond inline");
}

#[test]
fn derefs_to_str() {
    let s = ShortString::from_str("hello world");
    assert!(s.starts_with("hello"));
    assert_eq!(s.find('w'), Some(6));
    let h = ShortString::from_str("a heap string of some length");
    assert!(h.ends_with("length"));
    assert_eq!(&*h, "a heap string of some length");
}
