use gdpatch::config_file::extension_list::ExtensionList;
use gdpatch::uid_cache::{UIDCache, UID};
use gdpatch::util::NPeekable;
use gdpatch::{Error, ReadableMarshalBuffer, WritableMarshalBuffer};

#[test]
fn extension_list_parse_trims_and_drops_blank_lines() {
    let list = ExtensionList::parse("  res://a.gdextension \n\n\tres://b.gdextension\r\n  \n");
    assert_eq!(list.0, vec!["res://a.gdextension".to_string(), "res://b.gdextension".to_string()]);
}

#[test]
fn extension_list_write_joins_lines() {
    let mut list = ExtensionList(vec!["a".to_string(), "b".to_string()]);
    assert_eq!(list.write(), "a\nb");
    let mut empty = ExtensionList(vec![]);
    assert_eq!(empty.write(), "");
}

#[test]
fn extension_list_write_then_parse() {
    let mut list = ExtensionList(vec!["res://x".to_string(), "res://y z".to_string()]);
    let text = list.write();
    assert_eq!(ExtensionList::parse(&text).0, list.0);
}

#[test]
fn extension_list_merge() {
    let mut list = ExtensionList(vec!["a".to_string()]);
    list.merge(&ExtensionList(vec!["b".to_string()]));
    list.merge_decode("c\n d ");
    assert_eq!(list.0, vec!["a", "b", "c", "d"]);
}

#[test]
fn uid_cache_round_trip() {
    let cache = UIDCache(vec![(UID(1), "res://a.tscn".to_string()), (UID(u64::MAX), "res://é.gd".to_string())]);
    let mut w = WritableMarshalBuffer::new(false);
    cache.encode(&mut w);
    let bytes = w.into_inner();
    let mut r = ReadableMarshalBuffer::new(&bytes, false);
    let decoded = UIDCache::decode(&mut r).unwrap();
    assert_eq!(decoded.0, cache.0);
    assert_eq!(r.remaining(), 0);
}

#[test]
fn uid_cache_errors_and_merge() {
    let bytes = [1u8, 0, 0, 0, 5, 0];
    let mut r = ReadableMarshalBuffer::new(&bytes, false);
    assert!(matches!(UIDCache::decode(&mut r), Err(Error::TooShort)));
    let bytes = [1u8, 0, 0, 0, 1, 0, 0, 0, 0, 0, 0, 0, 1, 0, 0, 0, 0xff];
    let mut r = ReadableMarshalBuffer::new(&bytes, false);
    assert!(matches!(UIDCache::decode(&mut r), Err(Error::BadData)));
    let mut cache = UIDCache(vec![(UID(1), "a".to_string())]);
    cache.merge(&UIDCache(vec![(UID(2), "b".to_string())]));
    let bytes = [1u8, 0, 0, 0, 3, 0, 0, 0, 0, 0, 0, 0, 1, 0, 0, 0, b'c'];
    let mut r = ReadableMarshalBuffer::new(&bytes, false);
    cache.merge_decode(&mut r).unwrap();
    assert_eq!(cache.0, vec![(UID(1), "a".to_string()), (UID(2), "b".to_string()), (UID(3), "c".to_string())]);
}

#[test]
fn npeekable_peeks_ahead() {
    let mut p = NPeekable::new(vec![1, 2, 3]);
    assert_eq!(p.peek(2), Some(3));
    assert_eq!(p.peek(3), None);
    assert_eq!(p.next(), Some(1));
    assert_eq!(p.peek(0), Some(2));
    assert_eq!(p.remaining(), 2);
}

#[test]
fn uid_cache_path_past_end_is_too_short() {
    let bytes = [1u8, 0, 0, 0, 7, 0, 0, 0, 0, 0, 0, 0, 5, 0, 0, 0, b'a'];
    let mut r = ReadableMarshalBuffer::new(&bytes, false);
    assert!(matches!(UIDCache::decode(&mut r), Err(Error::TooShort)));
}
