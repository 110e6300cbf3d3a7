use tinyprof::name_map::NameMap;
use tinyprof::name_map::Variables;
use tinyprof::text::decimal_string;
use tinyprof::text::digit_str;

#[test]
fn a_new_map_is_empty() {
    let map: NameMap<u32> = NameMap::new();
    assert_eq!(map.len(), 0);
    assert_eq!(map.get("a"), None);
    assert_eq!(map.index_of("a"), None);
}

#[test]
fn a_name_keeps_its_last_value_and_its_place() {
    let mut map: Variables = NameMap::new();
    map.insert("a".to_string(), 1);
    map.insert("b".to_string(), 2);
    map.insert("c".to_string(), 3);
    map.insert("a".to_string(), 10);
    assert_eq!(map.len(), 3);
    assert_eq!(map.get("a"), Some(&10));
    assert_eq!(map.get("b"), Some(&2));
    assert_eq!(map.get("c"), Some(&3));
    assert_eq!(map.get("d"), None);
    assert_eq!(map.index_of("a"), Some(0));
    assert_eq!(map.index_of("c"), Some(2));
    assert_eq!(map.name(0), "a");
    assert_eq!(map.name(1), "b");
    assert_eq!(*map.value(0), 10);
    assert_eq!(*map.value(2), 3);
}

#[test]
fn names_are_told_apart_by_their_characters() {
    let mut map: Variables = NameMap::new();
    map.insert("speed".to_string(), 1);
    map.insert("speed ".to_string(), 2);
    map.insert("Speed".to_string(), 3);
    map.insert("".to_string(), 4);
    assert_eq!(map.len(), 4);
    assert_eq!(map.get("speed"), Some(&1));
    assert_eq!(map.get("speed "), Some(&2));
    assert_eq!(map.get("Speed"), Some(&3));
    assert_eq!(map.get(""), Some(&4));
    assert_eq!(map.get("spee"), None);
}

#[test]
fn replace_hands_the_old_value_out() {
    let mut map: NameMap<String> = NameMap::new();
    map.insert("x".to_string(), "old".to_string());
    map.insert("y".to_string(), "other".to_string());
    assert_eq!(map.replace(0, "new".to_string()), "old");
    assert_eq!(map.get("x").map(|s| s.as_str()), Some("new"));
    assert_eq!(map.get("y").map(|s| s.as_str()), Some("other"));
    assert_eq!(map.len(), 2);
    assert_eq!(map.name(0), "x");
}

#[test]
fn clear_forgets_every_name() {
    let mut map: Variables = NameMap::new();
    map.insert("a".to_string(), 1);
    map.insert("b".to_string(), 2);
    map.clear();
    assert_eq!(map.len(), 0);
    assert_eq!(map.get("a"), None);
    map.insert("b".to_string(), 5);
    assert_eq!(map.index_of("b"), Some(0));
}

#[test]
fn a_snapshot_is_a_copy() {
    let mut map: Variables = NameMap::new();
    map.insert("a".to_string(), 1);
    map.insert("b".to_string(), 2);
    let copy = map.snapshot();
    let clone = map.clone();
    map.insert("a".to_string(), 7);
    map.insert("c".to_string(), 3);
    assert_eq!(copy.len(), 2);
    assert_eq!(copy.get("a"), Some(&1));
    assert_eq!(copy.get("b"), Some(&2));
    assert_eq!(copy.name(1), "b");
    assert_eq!(clone.get("a"), Some(&1));
    assert_eq!(clone.get("c"), None);
}

#[test]
fn numbers_in_decimal() {
    assert_eq!(decimal_string(0), "0");
    assert_eq!(decimal_string(7), "7");
    assert_eq!(decimal_string(10), "10");
    assert_eq!(decimal_string(1234567890), "1234567890");
    assert_eq!(decimal_string(u64::MAX), "18446744073709551615");
    assert_eq!(digit_str(0), "0");
    assert_eq!(digit_str(9), "9");
}
