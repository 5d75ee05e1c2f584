//! The key-value store: expiry, overwrite, liveness, and binary keys.

use respkv::store::Store;
use respkv::store::StoreValue;

#[test]
fn expiry_hides_entry_after_its_time() {
    let mut store = Store::init();
    store.set(b"k".to_vec(), b"v".to_vec(), Some(10), 1000);
    assert_eq!(store.get(b"k", 1000), Some(&b"v".to_vec()));
    assert_eq!(store.get(b"k", 1010), Some(&b"v".to_vec()));
    assert_eq!(store.get(b"k", 1011), None);
    assert_eq!(store.get(b"k", 5000), None);
}

#[test]
fn entry_without_expiry_stays() {
    let mut store = Store::init();
    store.set(b"k".to_vec(), b"v".to_vec(), None, 0);
    assert_eq!(store.get(b"k", u64::MAX), Some(&b"v".to_vec()));
}

#[test]
fn overwrite_replaces_value_and_drops_old_expiry() {
    let mut store = Store::init();
    store.set(b"k".to_vec(), b"a".to_vec(), Some(10), 1000);
    store.set(b"k".to_vec(), b"b".to_vec(), None, 1005);
    assert_eq!(store.get(b"k", 1005), Some(&b"b".to_vec()));
    // far past the first entry's expiry: nothing carried over
    assert_eq!(store.get(b"k", 99999), Some(&b"b".to_vec()));
}

#[test]
fn overwrite_resets_creation_time() {
    let mut store = Store::init();
    store.set(b"k".to_vec(), b"a".to_vec(), Some(10), 1000);
    store.set(b"k".to_vec(), b"b".to_vec(), Some(10), 1008);
    assert_eq!(store.get(b"k", 1012), Some(&b"b".to_vec()));
    assert_eq!(store.get(b"k", 1019), None);
}

#[test]
fn set_answers_previous_live_value() {
    let mut store = Store::init();
    assert_eq!(store.set(b"k".to_vec(), b"a".to_vec(), Some(10), 1000), None);
    assert_eq!(store.set(b"k".to_vec(), b"b".to_vec(), None, 1005), Some(b"a".to_vec()));
    store.set(b"e".to_vec(), b"x".to_vec(), Some(1), 0);
    // the previous entry expired: a reader saw nothing, so nothing returns
    assert_eq!(store.set(b"e".to_vec(), b"y".to_vec(), None, 100), None);
}

#[test]
fn has_follows_the_same_liveness_rule_as_get() {
    let mut store = Store::init();
    assert!(!store.has(b"k", 0));
    store.set(b"k".to_vec(), b"v".to_vec(), Some(10), 1000);
    assert!(store.has(b"k", 1010));
    assert!(!store.has(b"k", 1011));
}

#[test]
fn distinct_keys_are_independent() {
    let mut store = Store::init();
    store.set(b"a".to_vec(), b"1".to_vec(), None, 0);
    store.set(b"b".to_vec(), b"2".to_vec(), Some(5), 0);
    assert_eq!(store.get(b"a", 100), Some(&b"1".to_vec()));
    assert_eq!(store.get(b"b", 100), None);
    assert_eq!(store.get(b"c", 100), None);
}

#[test]
fn keys_and_values_are_binary_safe() {
    let mut store = Store::init();
    let key = b"\x00\xff\r\n".to_vec();
    let value = b"caf\xc3\xa9 \xfe\x00".to_vec();
    store.set(key.clone(), value.clone(), None, 0);
    assert_eq!(store.get(&key, 50), Some(&value));
    assert_eq!(store.get(b"\x00\xff\r", 50), None);
}

#[test]
fn store_value_reads_by_age() {
    let v = StoreValue::new(b"x".to_vec(), Some(7), 50);
    assert_eq!(v.value(57), Some(&b"x".to_vec()));
    assert_eq!(v.value(58), None);
    // a reading taken before the creation time is not an expiry
    assert_eq!(v.value(0), Some(&b"x".to_vec()));
    let w = StoreValue::new(b"y".to_vec(), None, 50);
    assert_eq!(w.value(u64::MAX), Some(&b"y".to_vec()));
}
