use std::cell::Cell;

use rs_rdb2kv::bucket::Bucket;
use rs_rdb2kv::evt::Event;
use rs_rdb2kv::list::{self, list_query_builder_unchecked};

struct DummyClient {}

#[test]
fn list_test_empty() {
    let builder = list_query_builder_unchecked();
    let list_getter = |_: &mut DummyClient, _q: &str| Ok(vec![]);
    let f = list::list_keys_bytes_new_mut(list_getter, builder);
    let b: Bucket = Bucket::from(String::from("dates"));
    let mut c = DummyClient {};
    let v: Vec<_> = f(&b, &mut c).unwrap();
    assert_eq!(v.len(), 0);
}

#[test]
fn list_query_exact_text() {
    let builder = list_query_builder_unchecked();
    let b = Bucket::from(String::from("dates"));
    let s: String = builder(&b).unwrap();
    assert_eq!(s, "SELECT key FROM dates ORDER BY key");
}

#[test]
fn list_keys_order_passes_through() {
    let builder = list_query_builder_unchecked();
    let list_getter = |_: &mut DummyClient, _q: &str| {
        Ok(vec![b"alpha".to_vec(), b"beta".to_vec(), b"gamma".to_vec()])
    };
    let f = list::list_keys_bytes_new_mut(list_getter, builder);
    let b = Bucket::from(String::from("dates"));
    let mut c = DummyClient {};
    let v: Vec<Vec<u8>> = f(&b, &mut c).unwrap();
    assert_eq!(v, vec![b"alpha".to_vec(), b"beta".to_vec(), b"gamma".to_vec()]);
}

#[test]
fn list_checked_builder_rejection() {
    let checker = |_: &Bucket| Err(Event::UnexpectedError(String::from("bad name")));
    let builder = list::list_query_builder_checked(checker);
    let b = Bucket::from(String::from("anything"));
    let r = builder(&b);
    assert!(matches!(r, Err(Event::UnexpectedError(_))));
}

#[test]
fn list_failing_builder_short_circuits() {
    let calls = Cell::new(0u32);
    let list_getter = |_: &mut DummyClient, _q: &str| {
        calls.set(calls.get() + 1);
        Ok(vec![])
    };
    let builder = |_: &Bucket| Err(Event::UnexpectedError(String::from("disallowed bucket")));
    let f = list::list_keys_bytes_new_mut(list_getter, builder);
    let b = Bucket::from(String::from("forbidden"));
    let mut c = DummyClient {};
    let r = f(&b, &mut c);
    assert!(matches!(r, Err(Event::UnexpectedError(_))));
    assert_eq!(calls.get(), 0);
}
