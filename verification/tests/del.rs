use std::cell::Cell;

use rs_rdb2kv::bucket::Bucket;
use rs_rdb2kv::del;
use rs_rdb2kv::evt::Event;

struct DummyClient {}

#[test]
fn test_short_tablename() {
    let f = del::drop_builder_default_unchecked();
    let b = Bucket::from(String::from("devices_2022_11_01"));
    let s: String = f(&b).unwrap();
    assert_eq!(s.contains("DROP"), true);
    assert_eq!(s.contains("TABLE"), true);
    assert_eq!(s.contains("IF"), true);
    assert_eq!(s.contains("EXISTS"), true);
    assert_eq!(s.contains("devices_2022_11_01"), true);
}

#[test]
fn test_unchecked() {
    let builder = del::drop_builder_default_unchecked();
    let remover = |_: &mut DummyClient, _q: &str| Ok(());
    let f = del::drop_bucket_mut(remover, builder);
    let b = Bucket::from(String::from("dates_cafef00ddeadbeafface86499792458"));
    let mut c = DummyClient {};
    f(&b, &mut c).unwrap();
}

#[test]
fn test_dummy() {
    let remover = |_: &mut DummyClient, _q: &str, _k: &[u8]| Ok(42);
    let builder = |_: &Bucket| Ok(String::from(""));
    let f = del::delete_key_bytes_mut(remover, builder);
    let b = Bucket::from(String::from(""));
    let k = b"";
    let mut c = DummyClient {};
    let cnt: u64 = f(&b, k, &mut c).unwrap();
    assert_eq!(cnt, 42);
}

#[test]
fn drop_query_exact_text() {
    let f = del::drop_builder_default_unchecked();
    let b = Bucket::from(String::from("dates"));
    let s: String = f(&b).unwrap();
    assert_eq!(s, "DROP TABLE IF EXISTS dates");
}

#[test]
fn drop_twice_absent_bucket_is_success() {
    let builder = del::drop_builder_default_unchecked();
    let remover = |_: &mut DummyClient, _q: &str| Ok(());
    let f = del::drop_bucket_mut(remover, builder);
    let b = Bucket::from(String::from("absent"));
    let mut c = DummyClient {};
    assert!(f(&b, &mut c).is_ok());
    assert!(f(&b, &mut c).is_ok());
}

#[test]
fn drop_checked_builder_rejection() {
    let checker = |_: &Bucket| Err(Event::UnexpectedError(String::from("bad name")));
    let f = del::drop_builder_default_checked(checker);
    let b = Bucket::from(String::from("anything"));
    let r = f(&b);
    assert!(matches!(r, Err(Event::UnexpectedError(_))));
}

#[test]
fn delete_zero_rows_is_success() {
    let remover = |_: &mut DummyClient, _q: &str, _k: &[u8]| Ok(0);
    let builder = |_: &Bucket| Ok(String::from(""));
    let f = del::delete_key_bytes_mut(remover, builder);
    let b = Bucket::from(String::from("dates"));
    let mut c = DummyClient {};
    let cnt: u64 = f(&b, b"missing", &mut c).unwrap();
    assert_eq!(cnt, 0);
}

#[test]
fn delete_failing_builder_short_circuits() {
    let calls = Cell::new(0u32);
    let remover = |_: &mut DummyClient, _q: &str, _k: &[u8]| {
        calls.set(calls.get() + 1);
        Ok(1)
    };
    let builder = |_: &Bucket| Err(Event::UnexpectedError(String::from("disallowed bucket")));
    let f = del::delete_key_bytes_mut(remover, builder);
    let b = Bucket::from(String::from("no such bucket"));
    let mut c = DummyClient {};
    let r = f(&b, b"key", &mut c);
    assert!(matches!(r, Err(Event::UnexpectedError(_))));
    assert_eq!(calls.get(), 0);
}

#[test]
fn drop_connection_error_passes_through() {
    let builder = del::drop_builder_default_unchecked();
    let remover = |_: &mut DummyClient, _q: &str| {
        Err(Event::ConnectionError(String::from("connection lost")))
    };
    let f = del::drop_bucket_mut(remover, builder);
    let b = Bucket::from(String::from("dates"));
    let mut c = DummyClient {};
    let r = f(&b, &mut c);
    assert!(matches!(r, Err(Event::ConnectionError(_))));
}
