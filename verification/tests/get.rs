use std::cell::Cell;

use rs_rdb2kv::bucket::Bucket;
use rs_rdb2kv::evt::Event;
use rs_rdb2kv::get::{self, GetRequest};

struct DummyClient {}

#[test]
fn get_test_empty() {
    let mut dc: DummyClient = DummyClient {};
    let q: GetRequest<_> = GetRequest::new(
        Bucket::from(String::from("dates")),
        String::from("2022/11/01").into_bytes(),
    );
    let sel = |_c: &mut DummyClient, _q: &str, _k: &[u8]| Ok(None);
    let gen = |_: &Bucket| Ok(String::from(""));
    let f = get::select_bytes_new_mut(sel, gen);
    let ov: Option<_> = f(&q, &mut dc).unwrap();
    assert_eq!(ov, None);
}

#[test]
fn get_found_value_passes_through() {
    let mut dc: DummyClient = DummyClient {};
    let q: GetRequest<_> = GetRequest::new(
        Bucket::from(String::from("dates")),
        String::from("2022/11/01").into_bytes(),
    );
    let sel = |_c: &mut DummyClient, _q: &str, _k: &[u8]| {
        Ok(Some(String::from("payload").into_bytes()))
    };
    let gen = |_: &Bucket| Ok(String::from(""));
    let f = get::select_bytes_new_mut(sel, gen);
    let ov: Option<Vec<u8>> = f(&q, &mut dc).unwrap();
    assert_eq!(ov, Some(b"payload".to_vec()));
}

#[test]
fn get_request_accessors() {
    let q: GetRequest<Vec<u8>> = GetRequest::new(
        Bucket::from(String::from("dates")),
        b"2022/11/01".to_vec(),
    );
    assert_eq!(q.as_bucket().as_str(), "dates");
    assert_eq!(q.as_key().as_slice(), b"2022/11/01");
}

#[test]
fn get_failing_builder_short_circuits() {
    let calls = Cell::new(0u32);
    let sel = |_c: &mut DummyClient, _q: &str, _k: &[u8]| {
        calls.set(calls.get() + 1);
        Ok(None)
    };
    let gen = |_: &Bucket| Err(Event::UnexpectedError(String::from("disallowed bucket")));
    let f = get::select_bytes_new_mut(sel, gen);
    let q: GetRequest<Vec<u8>> = GetRequest::new(
        Bucket::from(String::from("forbidden")),
        b"key".to_vec(),
    );
    let mut dc = DummyClient {};
    let r = f(&q, &mut dc);
    assert!(matches!(r, Err(Event::UnexpectedError(_))));
    assert_eq!(calls.get(), 0);
}
