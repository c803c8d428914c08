use std::cell::Cell;

use rs_rdb2kv::bucket::Bucket;
use rs_rdb2kv::evt::Event;
use rs_rdb2kv::item::Item;
use rs_rdb2kv::upsert::{self, convert_request, upsert_builder_new, BulkRequest};

struct DummyTransaction {}

#[test]
fn test_empty_request() {
    let c = |_t: &DummyTransaction, _q: &str| Ok(1);
    let u = |_t: &DummyTransaction, _q: &str, _key: &[u8], _val: &[u8]| Ok(1);
    let b = upsert_builder_new(
        |_: &Bucket| Ok(String::from("")),
        |_: &Bucket| Ok(String::from("")),
    );
    let f = upsert::upsert_bytes_all_new_immutable(c, u, b);
    let req = vec![];
    let mut dt: DummyTransaction = DummyTransaction {};
    let cnt: u64 = f(req, &mut dt).unwrap();
    assert_eq!(cnt, 0);
}

#[test]
fn test_single_request() {
    let c = |_t: &DummyTransaction, _q: &str| Ok(1);
    let u = |_t: &DummyTransaction, _q: &str, _key: &[u8], _val: &[u8]| Ok(1);
    let b = upsert_builder_new(
        |bkt: &Bucket| Ok(format!("CREATE TABLE {}", bkt.as_str())),
        |_bk: &Bucket| Ok(String::from("")),
    );
    let f = upsert::upsert_bytes_all_new_immutable(c, u, b);
    let req = vec![BulkRequest::new(
        Bucket::from(String::from(
            "data_2022_10_31_cafef00ddeadbeafface864299792458",
        )),
        vec![Item::new(
            String::from("06:40:28.0Z").into_bytes(),
            String::from(
                r#"{
                    "timestamp": "2022-10-31T06:40:28.0Z",
                    "data": [
                    ]
                }"#,
            )
            .into_bytes(),
        )],
    )];
    let mut dt: DummyTransaction = DummyTransaction {};
    let cnt: u64 = f(req, &mut dt).unwrap();
    assert_eq!(cnt, 2);
}

#[test]
fn test_strings2bytes() {
    let before = BulkRequest::new(
        Bucket::from(String::from("dates_cafef00ddeadbeafface864299792458")),
        vec![Item::new(String::from("2022/10/31"), String::from(""))],
    );
    let after = convert_request(
        before,
        |key: String| key.into_bytes(),
        |val: String| val.into_bytes(),
    );
    let b: &Bucket = after.as_bucket();
    let items: &[Item<Vec<u8>, Vec<u8>>] = after.as_items();
    assert_eq!(b.as_str(), "dates_cafef00ddeadbeafface864299792458");
    assert_eq!(items.len(), 1);
    let i: &Item<_, _> = &items[0];
    assert_eq!(i.as_key(), b"2022/10/31");
    assert_eq!(i.as_val(), b"");
}

#[test]
fn upsert_mut_three_items_counts_four_statements() {
    let c = |_t: &mut DummyTransaction, _q: &str| Ok(1);
    let u = |_t: &mut DummyTransaction, _q: &str, _key: &[u8], _val: &[u8]| Ok(1);
    let b = upsert_builder_new(
        |_: &Bucket| Ok(String::from("")),
        |_: &Bucket| Ok(String::from("")),
    );
    let f = upsert::upsert_bytes_all_new_mut(c, u, b);
    let req = vec![BulkRequest::new(
        Bucket::from(String::from("dates")),
        vec![
            Item::new(b"a".to_vec(), b"1".to_vec()),
            Item::new(b"b".to_vec(), b"2".to_vec()),
            Item::new(b"c".to_vec(), b"3".to_vec()),
        ],
    )];
    let mut dt = DummyTransaction {};
    let cnt: u64 = f(req, &mut dt).unwrap();
    assert_eq!(cnt, 4);
}

#[test]
fn upsert_two_buckets_sums_counts() {
    let c = |_t: &mut DummyTransaction, _q: &str| Ok(0);
    let u = |_t: &mut DummyTransaction, _q: &str, _key: &[u8], _val: &[u8]| Ok(1);
    let b = upsert_builder_new(
        |_: &Bucket| Ok(String::from("")),
        |_: &Bucket| Ok(String::from("")),
    );
    let f = upsert::upsert_bytes_all_new_mut(c, u, b);
    let req = vec![
        BulkRequest::new(
            Bucket::from(String::from("first")),
            vec![Item::new(b"a".to_vec(), b"1".to_vec())],
        ),
        BulkRequest::new(
            Bucket::from(String::from("second")),
            vec![
                Item::new(b"b".to_vec(), b"2".to_vec()),
                Item::new(b"c".to_vec(), b"3".to_vec()),
            ],
        ),
    ];
    let mut dt = DummyTransaction {};
    let cnt: u64 = f(req, &mut dt).unwrap();
    assert_eq!(cnt, 3);
}

#[test]
fn upsert_failing_builder_short_circuits() {
    let create_calls = Cell::new(0u32);
    let upsert_calls = Cell::new(0u32);
    let c = |_t: &mut DummyTransaction, _q: &str| {
        create_calls.set(create_calls.get() + 1);
        Ok(1)
    };
    let u = |_t: &mut DummyTransaction, _q: &str, _key: &[u8], _val: &[u8]| {
        upsert_calls.set(upsert_calls.get() + 1);
        Ok(1)
    };
    let b = upsert_builder_new(
        |_: &Bucket| Err(Event::UnexpectedError(String::from("disallowed bucket"))),
        |_: &Bucket| Ok(String::from("")),
    );
    let f = upsert::upsert_bytes_all_new_mut(c, u, b);
    let req = vec![BulkRequest::new(
        Bucket::from(String::from("forbidden")),
        vec![Item::new(b"a".to_vec(), b"1".to_vec())],
    )];
    let mut dt = DummyTransaction {};
    let r = f(req, &mut dt);
    assert!(matches!(r, Err(Event::UnexpectedError(_))));
    assert_eq!(create_calls.get(), 0);
    assert_eq!(upsert_calls.get(), 0);
}

#[test]
fn upsert_failure_aborts_batch() {
    let c = |_t: &mut DummyTransaction, _q: &str| Ok(1);
    let u = |_t: &mut DummyTransaction, _q: &str, key: &[u8], _val: &[u8]| {
        if key == b"bad" {
            Err(Event::UnexpectedError(String::from("write failed")))
        } else {
            Ok(1)
        }
    };
    let b = upsert_builder_new(
        |_: &Bucket| Ok(String::from("")),
        |_: &Bucket| Ok(String::from("")),
    );
    let f = upsert::upsert_bytes_all_new_mut(c, u, b);
    let req = vec![BulkRequest::new(
        Bucket::from(String::from("dates")),
        vec![
            Item::new(b"good".to_vec(), b"1".to_vec()),
            Item::new(b"bad".to_vec(), b"2".to_vec()),
            Item::new(b"unreached".to_vec(), b"3".to_vec()),
        ],
    )];
    let mut dt = DummyTransaction {};
    let r = f(req, &mut dt);
    assert!(matches!(r, Err(Event::UnexpectedError(_))));
}

#[test]
fn convert_request_empty_items() {
    let before: BulkRequest<String, String> =
        BulkRequest::new(Bucket::from(String::from("dates")), vec![]);
    let after = convert_request(
        before,
        |key: String| key.into_bytes(),
        |val: String| val.into_bytes(),
    );
    assert_eq!(after.as_bucket().as_str(), "dates");
    assert_eq!(after.as_items().len(), 0);
}

#[test]
fn item_accessors_and_unpack() {
    let item = Item::new(String::from("key"), String::from("value"));
    assert_eq!(item.as_key().as_str(), "key");
    assert_eq!(item.as_val().as_str(), "value");
    let (k, v) = item.into_pair();
    assert_eq!(k, "key");
    assert_eq!(v, "value");
}

#[test]
fn bulk_request_accessors() {
    let req = BulkRequest::new(
        Bucket::from(String::from("dates")),
        vec![Item::new(b"a".to_vec(), b"1".to_vec())],
    );
    assert_eq!(req.as_bucket().as_str(), "dates");
    assert_eq!(req.as_items().len(), 1);
}

#[test]
fn upsert_request_without_items_runs_create_only() {
    let create_calls = Cell::new(0u32);
    let upsert_calls = Cell::new(0u32);
    let c = |_t: &mut DummyTransaction, _q: &str| {
        create_calls.set(create_calls.get() + 1);
        Ok(1)
    };
    let u = |_t: &mut DummyTransaction, _q: &str, _key: &[u8], _val: &[u8]| {
        upsert_calls.set(upsert_calls.get() + 1);
        Ok(1)
    };
    let b = upsert_builder_new(
        |_: &Bucket| Ok(String::from("")),
        |_: &Bucket| Ok(String::from("")),
    );
    let f = upsert::upsert_bytes_all_new_mut(c, u, b);
    let req = vec![BulkRequest::new(Bucket::from(String::from("dates")), vec![])];
    let mut dt = DummyTransaction {};
    let cnt: u64 = f(req, &mut dt).unwrap();
    assert_eq!(cnt, 1);
    assert_eq!(create_calls.get(), 1);
    assert_eq!(upsert_calls.get(), 0);
}
