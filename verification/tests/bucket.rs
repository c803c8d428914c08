use rs_rdb2kv::bucket::{bucket_checker_new_unchecked, Bucket};

#[test]
fn bucket_from_keeps_name() {
    let b = Bucket::from(String::from("devices_2022_11_01"));
    assert_eq!(b.as_str(), "devices_2022_11_01");
}

#[test]
fn unchecked_checker_accepts_any_name() {
    let checker = bucket_checker_new_unchecked();
    assert!(checker(&Bucket::from(String::from(""))).is_ok());
    assert!(checker(&Bucket::from(String::from("dates; injected"))).is_ok());
}
