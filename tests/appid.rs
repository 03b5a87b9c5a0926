use magisk_package::appid::{app_no_list, to_app_id};

#[test]
fn app_id_range_bounds() {
    let uids = vec![10000u32, 19999, 9999, 20000, 110005, 0, 1000, 99999];
    let set = app_no_list(&uids);
    assert!(set.contains(0));
    assert!(set.contains(9999));
    assert!(set.contains(5));
    assert_eq!(set.len(), 3);
}

#[test]
fn empty_uid_list() {
    assert!(app_no_list(&Vec::new()).is_empty());
}

#[test]
fn app_id_of_uid() {
    assert_eq!(to_app_id(1010123), 10123);
    assert_eq!(to_app_id(2000), 2000);
}
