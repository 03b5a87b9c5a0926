use magisk_package::locate::{find_apk_path, find_package_entry, walk_action, DirEntry, WalkResult};

fn dir(name: &str) -> DirEntry {
    DirEntry {
        name: name.as_bytes().to_vec(),
        is_dir: true,
        path: format!("/data/app/{}", name).into_bytes(),
    }
}

#[test]
fn prefix_rule_picks_the_versioned_directory() {
    let entries = vec![dir("com.foobar-2"), dir("~~staging"), dir("com.foo-1")];
    let pkg = b"com.foo".to_vec();
    assert_eq!(find_package_entry(&entries, &pkg), Some(2));
    assert_eq!(find_apk_path(&entries, &pkg), b"/data/app/com.foo-1/base.apk".to_vec());
}

#[test]
fn longer_name_is_found_by_its_own_prefix() {
    let entries = vec![dir("com.foo-1"), dir("com.foobar-2")];
    assert_eq!(find_apk_path(&entries, &b"com.foobar".to_vec()), b"/data/app/com.foobar-2/base.apk".to_vec());
}

#[test]
fn absent_package_gives_empty_path() {
    let mut file = dir("com.foo-9");
    file.is_dir = false;
    let entries = vec![dir("com.foobar-2"), dir("com.foo"), file];
    assert_eq!(find_package_entry(&entries, &b"com.foo".to_vec()), None);
    assert!(find_apk_path(&entries, &b"com.foo".to_vec()).is_empty());
}

#[test]
fn walk_actions() {
    let pkg = b"com.foo".to_vec();
    let mut file = dir("com.foo-1");
    file.is_dir = false;
    assert_eq!(walk_action(&file, &pkg), WalkResult::Skip);
    assert_eq!(walk_action(&dir("com.foo-1"), &pkg), WalkResult::Abort);
    assert_eq!(walk_action(&dir("~~staging"), &pkg), WalkResult::Continue);
    assert_eq!(walk_action(&dir("com.foobar-2"), &pkg), WalkResult::Skip);
    assert_eq!(walk_action(&dir("com.foo"), &pkg), WalkResult::Skip);
}

#[test]
fn first_match_wins() {
    let entries = vec![dir("com.foo-1"), dir("com.foo-2")];
    assert_eq!(find_package_entry(&entries, &b"com.foo".to_vec()), Some(0));
}
