use magisk_package::locate::DirEntry;
use magisk_package::manager::{Action, Event, MagiskD, ManagerInfo, Status, Timestamp};

const PKG: &str = "com.topjohnwu.magisk";

fn apk_with_cert(cert: &[u8]) -> Vec<u8> {
    let digests = [9u8; 4];
    let mut v = Vec::new();
    v.extend_from_slice(&[0u8; 12]);
    v.extend_from_slice(&(digests.len() as u32).to_le_bytes());
    v.extend_from_slice(&digests);
    v.extend_from_slice(&0u32.to_le_bytes());
    v.extend_from_slice(&(cert.len() as u32).to_le_bytes());
    v.extend_from_slice(cert);
    let mut pair = Vec::new();
    pair.extend_from_slice(&((v.len() + 4) as u64).to_le_bytes());
    pair.extend_from_slice(&0x7109871Au32.to_le_bytes());
    pair.extend_from_slice(&v);
    let mut out = vec![0u8; 4];
    let size = (pair.len() + 24) as u64;
    out.extend_from_slice(&size.to_le_bytes());
    out.extend_from_slice(&pair);
    out.extend_from_slice(&size.to_le_bytes());
    out.extend_from_slice(b"APK Sig Block 42");
    let cd = out.len() as u32;
    out.extend_from_slice(&0x06054B50u32.to_le_bytes());
    out.extend_from_slice(&[0u8; 12]);
    out.extend_from_slice(&cd.to_le_bytes());
    out.extend_from_slice(&0u16.to_le_bytes());
    out
}

fn entries() -> Vec<DirEntry> {
    vec![DirEntry {
        name: format!("{}-abc", PKG).into_bytes(),
        is_dir: true,
        path: format!("/data/app/{}-abc", PKG).into_bytes(),
    }]
}

fn apk_path() -> Vec<u8> {
    format!("/data/app/{}-abc/base.apk", PKG).into_bytes()
}

/// A filesystem as the resolver sees it, counting APK reads.
struct World {
    uid: i32,
    apk: Vec<u8>,
    stamp: Timestamp,
    reads: usize,
    installs: usize,
}

impl World {
    fn run(&mut self, d: &mut MagiskD, first: Action) -> (i32, Vec<u8>, Status) {
        let mut a = first;
        loop {
            let ev = match a {
                Action::QueryUid { .. } => Event::Uid(self.uid),
                Action::CheckStamp { path } => {
                    assert_eq!(path, apk_path());
                    Event::Stamp(Some(self.stamp))
                }
                Action::LocateApk { .. } => Event::Entries(entries()),
                Action::ReadApk { path } => {
                    assert_eq!(path, apk_path());
                    self.reads += 1;
                    Event::Apk { data: Some(self.apk.clone()), stamp: Some(self.stamp) }
                }
                Action::Install { .. } => {
                    self.installs += 1;
                    self.uid = 10200;
                    Event::Installed
                }
                Action::Done { uid, pkg, status } => return (uid, pkg, status),
            };
            a = d.resume(ev);
        }
    }
}

fn daemon(trusted: &[u8]) -> MagiskD {
    MagiskD::new(ManagerInfo::new(PKG.as_bytes().to_vec(), trusted.to_vec()))
}

#[test]
fn cache_skips_extraction_until_stamp_changes() {
    let mut d = daemon(b"trusted");
    let mut w = World { uid: 10123, apk: apk_with_cert(b"trusted"), stamp: Timestamp { secs: 5, nanos: 7 }, reads: 0, installs: 0 };
    let first = d.get_manager(0, false);
    assert_eq!(w.run(&mut d, first), (10123, PKG.as_bytes().to_vec(), Status::Installed));
    assert_eq!(w.reads, 1);
    let again = d.get_manager(0, false);
    assert_eq!(w.run(&mut d, again), (10123, PKG.as_bytes().to_vec(), Status::Installed));
    assert_eq!(w.reads, 1);
    w.stamp = Timestamp { secs: 6, nanos: 0 };
    let touched = d.get_manager(0, false);
    assert_eq!(w.run(&mut d, touched), (10123, PKG.as_bytes().to_vec(), Status::Installed));
    assert_eq!(w.reads, 2);
}

#[test]
fn cert_mismatch_hides_the_manager() {
    let mut d = daemon(b"trusted");
    let mut w = World { uid: 10123, apk: apk_with_cert(b"impostor"), stamp: Timestamp { secs: 1, nanos: 0 }, reads: 0, installs: 0 };
    let first = d.get_manager_uid(0);
    assert_eq!(w.run(&mut d, first), (-1, Vec::new(), Status::CertMismatch));
    let again = d.get_manager_uid(0);
    assert_eq!(w.run(&mut d, again), (-1, Vec::new(), Status::CertMismatch));
    assert_eq!(w.reads, 2);
}

#[test]
fn unparsable_apk_is_a_mismatch() {
    let mut d = daemon(b"trusted");
    let mut w = World { uid: 10123, apk: vec![1, 2, 3], stamp: Timestamp { secs: 1, nanos: 0 }, reads: 0, installs: 0 };
    let first = d.get_manager_uid(0);
    assert_eq!(w.run(&mut d, first).2, Status::CertMismatch);
}

#[test]
fn manager_uid_is_stable() {
    let mut d = daemon(b"trusted");
    let mut w = World { uid: 10123, apk: apk_with_cert(b"trusted"), stamp: Timestamp { secs: 5, nanos: 7 }, reads: 0, installs: 0 };
    for _ in 0..4 {
        let a = d.get_manager_uid(0);
        assert_eq!(w.run(&mut d, a).0, 10123);
    }
    assert_eq!(w.reads, 1);
}

#[test]
fn not_installed_without_install() {
    let mut d = daemon(b"trusted");
    let mut w = World { uid: -1, apk: Vec::new(), stamp: Timestamp { secs: 0, nanos: 0 }, reads: 0, installs: 0 };
    let first = d.get_manager_uid(0);
    assert_eq!(w.run(&mut d, first), (-1, Vec::new(), Status::NotInstalled));
    assert_eq!(w.installs, 0);
}

#[test]
fn ensure_manager_installs_once() {
    let mut d = daemon(b"trusted");
    let mut w = World { uid: -1, apk: apk_with_cert(b"trusted"), stamp: Timestamp { secs: 2, nanos: 0 }, reads: 0, installs: 0 };
    let first = d.ensure_manager();
    assert!(matches!(first, Action::QueryUid { user: 0, .. }));
    assert_eq!(w.run(&mut d, first), (10200, PKG.as_bytes().to_vec(), Status::Installed));
    assert_eq!(w.installs, 1);
}

#[test]
fn repackaged_identity_is_checked_against_its_own_cert() {
    let mut d = daemon(b"trusted");
    d.manager_info().set_repackaged(10300, b"io.stub.app".to_vec(), b"stubcert".to_vec());
    let _ = d.get_manager(0, false);
    let a = d.resume(Event::Uid(-1));
    match a {
        Action::QueryUid { user, pkg } => {
            assert_eq!(user, 0);
            assert_eq!(pkg, b"io.stub.app".to_vec());
        }
        other => panic!("unexpected {:?}", other),
    }
    let a = d.resume(Event::Uid(10300));
    assert!(matches!(a, Action::LocateApk { .. }));
    let stub_entries = vec![DirEntry { name: b"io.stub.app-1".to_vec(), is_dir: true, path: b"/data/app/io.stub.app-1".to_vec() }];
    let a = d.resume(Event::Entries(stub_entries));
    assert!(matches!(a, Action::ReadApk { .. }));
    let a = d.resume(Event::Apk { data: Some(apk_with_cert(b"stubcert")), stamp: None });
    match a {
        Action::Done { uid, pkg, status } => {
            assert_eq!(uid, 10300);
            assert_eq!(pkg, b"io.stub.app".to_vec());
            assert_eq!(status, Status::Installed);
        }
        other => panic!("unexpected {:?}", other),
    }
}

#[test]
fn unexpected_event_ends_without_manager() {
    let mut d = daemon(b"trusted");
    let _ = d.get_manager_uid(0);
    let a = d.resume(Event::Installed);
    assert!(matches!(a, Action::Done { uid: -1, status: Status::NotInstalled, .. }));
}

#[test]
fn app_no_list_through_daemon() {
    let d = daemon(b"trusted");
    let set = d.get_app_no_list(&vec![10001, 30000]);
    assert!(set.contains(1));
    assert_eq!(set.len(), 1);
}

#[test]
fn repackaged_cache_does_not_vouch_for_canonical_package() {
    let mut d = daemon(b"trusted");
    d.manager_info().set_repackaged(10300, b"io.stub.app".to_vec(), b"stubcert".to_vec());
    let stub_entries = || vec![DirEntry { name: b"io.stub.app-1".to_vec(), is_dir: true, path: b"/data/app/io.stub.app-1".to_vec() }];
    let stamp = Timestamp { secs: 9, nanos: 1 };
    let _ = d.get_manager(0, false);
    let _ = d.resume(Event::Uid(-1));
    let _ = d.resume(Event::Uid(10300));
    let _ = d.resume(Event::Entries(stub_entries()));
    let a = d.resume(Event::Apk { data: Some(apk_with_cert(b"stubcert")), stamp: Some(stamp) });
    assert!(matches!(a, Action::Done { uid: 10300, status: Status::Installed, .. }));
    // An impostor now appears under the canonical name.
    let _ = d.get_manager(0, false);
    let a = d.resume(Event::Uid(10400));
    assert!(matches!(a, Action::LocateApk { .. }), "unexpected {:?}", a);
    let a = d.resume(Event::Entries(entries()));
    assert!(matches!(a, Action::ReadApk { .. }));
    let a = d.resume(Event::Apk { data: Some(apk_with_cert(b"impostor")), stamp: Some(stamp) });
    assert!(matches!(a, Action::Done { uid: -1, status: Status::CertMismatch, .. }));
}
