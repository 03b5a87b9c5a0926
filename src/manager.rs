//! The per-user manager resolver. Resolving a user's manager is a short
//! exchange: each step names one outside observation or operation
//! ([`Action`]) and the caller answers it with an [`Event`], until a
//! [`Action::Done`] carries the outcome. Every decision of the exchange,
//! and the change-detecting cache of verified APK locations, is here.
use vstd::prelude::*;
use std::collections::BTreeMap;
use crate::cert::{certificate_of, read_certificate};
use crate::locate::{base_apk_path, find_apk_path, first_package_entry, DirEntry};
use crate::appid::{app_no_list, bit_set_contents, used_app_nos};
use bit_set::BitSet;

verus! {

broadcast use vstd::std_specs::btree::group_btree_axioms;

/// The device user whose manager is installed on demand.
pub const PRIMARY_USER: i32 = 0;

/// An inode change time.
#[derive(Clone, Copy, Debug, PartialEq, Eq, Structural)]
pub struct Timestamp {
    pub secs: i64,
    pub nanos: u32,
}

/// The outcome of resolving a user's manager.
#[derive(Clone, Copy, Debug, PartialEq, Eq, Structural)]
pub enum Status {
    Installed,
    NotInstalled,
    CertMismatch,
}

/// A verified APK location, the package whose certificate it was verified
/// for, and its change time when it was verified. An empty path is never
/// current.
#[derive(Debug)]
pub struct TrackedFile {
    pub path: Vec<u8>,
    pub pkg: Vec<u8>,
    pub timestamp: Timestamp,
}

/// What a [`TrackedFile`] holds, as values.
pub struct CacheEntry {
    pub path: Seq<u8>,
    pub pkg: Seq<u8>,
    pub stamp: Timestamp,
}

/// The trust configuration of the manager and the per-user cache.
pub struct ManagerInfo {
    package: Vec<u8>,
    trusted_cert: Vec<u8>,
    repackaged_app_id: i32,
    repackaged_pkg: Vec<u8>,
    repackaged_cert: Vec<u8>,
    cached_files: BTreeMap<i32, TrackedFile>,
}

/// What [`ManagerInfo`] holds, as values.
#[verifier::ext_equal]
pub struct ManagerState {
    /// The canonical package name of the manager.
    pub package: Seq<u8>,
    /// The certificate the canonical package must carry.
    pub trusted_cert: Seq<u8>,
    /// The application id of the recognised repackaged identity, or -1.
    pub repackaged_app_id: i32,
    /// The package name of the repackaged identity; empty when none.
    pub repackaged_pkg: Seq<u8>,
    /// The certificate the repackaged identity must carry.
    pub repackaged_cert: Seq<u8>,
    /// Per device user: the verified APK path, the package it was verified
    /// for, and its change time.
    pub cache: Map<i32, CacheEntry>,
}

pub open spec fn cache_view(m: Map<i32, TrackedFile>) -> Map<i32, CacheEntry> {
    m.map_values(|t: TrackedFile| CacheEntry { path: t.path@, pkg: t.pkg@, stamp: t.timestamp })
}

impl View for ManagerInfo {
    type V = ManagerState;

    closed spec fn view(&self) -> ManagerState {
        ManagerState {
            package: self.package@,
            trusted_cert: self.trusted_cert@,
            repackaged_app_id: self.repackaged_app_id,
            repackaged_pkg: self.repackaged_pkg@,
            repackaged_cert: self.repackaged_cert@,
            cache: cache_view(self.cached_files@),
        }
    }
}

/// Where an exchange stands.
#[derive(Clone, Copy, Debug, PartialEq, Eq, Structural)]
pub enum Phase {
    /// No exchange is under way.
    Idle,
    /// Waiting for the owner uid of the package's data directory.
    AwaitUid,
    /// Waiting for the current change time of the cached APK path.
    AwaitStamp { uid: i32 },
    /// Waiting for the entries of the applications install root.
    AwaitEntries { uid: i32 },
    /// Waiting for the APK's contents and change time.
    AwaitApk { uid: i32 },
    /// Waiting for the bundled manager to be installed.
    AwaitInstall,
}

/// One exchange under way.
pub struct Resolution {
    user: i32,
    install: bool,
    installed: bool,
    repackaged: bool,
    pkg: Vec<u8>,
    path: Vec<u8>,
    phase: Phase,
}

/// What [`Resolution`] holds, as values.
#[verifier::ext_equal]
pub struct ResolutionState {
    /// The device user being resolved.
    pub user: i32,
    /// Whether the bundled manager may be installed when it is absent.
    pub install: bool,
    /// Whether it was installed during this exchange.
    pub installed: bool,
    /// Whether the repackaged identity is being resolved.
    pub repackaged: bool,
    /// The package name being resolved.
    pub pkg: Seq<u8>,
    /// The located APK path.
    pub path: Seq<u8>,
    pub phase: Phase,
}

impl View for Resolution {
    type V = ResolutionState;

    closed spec fn view(&self) -> ResolutionState {
        ResolutionState {
            user: self.user,
            install: self.install,
            installed: self.installed,
            repackaged: self.repackaged,
            pkg: self.pkg@,
            path: self.path@,
            phase: self.phase,
        }
    }
}

/// What the caller is asked to do next.
#[derive(Debug)]
pub enum Action {
    /// Answer with [`Event::Uid`]: the owner uid of the package's data
    /// directory for the user, or -1 when it does not exist.
    QueryUid { user: i32, pkg: Vec<u8> },
    /// Answer with [`Event::Stamp`]: the path's change time, if it has one.
    CheckStamp { path: Vec<u8> },
    /// Answer with [`Event::Entries`]: the entries of the applications
    /// install root, in walk order.
    LocateApk { pkg: Vec<u8> },
    /// Answer with [`Event::Apk`]: the file's contents and change time.
    ReadApk { path: Vec<u8> },
    /// Answer with [`Event::Installed`] once the bundled manager has been
    /// installed for the user.
    Install { user: i32 },
    /// The exchange is over: the manager's uid and package, or -1 and an
    /// empty name when there is no trusted manager.
    Done { uid: i32, pkg: Vec<u8>, status: Status },
}

/// [`Action`] as values.
pub enum Step {
    QueryUid { user: i32, pkg: Seq<u8> },
    CheckStamp { path: Seq<u8> },
    LocateApk { pkg: Seq<u8> },
    ReadApk { path: Seq<u8> },
    Install { user: i32 },
    Done { uid: i32, pkg: Seq<u8>, status: Status },
}

impl View for Action {
    type V = Step;

    open spec fn view(&self) -> Step {
        match self {
            Action::QueryUid { user, pkg } => Step::QueryUid { user: *user, pkg: pkg@ },
            Action::CheckStamp { path } => Step::CheckStamp { path: path@ },
            Action::LocateApk { pkg } => Step::LocateApk { pkg: pkg@ },
            Action::ReadApk { path } => Step::ReadApk { path: path@ },
            Action::Install { user } => Step::Install { user: *user },
            Action::Done { uid, pkg, status } => Step::Done { uid: *uid, pkg: pkg@, status: *status },
        }
    }
}

/// The caller's answer to an [`Action`].
pub enum Event {
    Uid(i32),
    Stamp(Option<Timestamp>),
    Entries(Vec<DirEntry>),
    Apk { data: Option<Vec<u8>>, stamp: Option<Timestamp> },
    Installed,
}

/// The certificate of an APK's contents; empty when there are none or
/// they carry none.
pub open spec fn apk_cert(data: Option<Vec<u8>>) -> Seq<u8> {
    match data {
        Some(d) => match certificate_of(d@) {
            Ok(c) => c,
            Err(_) => Seq::empty(),
        },
        None => Seq::empty(),
    }
}

/// The certificate the identity being resolved must carry.
pub open spec fn expected_cert(s: ManagerState, r: ResolutionState) -> Seq<u8> {
    if r.repackaged {
        s.repackaged_cert
    } else {
        s.trusted_cert
    }
}

/// A certificate is trusted when it is present and equals the expected one.
pub open spec fn cert_trusted(cert: Seq<u8>, expected: Seq<u8>) -> bool {
    cert.len() > 0 && cert == expected
}

/// The user's cache entry is a candidate for a hit when resolving `pkg`:
/// it exists, has a path, and was verified for `pkg`.
pub open spec fn has_cached(s: ManagerState, user: i32, pkg: Seq<u8>) -> bool {
    s.cache.contains_key(user) && s.cache[user].path.len() > 0 && s.cache[user].pkg == pkg
}

/// The APK path of `pkg` among the install root's entries.
pub open spec fn located_path(entries: Seq<DirEntry>, pkg: Seq<u8>) -> Seq<u8> {
    match first_package_entry(entries, pkg) {
        Some(i) => base_apk_path(entries[i].path@),
        None => Seq::empty(),
    }
}

/// The cache entry recorded for an APK verified for `pkg`: its path, the
/// package and its change time, or an entry without path when the change
/// time could not be read.
pub open spec fn recorded(path: Seq<u8>, pkg: Seq<u8>, stamp: Option<Timestamp>) -> CacheEntry {
    match stamp {
        Some(t) => CacheEntry { path, pkg, stamp: t },
        None => CacheEntry { path: Seq::empty(), pkg, stamp: Timestamp { secs: 0, nanos: 0 } },
    }
}

pub open spec fn finished(r: ResolutionState) -> ResolutionState {
    ResolutionState { phase: Phase::Idle, ..r }
}

/// The outcome when no trusted manager is found.
pub open spec fn untrusted(status: Status) -> Step {
    Step::Done { uid: -1i32, pkg: Seq::empty(), status }
}

/// Start resolving the manager of `user`.
pub open spec fn begin(s: ManagerState, user: i32, install: bool) -> (ResolutionState, Step) {
    (
        ResolutionState {
            user,
            install,
            installed: false,
            repackaged: false,
            pkg: s.package,
            path: Seq::empty(),
            phase: Phase::AwaitUid,
        },
        Step::QueryUid { user, pkg: s.package },
    )
}

/// The step after the owner uid of the package being resolved is known.
pub open spec fn on_uid(s: ManagerState, r: ResolutionState, uid: i32) -> (ResolutionState, Step) {
    if uid >= 0 {
        if has_cached(s, r.user, r.pkg) {
            (
                ResolutionState { phase: Phase::AwaitStamp { uid }, ..r },
                Step::CheckStamp { path: s.cache[r.user].path },
            )
        } else {
            (ResolutionState { phase: Phase::AwaitEntries { uid }, ..r }, Step::LocateApk { pkg: r.pkg })
        }
    } else if !r.repackaged && s.repackaged_pkg.len() > 0 {
        (
            ResolutionState { repackaged: true, pkg: s.repackaged_pkg, ..r },
            Step::QueryUid { user: r.user, pkg: s.repackaged_pkg },
        )
    } else if r.install && !r.installed {
        (ResolutionState { phase: Phase::AwaitInstall, ..r }, Step::Install { user: r.user })
    } else {
        (finished(r), untrusted(Status::NotInstalled))
    }
}

/// The step after the cached path's change time was read.
pub open spec fn on_stamp(s: ManagerState, r: ResolutionState, uid: i32, stamp: Option<Timestamp>) -> (ResolutionState, Step) {
    if has_cached(s, r.user, r.pkg) && stamp == Some(s.cache[r.user].stamp) {
        (finished(r), Step::Done { uid, pkg: r.pkg, status: Status::Installed })
    } else {
        (ResolutionState { phase: Phase::AwaitEntries { uid }, ..r }, Step::LocateApk { pkg: r.pkg })
    }
}

/// The step after the APK was read: trusted, it is cached and reported;
/// otherwise the manager is hidden and the cache is left as it was.
pub open spec fn on_apk(s: ManagerState, r: ResolutionState, uid: i32, data: Option<Vec<u8>>, stamp: Option<Timestamp>) -> (ManagerState, ResolutionState, Step) {
    if cert_trusted(apk_cert(data), expected_cert(s, r)) {
        (
            ManagerState { cache: s.cache.insert(r.user, recorded(r.path, r.pkg, stamp)), ..s },
            finished(r),
            Step::Done { uid, pkg: r.pkg, status: Status::Installed },
        )
    } else {
        (s, finished(r), untrusted(Status::CertMismatch))
    }
}

/// One step of an exchange: the state, the exchange and the next action
/// after the event `ev`. An event that does not answer the pending action
/// ends the exchange without a trusted manager.
pub open spec fn next(s: ManagerState, r: ResolutionState, ev: Event) -> (ManagerState, ResolutionState, Step) {
    match (r.phase, ev) {
        (Phase::AwaitUid, Event::Uid(uid)) => {
            let (r2, a) = on_uid(s, r, uid);
            (s, r2, a)
        },
        (Phase::AwaitStamp { uid }, Event::Stamp(stamp)) => {
            let (r2, a) = on_stamp(s, r, uid, stamp);
            (s, r2, a)
        },
        (Phase::AwaitEntries { uid }, Event::Entries(entries)) => {
            let path = located_path(entries@, r.pkg);
            (s, ResolutionState { path, phase: Phase::AwaitApk { uid }, ..r }, Step::ReadApk { path })
        },
        (Phase::AwaitApk { uid }, Event::Apk { data, stamp }) => on_apk(s, r, uid, data, stamp),
        (Phase::AwaitInstall, Event::Installed) => (
            s,
            ResolutionState {
                installed: true,
                repackaged: false,
                pkg: s.package,
                phase: Phase::AwaitUid,
                ..r
            },
            Step::QueryUid { user: r.user, pkg: s.package },
        ),
        _ => (s, finished(r), untrusted(Status::NotInstalled)),
    }
}

fn bytes_equal(a: &Vec<u8>, b: &Vec<u8>) -> (r: bool)
    ensures
        r == (a@ == b@),
{
    if a.len() != b.len() {
        return false;
    }
    let mut k: usize = 0;
    while k < a.len()
        invariant
            k <= a.len() == b.len(),
            forall|j: int| 0 <= j < k ==> a@[j] == b@[j],
        decreases a.len() - k,
    {
        if a[k] != b[k] {
            return false;
        }
        k = k + 1;
    }
    assert(a@ =~= b@);
    true
}

impl ManagerInfo {
    /// A manager identity with the canonical package name `package` that
    /// must carry `trusted_cert`; no repackaged identity, nothing cached.
    pub fn new(package: Vec<u8>, trusted_cert: Vec<u8>) -> (r: ManagerInfo)
        ensures
            r@.package == package@,
            r@.trusted_cert == trusted_cert@,
            r@.repackaged_app_id == -1,
            r@.repackaged_pkg.len() == 0,
            r@.repackaged_cert.len() == 0,
            r@.cache == Map::<i32, CacheEntry>::empty(),
    {
        let r = ManagerInfo {
            package,
            trusted_cert,
            repackaged_app_id: -1,
            repackaged_pkg: Vec::new(),
            repackaged_cert: Vec::new(),
            cached_files: BTreeMap::new(),
        };
        assert(r@.cache =~= Map::<i32, CacheEntry>::empty());
        r
    }

    /// Recognise the repackaged identity `pkg` with application id `app_id`,
    /// which must carry `cert`.
    pub fn set_repackaged(&mut self, app_id: i32, pkg: Vec<u8>, cert: Vec<u8>)
        ensures
            final(self)@ == (ManagerState {
                repackaged_app_id: app_id,
                repackaged_pkg: pkg@,
                repackaged_cert: cert@,
                ..old(self)@
            }),
    {
        self.repackaged_app_id = app_id;
        self.repackaged_pkg = pkg;
        self.repackaged_cert = cert;
    }

    fn cached_candidate(&self, user: i32, pkg: &Vec<u8>) -> (r: Option<Vec<u8>>)
        ensures
            has_cached(self@, user, pkg@) ==> r is Some && r->Some_0@ == self@.cache[user].path,
            !has_cached(self@, user, pkg@) ==> r is None,
    {
        match self.cached_files.get(&user) {
            Some(t) => {
                if t.path.len() > 0 && bytes_equal(&t.pkg, pkg) {
                    Some(t.path.clone())
                } else {
                    None
                }
            },
            None => None,
        }
    }

    fn cached_stamp(&self, user: i32, pkg: &Vec<u8>) -> (r: Option<Timestamp>)
        ensures
            has_cached(self@, user, pkg@) ==> r == Some(self@.cache[user].stamp),
            !has_cached(self@, user, pkg@) ==> r is None,
    {
        match self.cached_files.get(&user) {
            Some(t) => {
                if t.path.len() > 0 && bytes_equal(&t.pkg, pkg) {
                    Some(t.timestamp)
                } else {
                    None
                }
            },
            None => None,
        }
    }

    fn record(&mut self, user: i32, path: Vec<u8>, pkg: Vec<u8>, stamp: Option<Timestamp>)
        ensures
            final(self)@ == (ManagerState {
                cache: old(self)@.cache.insert(user, recorded(path@, pkg@, stamp)),
                ..old(self)@
            }),
    {
        let ghost entry_view = recorded(path@, pkg@, stamp);
        let entry = match stamp {
            Some(t) => TrackedFile { path, pkg, timestamp: t },
            None => TrackedFile { path: Vec::new(), pkg, timestamp: Timestamp { secs: 0, nanos: 0 } },
        };
        let ghost before = self.cached_files@;
        self.cached_files.insert(user, entry);
        assert(cache_view(self.cached_files@) =~= cache_view(before).insert(user, entry_view));
    }
}

/// The daemon's manager state: the trust configuration and cache, and the
/// exchange under way.
pub struct MagiskD {
    manager_info: ManagerInfo,
    resolution: Resolution,
}

impl MagiskD {
    pub closed spec fn info(&self) -> ManagerState {
        self.manager_info@
    }

    pub closed spec fn pending(&self) -> ResolutionState {
        self.resolution@
    }

    /// A daemon whose manager is `info`, with no exchange under way.
    pub fn new(info: ManagerInfo) -> (r: MagiskD)
        ensures
            r.info() == info@,
            r.pending().phase == Phase::Idle,
    {
        MagiskD {
            manager_info: info,
            resolution: Resolution {
                user: PRIMARY_USER,
                install: false,
                installed: false,
                repackaged: false,
                pkg: Vec::new(),
                path: Vec::new(),
                phase: Phase::Idle,
            },
        }
    }

    /// The trust configuration and cache.
    pub fn manager_info(&mut self) -> (r: &mut ManagerInfo)
        ensures
            r@ == old(self).info(),
            final(self).info() == final(r)@,
            final(self).pending() == old(self).pending(),
    {
        &mut self.manager_info
    }

    /// Start resolving the manager of `user`, installing the bundled
    /// manager when it is absent if `install` holds. Any exchange under way
    /// is abandoned.
    pub fn get_manager(&mut self, user: i32, install: bool) -> (a: Action)
        ensures
            final(self).info() == old(self).info(),
            (final(self).pending(), a@) == begin(old(self).info(), user, install),
    {
        let pkg = self.manager_info.package.clone();
        self.resolution = Resolution {
            user,
            install,
            installed: false,
            repackaged: false,
            pkg: pkg.clone(),
            path: Vec::new(),
            phase: Phase::AwaitUid,
        };
        Action::QueryUid { user, pkg }
    }

    /// Start resolving the manager uid of `user`, without installing.
    pub fn get_manager_uid(&mut self, user: i32) -> (a: Action)
        ensures
            final(self).info() == old(self).info(),
            (final(self).pending(), a@) == begin(old(self).info(), user, false),
    {
        self.get_manager(user, false)
    }

    /// Start making sure the primary user has a manager, installing the
    /// bundled one when it is absent.
    pub fn ensure_manager(&mut self) -> (a: Action)
        ensures
            final(self).info() == old(self).info(),
            (final(self).pending(), a@) == begin(old(self).info(), PRIMARY_USER, true),
    {
        self.get_manager(PRIMARY_USER, true)
    }

    fn finish(&mut self, a: Action) -> (r: Action)
        ensures
            r == a,
            final(self).info() == old(self).info(),
            final(self).pending() == finished(old(self).pending()),
    {
        self.resolution.phase = Phase::Idle;
        a
    }

    /// Take the answer `ev` to the pending action and decide the next one.
    pub fn resume(&mut self, ev: Event) -> (a: Action)
        ensures
            (final(self).info(), final(self).pending(), a@) == next(old(self).info(), old(self).pending(), ev),
    {
        let ghost ev0 = ev;
        let a = match (self.resolution.phase, ev) {
            (Phase::AwaitUid, Event::Uid(uid)) => self.on_uid(uid),
            (Phase::AwaitStamp { uid }, Event::Stamp(stamp)) => {
                let user = self.resolution.user;
                let current = self.manager_info.cached_stamp(user, &self.resolution.pkg);
                let same = match (stamp, current) {
                    (Some(a), Some(b)) => a == b,
                    _ => false,
                };
                if same {
                    let pkg = self.resolution.pkg.clone();
                    self.finish(Action::Done { uid, pkg, status: Status::Installed })
                } else {
                    self.resolution.phase = Phase::AwaitEntries { uid };
                    Action::LocateApk { pkg: self.resolution.pkg.clone() }
                }
            },
            (Phase::AwaitEntries { uid }, Event::Entries(entries)) => {
                let path = find_apk_path(&entries, &self.resolution.pkg);
                self.resolution.path = path.clone();
                self.resolution.phase = Phase::AwaitApk { uid };
                Action::ReadApk { path }
            },
            (Phase::AwaitApk { uid }, Event::Apk { data, stamp }) => self.on_apk(uid, data, stamp),
            (Phase::AwaitInstall, Event::Installed) => {
                let pkg = self.manager_info.package.clone();
                self.resolution.installed = true;
                self.resolution.repackaged = false;
                self.resolution.pkg = pkg.clone();
                self.resolution.phase = Phase::AwaitUid;
                Action::QueryUid { user: self.resolution.user, pkg }
            },
            _ => self.finish(Action::Done { uid: -1, pkg: Vec::new(), status: Status::NotInstalled }),
        };
        assert(self.pending() =~= next(old(self).info(), old(self).pending(), ev0).1);
        a
    }

    fn on_uid(&mut self, uid: i32) -> (a: Action)
        requires
            old(self).pending().phase == Phase::AwaitUid,
        ensures
            final(self).info() == old(self).info(),
            (final(self).pending(), a@) == on_uid(old(self).info(), old(self).pending(), uid),
    {
        let user = self.resolution.user;
        if uid >= 0 {
            match self.manager_info.cached_candidate(user, &self.resolution.pkg) {
                Some(path) => {
                    self.resolution.phase = Phase::AwaitStamp { uid };
                    Action::CheckStamp { path }
                },
                None => {
                    self.resolution.phase = Phase::AwaitEntries { uid };
                    Action::LocateApk { pkg: self.resolution.pkg.clone() }
                },
            }
        } else if !self.resolution.repackaged && self.manager_info.repackaged_pkg.len() > 0 {
            let pkg = self.manager_info.repackaged_pkg.clone();
            self.resolution.repackaged = true;
            self.resolution.pkg = pkg.clone();
            Action::QueryUid { user, pkg }
        } else if self.resolution.install && !self.resolution.installed {
            self.resolution.phase = Phase::AwaitInstall;
            Action::Install { user }
        } else {
            self.finish(Action::Done { uid: -1, pkg: Vec::new(), status: Status::NotInstalled })
        }
    }

    fn on_apk(&mut self, uid: i32, data: Option<Vec<u8>>, stamp: Option<Timestamp>) -> (a: Action)
        requires
            old(self).pending().phase == (Phase::AwaitApk { uid }),
        ensures
            (final(self).info(), final(self).pending(), a@) == on_apk(old(self).info(), old(self).pending(), uid, data, stamp),
    {
        let ghost data0 = data;
        let cert = match data {
            Some(d) => read_certificate(d, 0),
            None => Vec::new(),
        };
        assert(cert@ == apk_cert(data0));
        let trusted = cert.len() > 0 && if self.resolution.repackaged {
            bytes_equal(&cert, &self.manager_info.repackaged_cert)
        } else {
            bytes_equal(&cert, &self.manager_info.trusted_cert)
        };
        if trusted {
            let user = self.resolution.user;
            let path = self.resolution.path.clone();
            let pkg = self.resolution.pkg.clone();
            self.manager_info.record(user, path, pkg.clone(), stamp);
            self.finish(Action::Done { uid, pkg, status: Status::Installed })
        } else {
            self.finish(Action::Done { uid: -1, pkg: Vec::new(), status: Status::CertMismatch })
        }
    }

    /// The slot numbers in use by the owners `uids` of the per-user package
    /// data directories: `app_id - AID_APP_START` for each whose application
    /// id lies in the range reserved for installed applications.
    pub fn get_app_no_list(&self, uids: &Vec<u32>) -> (r: BitSet)
        ensures
            bit_set_contents(r) == used_app_nos(uids@),
    {
        app_no_list(uids)
    }
}

/// A cache hit needs no extraction: when the user's cache entry holds the
/// path `path` with change time `ts`, and the package's owner `uid` is
/// found, the exchange asks for the path's change time; if it is still `ts`
/// the exchange ends with the manager installed and nothing changed, and if
/// it differs the APK is located and read again.
pub proof fn lemma_cache_hit_skips_extraction(
    s: ManagerState,
    user: i32,
    install: bool,
    uid: i32,
    path: Seq<u8>,
    ts: Timestamp,
    other: Option<Timestamp>,
)
    requires
        s.cache.contains_key(user),
        s.cache[user] == (CacheEntry { path, pkg: s.package, stamp: ts }),
        path.len() > 0,
        uid >= 0,
        other != Some(ts),
    ensures
        ({
            let (r1, a1) = begin(s, user, install);
            let (s2, r2, a2) = next(s, r1, Event::Uid(uid));
            let (s3, r3, a3) = next(s2, r2, Event::Stamp(Some(ts)));
            let (s4, r4, a4) = next(s2, r2, Event::Stamp(other));
            &&& a1 == Step::QueryUid { user, pkg: s.package }
            &&& s2 == s
            &&& a2 == Step::CheckStamp { path }
            &&& s3 == s
            &&& a3 == Step::Done { uid, pkg: s.package, status: Status::Installed }
            &&& r3.phase == Phase::Idle
            &&& s4 == s
            &&& a4 == Step::LocateApk { pkg: s.package }
        }),
{
}

/// A verified APK is cached: once the user's APK at a non-empty path
/// carries the expected certificate and has change time `ts`, the next
/// exchange for that user, with the owner still `uid2` and the change time
/// still `ts`, ends with the manager installed without reading the APK.
pub proof fn lemma_verified_apk_is_cached(
    s: ManagerState,
    r: ResolutionState,
    uid: i32,
    data: Option<Vec<u8>>,
    ts: Timestamp,
    install: bool,
    uid2: i32,
)
    requires
        r.phase == (Phase::AwaitApk { uid }),
        r.path.len() > 0,
        r.pkg == s.package,
        cert_trusted(apk_cert(data), expected_cert(s, r)),
        uid2 >= 0,
    ensures
        ({
            let (s1, r1, a1) = next(s, r, Event::Apk { data, stamp: Some(ts) });
            let (r2, a2) = begin(s1, r.user, install);
            let (s3, r3, a3) = next(s1, r2, Event::Uid(uid2));
            let (s4, r4, a4) = next(s3, r3, Event::Stamp(Some(ts)));
            &&& a1 == Step::Done { uid, pkg: r.pkg, status: Status::Installed }
            &&& s1.cache[r.user] == (CacheEntry { path: r.path, pkg: r.pkg, stamp: ts })
            &&& a3 == Step::CheckStamp { path: r.path }
            &&& a4 == Step::Done { uid: uid2, pkg: s.package, status: Status::Installed }
            &&& s4 == s1
        }),
{
    let (s1, r1, a1) = next(s, r, Event::Apk { data, stamp: Some(ts) });
    assert(s1.cache.contains_key(r.user));
    assert(s1.package == s.package);
}

/// A certificate that is missing or differs from the expected one hides the
/// manager: the exchange ends with uid -1 and a certificate mismatch, and
/// neither the cache nor any other state changes.
pub proof fn lemma_cert_mismatch_isolated(
    s: ManagerState,
    r: ResolutionState,
    uid: i32,
    data: Option<Vec<u8>>,
    stamp: Option<Timestamp>,
)
    requires
        r.phase == (Phase::AwaitApk { uid }),
        !cert_trusted(apk_cert(data), expected_cert(s, r)),
    ensures
        next(s, r, Event::Apk { data, stamp }) == (s, finished(r), untrusted(Status::CertMismatch)),
{
}

/// A cache hit only vouches for the identity whose APK was checked: an
/// exchange waiting for the cached path's change time ends with the
/// manager installed only when the user's cache entry was recorded for the
/// package being resolved.
pub proof fn lemma_cache_hit_only_for_checked_identity(
    s: ManagerState,
    r: ResolutionState,
    uid: i32,
    stamp: Option<Timestamp>,
)
    requires
        r.phase == (Phase::AwaitStamp { uid }),
    ensures
        ({
            let (s1, r1, a1) = next(s, r, Event::Stamp(stamp));
            a1 is Done ==> has_cached(s, r.user, r.pkg) && s.cache[r.user].pkg == r.pkg
        }),
        ({
            let (r1, a1) = on_uid(s, ResolutionState { phase: Phase::AwaitUid, ..r }, uid);
            a1 is CheckStamp ==> has_cached(s, r.user, r.pkg)
        }),
{
}

/// The cache changes only when an APK was read and carried the certificate
/// expected of the package being resolved; the entry then records that
/// package.
pub proof fn lemma_cache_written_only_when_verified(s: ManagerState, r: ResolutionState, ev: Event)
    ensures
        ({
            let (s1, r1, a1) = next(s, r, ev);
            s1.cache == s.cache || match ev {
                Event::Apk { data, stamp } => r.phase is AwaitApk && cert_trusted(
                    apk_cert(data),
                    expected_cert(s, r),
                ) && s1.cache == s.cache.insert(r.user, recorded(r.path, r.pkg, stamp)),
                _ => false,
            }
        }),
{
}

/// The steps of an exchange that reads the APK: locate it among `entries`,
/// then read `data` with change time `stamp`.
pub open spec fn run_fresh(
    s: ManagerState,
    r: ResolutionState,
    entries: Vec<DirEntry>,
    data: Option<Vec<u8>>,
    stamp: Option<Timestamp>,
) -> (ManagerState, Step) {
    let (s1, r1, a1) = next(s, r, Event::Entries(entries));
    let (s2, r2, a2) = next(s1, r1, Event::Apk { data, stamp });
    (s2, a2)
}

/// A whole exchange without install for `user` against an unchanging
/// filesystem: every package asked about is owned by `uid`, the install
/// root holds `entries`, and every path read has contents `data` and
/// change time `stamp`. Yields the state after it and its last action.
pub open spec fn run_unchanged(
    s: ManagerState,
    user: i32,
    uid: i32,
    entries: Vec<DirEntry>,
    data: Option<Vec<u8>>,
    stamp: Option<Timestamp>,
) -> (ManagerState, Step) {
    let (r1, a1) = begin(s, user, false);
    let (s2, r2, a2) = next(s, r1, Event::Uid(uid));
    match a2 {
        Step::QueryUid { .. } => {
            let (s3, r3, a3) = next(s2, r2, Event::Uid(uid));
            (s3, a3)
        },
        Step::CheckStamp { .. } => {
            let (s3, r3, a3) = next(s2, r2, Event::Stamp(stamp));
            match a3 {
                Step::LocateApk { .. } => run_fresh(s3, r3, entries, data, stamp),
                _ => (s3, a3),
            }
        },
        Step::LocateApk { .. } => run_fresh(s2, r2, entries, data, stamp),
        _ => (s2, a2),
    }
}

/// Asking for a user's manager uid twice with nothing changed on disk gives
/// the same answer: whether the first exchange hit the cache, verified the
/// APK or found a mismatch, a second exchange from the state it left ends
/// with the same action.
pub proof fn lemma_manager_uid_idempotent(
    s: ManagerState,
    user: i32,
    uid: i32,
    entries: Vec<DirEntry>,
    data: Option<Vec<u8>>,
    stamp: Option<Timestamp>,
)
    ensures
        ({
            let (s1, a1) = run_unchanged(s, user, uid, entries, data, stamp);
            let (s2, a2) = run_unchanged(s1, user, uid, entries, data, stamp);
            a1 is Done ==> a2 == a1
        }),
{
    let (s1, a1) = run_unchanged(s, user, uid, entries, data, stamp);
    if uid >= 0 && s1.cache.contains_key(user) {
        assert(s1.package == s.package);
    }
}

} // verus!
