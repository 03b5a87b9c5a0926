//! Location of an installed package's APK among the entries of the
//! applications install root.
use vstd::prelude::*;

verus! {

/// One entry of the applications install root.
#[derive(Debug)]
pub struct DirEntry {
    /// The entry's file name.
    pub name: Vec<u8>,
    /// Whether the entry is a directory.
    pub is_dir: bool,
    /// The entry's resolved absolute path.
    pub path: Vec<u8>,
}

/// What a directory walk does after visiting an entry.
#[derive(Clone, Copy, Debug, PartialEq, Eq, Structural)]
pub enum WalkResult {
    /// Go on with the next entry.
    Continue,
    /// Stop the walk: the entry is the one sought.
    Abort,
    /// Go on with the next entry, and do not descend into this one.
    Skip,
}

/// The name of an installed package's versioned directory: the package name
/// followed by a `-` separator.
pub open spec fn is_package_dir_name(name: Seq<u8>, pkg: Seq<u8>) -> bool {
    name.len() > pkg.len() && name.subrange(0, pkg.len() as int) == pkg && name[pkg.len() as int]
        == 0x2du8
}

/// The name of a staging directory: two leading tildes.
pub open spec fn is_staging_name(name: Seq<u8>) -> bool {
    name.len() >= 2 && name[0] == 0x7eu8 && name[1] == 0x7eu8
}

/// The entry is the installed package's directory.
pub open spec fn is_package_entry(e: DirEntry, pkg: Seq<u8>) -> bool {
    e.is_dir && is_package_dir_name(e.name@, pkg)
}

/// The index of the first entry that is the package's directory.
pub open spec fn first_package_entry(entries: Seq<DirEntry>, pkg: Seq<u8>) -> Option<int> {
    if exists|i: int| 0 <= i < entries.len() && is_package_entry(entries[i], pkg) {
        Some(
            choose|i: int|
                0 <= i < entries.len() && is_package_entry(entries[i], pkg) && forall|j: int|
                    0 <= j < i ==> !is_package_entry(#[trigger] entries[j], pkg),
        )
    } else {
        None
    }
}

/// The path of the APK inside the package directory `dir`.
pub open spec fn base_apk_path(dir: Seq<u8>) -> Seq<u8> {
    if dir.len() == 0 {
        dir
    } else {
        dir + seq![0x2fu8, 0x62u8, 0x61u8, 0x73u8, 0x65u8, 0x2eu8, 0x61u8, 0x70u8, 0x6bu8]
    }
}

fn is_package_dir(name: &Vec<u8>, pkg: &Vec<u8>) -> (r: bool)
    ensures
        r == is_package_dir_name(name@, pkg@),
{
    if name.len() <= pkg.len() {
        return false;
    }
    let mut k: usize = 0;
    while k < pkg.len()
        invariant
            k <= pkg.len() < name.len(),
            forall|j: int| 0 <= j < k ==> name@[j] == pkg@[j],
        decreases pkg.len() - k,
    {
        if name[k] != pkg[k] {
            return false;
        }
        k = k + 1;
    }
    assert(name@.subrange(0, pkg.len() as int) =~= pkg@);
    name[pkg.len()] == 0x2du8
}

/// The walk decision for one entry when looking for the package `pkg`:
/// non-directories are skipped, the package's directory ends the walk,
/// staging directories let the walk go on, any other directory is skipped.
pub fn walk_action(entry: &DirEntry, pkg: &Vec<u8>) -> (r: WalkResult)
    ensures
        !entry.is_dir ==> r == WalkResult::Skip,
        is_package_entry(*entry, pkg@) ==> r == WalkResult::Abort,
        entry.is_dir && !is_package_dir_name(entry.name@, pkg@) && is_staging_name(entry.name@)
            ==> r == WalkResult::Continue,
        entry.is_dir && !is_package_dir_name(entry.name@, pkg@) && !is_staging_name(entry.name@)
            ==> r == WalkResult::Skip,
{
    if !entry.is_dir {
        return WalkResult::Skip;
    }
    if is_package_dir(&entry.name, pkg) {
        return WalkResult::Abort;
    }
    if entry.name.len() >= 2 && entry.name[0] == 0x7eu8 && entry.name[1] == 0x7eu8 {
        return WalkResult::Continue;
    }
    WalkResult::Skip
}

/// Walk the entries in order until one ends the walk; yield its index.
pub fn find_package_entry(entries: &Vec<DirEntry>, pkg: &Vec<u8>) -> (r: Option<usize>)
    ensures
        match r {
            Some(i) => i < entries.len() && first_package_entry(entries@, pkg@) == Some(i as int),
            None => first_package_entry(entries@, pkg@) is None,
        },
{
    let mut k: usize = 0;
    while k < entries.len()
        invariant
            k <= entries.len(),
            forall|j: int| 0 <= j < k ==> !is_package_entry(#[trigger] entries@[j], pkg@),
        decreases entries.len() - k,
    {
        if walk_action(&entries[k], pkg) == WalkResult::Abort {
            assert(is_package_entry(entries@[k as int], pkg@));
            let ghost c = choose|i: int|
                0 <= i < entries@.len() && is_package_entry(entries@[i], pkg@) && forall|j: int|
                    0 <= j < i ==> !is_package_entry(#[trigger] entries@[j], pkg@);
            assert(0 <= c < entries@.len() && is_package_entry(entries@[c], pkg@) && forall|j: int|
                0 <= j < c ==> !is_package_entry(#[trigger] entries@[j], pkg@));
            assert(c == k) by {
                if c < k {
                    assert(!is_package_entry(entries@[c], pkg@));
                }
                if c > k {
                    assert(!is_package_entry(entries@[k as int], pkg@));
                }
            }
            return Some(k);
        }
        k = k + 1;
    }
    None
}

fn append_base_apk(dir: &Vec<u8>) -> (r: Vec<u8>)
    ensures
        r@ == base_apk_path(dir@),
{
    let mut out = dir.clone();
    if out.len() == 0 {
        return out;
    }
    let suffix: Vec<u8> = vec![0x2fu8, 0x62u8, 0x61u8, 0x73u8, 0x65u8, 0x2eu8, 0x61u8, 0x70u8, 0x6bu8];
    let mut k: usize = 0;
    while k < suffix.len()
        invariant
            k <= suffix@.len(),
            suffix@ == seq![0x2fu8, 0x62u8, 0x61u8, 0x73u8, 0x65u8, 0x2eu8, 0x61u8, 0x70u8, 0x6bu8],
            out@ == dir@ + suffix@.subrange(0, k as int),
        decreases suffix.len() - k,
    {
        out.push(suffix[k]);
        assert(suffix@.subrange(0, k + 1) =~= suffix@.subrange(0, k as int).push(suffix@[k as int]));
        k = k + 1;
    }
    assert(suffix@.subrange(0, 9) =~= suffix@);
    out
}

/// The APK path of the installed package `pkg` among `entries`: the
/// `base.apk` inside the first entry that is its directory, or an empty path
/// when the package is not installed.
pub fn find_apk_path(entries: &Vec<DirEntry>, pkg: &Vec<u8>) -> (r: Vec<u8>)
    ensures
        match first_package_entry(entries@, pkg@) {
            Some(i) => r@ == base_apk_path(entries@[i].path@),
            None => r@.len() == 0,
        },
{
    match find_package_entry(entries, pkg) {
        Some(i) => append_base_apk(&entries[i].path),
        None => Vec::new(),
    }
}

} // verus!
