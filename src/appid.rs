//! The application-identity slots in use, from the owners of the per-user
//! package data directories.
use vstd::prelude::*;
use bit_set::BitSet;

verus! {

/// First uid of the range reserved for installed applications.
pub const AID_APP_START: u32 = 10000;

/// Last uid of the range reserved for installed applications.
pub const AID_APP_END: u32 = 19999;

/// The spacing of uids between device users.
pub const AID_USER_OFFSET: u32 = 100000;

#[verifier::external_type_specification]
#[verifier::external_body]
#[verifier::reject_recursive_types(B)]
pub struct ExBitSet<B>(BitSet<B>);

/// The numbers held by a bit set.
pub uninterp spec fn bit_set_contents(s: BitSet) -> Set<nat>;

/// Relies on bit_set::BitSet::new: a new set holds nothing.
#[verifier::external_body]
fn new_bit_set() -> (r: BitSet)
    ensures
        bit_set_contents(r) == Set::<nat>::empty(),
{
    BitSet::new()
}

/// Relies on bit_set::BitSet::insert: the value is held afterwards, and
/// nothing else changes. Small values never exhaust the set's storage.
#[verifier::external_body]
fn bit_set_insert(s: &mut BitSet, value: usize)
    requires
        value <= AID_APP_END - AID_APP_START,
    ensures
        bit_set_contents(*final(s)) == bit_set_contents(*old(s)).insert(value as nat),
{
    s.insert(value);
}

/// The application id of `uid`: its offset within its device user's range.
pub open spec fn app_id_of(uid: u32) -> nat {
    (uid % AID_USER_OFFSET) as nat
}

/// The application id lies in the range reserved for installed applications.
pub open spec fn in_app_range(app_id: nat) -> bool {
    AID_APP_START <= app_id <= AID_APP_END
}

/// The slot numbers of the applications owning the uids in `uids`.
pub open spec fn used_app_nos(uids: Seq<u32>) -> Set<nat> {
    Set::new(
        |n: nat|
            exists|i: int|
                0 <= i < uids.len() && in_app_range(app_id_of(uids[i])) && n == app_id_of(uids[i])
                    - AID_APP_START,
    )
}

/// The application id of `uid`.
pub fn to_app_id(uid: u32) -> (r: u32)
    ensures
        r as nat == app_id_of(uid),
{
    uid % AID_USER_OFFSET
}

/// The set of slot numbers, `app_id - AID_APP_START`, of the uids among
/// `uids` whose application id lies in the reserved range; the others are
/// left out.
pub fn app_no_list(uids: &Vec<u32>) -> (r: BitSet)
    ensures
        bit_set_contents(r) == used_app_nos(uids@),
{
    let mut list = new_bit_set();
    let mut k: usize = 0;
    while k < uids.len()
        invariant
            k <= uids.len(),
            bit_set_contents(list) == used_app_nos(uids@.subrange(0, k as int)),
        decreases uids.len() - k,
    {
        let ghost before = bit_set_contents(list);
        let app_id = to_app_id(uids[k]);
        if AID_APP_START <= app_id && app_id <= AID_APP_END {
            bit_set_insert(&mut list, (app_id - AID_APP_START) as usize);
        }
        let ghost prefix = uids@.subrange(0, k as int);
        let ghost next = uids@.subrange(0, k + 1);
        assert(bit_set_contents(list) =~= used_app_nos(next)) by {
            assert forall|n: nat| used_app_nos(next).contains(n) implies #[trigger] bit_set_contents(list).contains(n) by {
                let i = choose|i: int|
                    0 <= i < next.len() && in_app_range(app_id_of(next[i])) && n == app_id_of(next[i])
                        - AID_APP_START;
                if i < k {
                    assert(prefix[i] == next[i]);
                    assert(used_app_nos(prefix).contains(n));
                }
            }
            assert forall|n: nat| #[trigger] bit_set_contents(list).contains(n) implies used_app_nos(next).contains(n) by {
                if before.contains(n) {
                    let i = choose|i: int|
                        0 <= i < prefix.len() && in_app_range(app_id_of(prefix[i])) && n == app_id_of(
                            prefix[i],
                        ) - AID_APP_START;
                    assert(next[i] == prefix[i]);
                } else {
                    assert(next[k as int] == uids@[k as int]);
                }
            }
        }
        k = k + 1;
    }
    assert(uids@.subrange(0, uids.len() as int) =~= uids@);
    list
}

} // verus!
