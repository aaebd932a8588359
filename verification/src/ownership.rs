//! Handing a raid to a new owner.

use crate::models::Raid;
use crate::ordering::{in_order, sorted_keys, SortKey};
use crate::roles::{has_role_in, holds_role_in, Member};
use vstd::prelude::*;

verus! {

/// How many users a menu can offer.
pub const MENU_LIMIT: usize = 25;

/// The keys of the members who hold the role and are not the owner, in the
/// order of the members.
pub open spec fn candidate_keys(members: Seq<Member>, role_id: u64, owner_id: i64) -> Seq<SortKey>
    decreases members.len(),
{
    if members.len() == 0 {
        Seq::empty()
    } else {
        let earlier = candidate_keys(members.drop_last(), role_id, owner_id);
        let m = members.last();
        if m.user_id != owner_id && has_role_in(m.roles@, seq![role_id]) {
            earlier.push((0u8, 0i64, m.user_id as u64))
        } else {
            earlier
        }
    }
}

/// The users to whom the owner may hand the raid: the members who hold the
/// organiser role, without the owner, by rising identifier, and of these
/// the first 25.
pub open spec fn candidates(members: Seq<Member>, role_id: u64, owner_id: i64) -> Seq<SortKey> {
    let all = in_order(candidate_keys(members, role_id, owner_id));
    if all.len() > 25 {
        all.take(25)
    } else {
        all
    }
}

/// The users to whom the owner may hand the raid.
pub fn owner_candidates(members: &Vec<Member>, organiser_role_id: u64, owner_id: i64) -> (users:
    Vec<u64>)
    ensures
        users@.len() == candidates(members@, organiser_role_id, owner_id).len(),
        forall|k: int|
            0 <= k < users@.len() ==> (#[trigger] users@[k]) == candidates(
                members@,
                organiser_role_id,
                owner_id,
            )[k].2,
{
    let mut keys: Vec<SortKey> = Vec::new();
    let mut wanted: Vec<u64> = Vec::new();
    wanted.push(organiser_role_id);
    assert(wanted@ =~= seq![organiser_role_id]);
    let mut k: usize = 0;
    assert(members@.take(0) =~= Seq::<Member>::empty());
    while k < members.len()
        invariant
            k <= members.len(),
            wanted@ == seq![organiser_role_id],
            keys@ == candidate_keys(members@.take(k as int), organiser_role_id, owner_id),
        decreases members.len() - k,
    {
        let ghost upto = members@.take(k + 1);
        assert(upto.last() == members@[k as int]);
        assert(upto.drop_last() =~= members@.take(k as int));
        let m = &members[k];
        if m.user_id != owner_id && holds_role_in(&m.roles, &wanted) {
            keys.push((0u8, 0i64, m.user_id as u64));
        }
        k = k + 1;
    }
    assert(members@.take(k as int) =~= members@);
    let sorted = sorted_keys(keys);
    let count: usize = if sorted.len() > 25 {
        25
    } else {
        sorted.len()
    };
    let mut users: Vec<u64> = Vec::new();
    let mut j: usize = 0;
    while j < count
        invariant
            j <= count <= sorted@.len(),
            users@.len() == j,
            forall|i: int| 0 <= i < j ==> (#[trigger] users@[i]) == sorted@[i].2,
        decreases count - j,
    {
        users.push(sorted[j].2);
        j = j + 1;
    }
    users
}

/// Why a raid is not handed over.
#[derive(Clone, Copy, Debug, PartialEq, Eq, Structural)]
pub enum TransferRefusal {
    /// The requester does not own the raid.
    NotOwner,
    /// The raid was cancelled.
    Cancelled,
    /// No new owner was picked.
    NothingPicked,
    /// The requester picked themselves.
    AlreadyOwner,
    /// The user picked no longer holds the organiser role.
    RoleLost,
}

/// Decides a transfer. `picked` is the user chosen before, and
/// `still_organiser` says whether that user holds the organiser role, where
/// that could be found out: a user of whom it could not is let through.
pub open spec fn transfer_verdict(
    owner_id: i64,
    is_active: bool,
    requester: u64,
    picked: Option<u64>,
    still_organiser: Option<bool>,
) -> Result<u64, TransferRefusal> {
    if owner_id != requester as i64 {
        Err(TransferRefusal::NotOwner)
    } else if !is_active {
        Err(TransferRefusal::Cancelled)
    } else if picked is None {
        Err(TransferRefusal::NothingPicked)
    } else if picked->0 == requester {
        Err(TransferRefusal::AlreadyOwner)
    } else if still_organiser == Some(false) {
        Err(TransferRefusal::RoleLost)
    } else {
        Ok(picked->0)
    }
}

/// Hands the raid to the user picked, if the request stands.
pub fn owner_change_confirm(
    raid: &mut Raid,
    requester: u64,
    picked: Option<u64>,
    still_organiser: Option<bool>,
) -> (verdict: Result<u64, TransferRefusal>)
    ensures
        verdict == transfer_verdict(
            old(raid).owner_id,
            old(raid).is_active,
            requester,
            picked,
            still_organiser,
        ),
        final(raid).owner_id == match verdict {
            Ok(new_owner) => new_owner as i64,
            Err(_) => old(raid).owner_id,
        },
        final(raid).is_active == old(raid).is_active,
        final(raid).id == old(raid).id,
        final(raid).scheduled_for == old(raid).scheduled_for,
        final(raid).capacity == old(raid).capacity,
{
    if raid.owner_id != requester as i64 {
        return Err(TransferRefusal::NotOwner);
    }
    if !raid.is_active {
        return Err(TransferRefusal::Cancelled);
    }
    let new_owner = match picked {
        Some(user) => user,
        None => {
            return Err(TransferRefusal::NothingPicked);
        },
    };
    if new_owner == requester {
        return Err(TransferRefusal::AlreadyOwner);
    }
    match still_organiser {
        Some(false) => {
            return Err(TransferRefusal::RoleLost);
        },
        _ => {},
    }
    raid.transfer(new_owner as i64);
    Ok(new_owner)
}

/// Hands the raid to a new owner at the owner's command, without further
/// checks. Says whether the raid changed hands: only its owner can hand it
/// over, and only to somebody.
pub fn handle_transfer(raid: &mut Raid, requester: i64, new_owner: Option<i64>) -> (done: bool)
    ensures
        done == (old(raid).owner_id == requester && new_owner is Some),
        final(raid).owner_id == if done {
            new_owner->0
        } else {
            old(raid).owner_id
        },
        final(raid).is_active == old(raid).is_active,
        final(raid).id == old(raid).id,
        final(raid).scheduled_for == old(raid).scheduled_for,
        final(raid).capacity == old(raid).capacity,
{
    if !raid.is_owner(requester) {
        return false;
    }
    match new_owner {
        Some(user) => {
            raid.transfer(user);
            true
        },
        None => false,
    }
}

} // verus!
