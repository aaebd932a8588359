//! What is decided before a request is put on the stream: whether a user
//! may join, and what the owner of a raid may do.

use crate::labels::{compose_label, label_of};
use crate::models::{
    has_primary_main, main_count, user_alt_count, with_seat, CapacityView, ParticipantView, Raid,
    RowFilter,
};
use crate::promotion::{after_promotion, free_main, promotion_plan};
use crate::queue::{recompute_promotions, EventView, JoinView, RaidEvent};
use crate::roles::{
    first_level_role, has_role_in, has_role_named, holds_role_in, holds_role_named, level_role,
    tag_for, LevelRole, Role,
};
use crate::roster::Roster;
use vstd::prelude::*;
use vstd::string::*;

verus! {

/// What a user has picked so far in the join dialogue.
pub struct JoinSelection {
    pub class: Option<String>,
    pub sp: Option<String>,
    /// Whether the user asked for the primary slot; otherwise an alt slot.
    pub main: bool,
}

/// The text of a pick that may be missing.
pub open spec fn pick_text(pick: Option<String>) -> Option<Seq<char>> {
    match pick {
        Some(s) => Some(s@),
        None => None,
    }
}

fn clone_pick(pick: &Option<String>) -> (copy: Option<String>)
    ensures
        pick_text(copy) == pick_text(*pick),
{
    match pick {
        Some(s) => Some(s.clone()),
        None => None,
    }
}

impl Clone for JoinSelection {
    fn clone(&self) -> (copy: JoinSelection)
        ensures
            pick_text(copy.class) == pick_text(self.class),
            pick_text(copy.sp) == pick_text(self.sp),
            copy.main == self.main,
    {
        JoinSelection { class: clone_pick(&self.class), sp: clone_pick(&self.sp), main: self.main }
    }
}

/// Why a request to join is turned down.
#[derive(Clone, Copy, Debug, PartialEq, Eq, Structural)]
pub enum JoinRefusal {
    /// Class or specialist is not chosen.
    ChooseBoth,
    /// The raid was cancelled.
    Cancelled,
    /// The user holds neither level role.
    MissingLevelRole,
    /// An alt slot needs a primary slot with a main seat first.
    MainFirst,
    /// The user lacks the role that allows alts.
    AltRoleMissing,
    /// The raid takes no alts.
    AltsDisabled,
    /// The user has as many alts as the raid allows.
    AltLimit,
}

pub enum JoinDecision {
    Refuse(JoinRefusal),
    Publish(RaidEvent),
}

/// Whether the user has to stay on reserve: the user holds the reserve
/// role, or the priority window is open and the user holds no priority
/// role.
pub open spec fn must_reserve(
    roles: Seq<Role>,
    reserve_role: Seq<char>,
    config: CapacityView,
    now: i64,
) -> bool {
    has_role_named(roles, reserve_role) || (config.window_open(now) && !has_role_in(
        roles,
        config.priority_eligible_ids,
    ))
}

/// Why the request is turned down, if it is. The checks come in this
/// order, and the first that fails decides.
pub open spec fn refusal_of(
    class_chosen: bool,
    sp_chosen: bool,
    wants_primary: bool,
    raid_active: bool,
    rows: Seq<ParticipantView>,
    config: CapacityView,
    user_id: i64,
    roles: Seq<Role>,
    alt_allow_role: Seq<char>,
) -> Option<JoinRefusal> {
    if !class_chosen || !sp_chosen {
        Some(JoinRefusal::ChooseBoth)
    } else if !raid_active {
        Some(JoinRefusal::Cancelled)
    } else if first_level_role(roles) is None {
        Some(JoinRefusal::MissingLevelRole)
    } else if wants_primary {
        None
    } else if !has_primary_main(rows, user_id) {
        Some(JoinRefusal::MainFirst)
    } else if !has_role_named(roles, alt_allow_role) {
        Some(JoinRefusal::AltRoleMissing)
    } else if !config.allow_alts {
        Some(JoinRefusal::AltsDisabled)
    } else if user_alt_count(rows, user_id) >= config.max_alt_mains {
        Some(JoinRefusal::AltLimit)
    } else {
        None
    }
}

/// Decides a request to join, from what the user picked, the raid and its
/// roster as they stand, and the roles that the user holds. A request that
/// passes becomes a join event; it asks for a main seat where one is free
/// and the user need not stay on reserve.
pub fn confirm_join(
    selection: &JoinSelection,
    raid: &Raid,
    roster: &Roster,
    user_id: i64,
    roles: &Vec<Role>,
    reserve_role_name: &str,
    alt_allow_role_name: &str,
    now: i64,
) -> (decision: JoinDecision)
    ensures
        ({
            let refusal = refusal_of(
                selection.class is Some,
                selection.sp is Some,
                selection.main,
                raid.is_active,
                roster@,
                raid.capacity@,
                user_id,
                roles@,
                alt_allow_role_name@,
            );
            match decision {
                JoinDecision::Refuse(why) => refusal == Some(why),
                JoinDecision::Publish(event) => {
                    &&& refusal is None
                    &&& event@ == (EventView::Join {
                        raid_id: raid.id,
                        guild_id: raid.guild_id,
                        join: JoinView {
                            user_id,
                            joined_as: label_of(selection.class->0@, selection.sp->0@),
                            main_now: free_main(roster@, raid.capacity@) > 0 && !must_reserve(
                                roles@,
                                reserve_role_name@,
                                raid.capacity@,
                                now,
                            ),
                            tag_suffix: match first_level_role(roles@) {
                                Some(LevelRole::Below90) => " [-c90]"@,
                                _ => ""@,
                            },
                            is_alt: !selection.main,
                        },
                    })
                },
            }
        }),
{
    let (class, sp) = match (&selection.class, &selection.sp) {
        (Some(class), Some(sp)) => (class, sp),
        _ => {
            return JoinDecision::Refuse(JoinRefusal::ChooseBoth);
        },
    };
    if !raid.is_active {
        return JoinDecision::Refuse(JoinRefusal::Cancelled);
    }
    let level = match level_role(roles) {
        Some(level) => level,
        None => {
            return JoinDecision::Refuse(JoinRefusal::MissingLevelRole);
        },
    };
    let tag_suffix = tag_for(level);
    let held_back = holds_role_named(roles, reserve_role_name) || (raid.capacity.window_open(now)
        && !holds_role_in(roles, raid.capacity.priority_eligible_ids()));
    let is_alt = !selection.main;
    if is_alt {
        if !roster.user_has_main(user_id) {
            return JoinDecision::Refuse(JoinRefusal::MainFirst);
        }
        if !holds_role_named(roles, alt_allow_role_name) {
            return JoinDecision::Refuse(JoinRefusal::AltRoleMissing);
        }
        if !raid.capacity.allow_alts() {
            return JoinDecision::Refuse(JoinRefusal::AltsDisabled);
        }
        if roster.alt_count_for_user(user_id) >= raid.capacity.max_alt_mains() as usize {
            return JoinDecision::Refuse(JoinRefusal::AltLimit);
        }
    }
    let seat_free = roster.count_mains() < raid.capacity.max_mains() as usize;
    JoinDecision::Publish(
        RaidEvent::Join {
            raid_id: raid.id,
            guild_id: raid.guild_id,
            user_id,
            joined_as: compose_label(class.as_str(), sp.as_str()),
            main_now: seat_free && !held_back,
            tag_suffix,
            is_alt,
        },
    )
}

/// What became of an owner's request.
#[derive(Clone, Copy, Debug, PartialEq, Eq, Structural)]
pub enum OwnerOutcome {
    /// The requester does not own the raid: nothing was done.
    NotOwner,
    /// Every main seat is taken: nothing was done.
    Full,
    /// The request was carried out; `changed` says whether a row changed.
    Done { changed: bool },
}

/// The owner gives a main seat to a row of the owner's choice. No seat is
/// given once the main seats are full, but neither the alt sub-quota nor
/// the rules hold the owner back. A row that is gone makes this a no-op.
pub fn owner_promote(raid: &Raid, roster: &mut Roster, requester: i64, row_id: u128) -> (outcome:
    OwnerOutcome)
    ensures
        outcome == if raid.owner_id != requester {
            OwnerOutcome::NotOwner
        } else if main_count(old(roster)@) >= raid.capacity@.max_mains {
            OwnerOutcome::Full
        } else {
            OwnerOutcome::Done {
                changed: exists|i: int|
                    0 <= i < old(roster)@.len() && (#[trigger] old(roster)@[i]).id == row_id
                        && !old(roster)@[i].is_main,
            }
        },
        final(roster)@ == if outcome is Done {
            with_seat(old(roster)@, row_id)
        } else {
            old(roster)@
        },
{
    if !raid.is_owner(requester) {
        return OwnerOutcome::NotOwner;
    }
    if roster.count_mains() >= raid.capacity.max_mains() as usize {
        return OwnerOutcome::Full;
    }
    let changed = roster.promote_row(row_id);
    OwnerOutcome::Done { changed }
}

/// The owner moves a row of the owner's choice to reserve. Nobody is
/// promoted in its place: that is left to the next run of the engine.
pub fn owner_move_to_reserve(
    raid: &Raid,
    roster: &mut Roster,
    requester: i64,
    row_id: u128,
) -> (outcome: OwnerOutcome)
    ensures
        outcome == if raid.owner_id != requester {
            OwnerOutcome::NotOwner
        } else {
            OwnerOutcome::Done {
                changed: exists|i: int|
                    0 <= i < old(roster)@.len() && (#[trigger] old(roster)@[i]).id == row_id
                        && old(roster)@[i].is_main,
            }
        },
        final(roster)@ == if outcome is Done {
            crate::models::without_seat(old(roster)@, row_id)
        } else {
            old(roster)@
        },
{
    if !raid.is_owner(requester) {
        return OwnerOutcome::NotOwner;
    }
    let changed = roster.move_to_reserve(row_id);
    OwnerOutcome::Done { changed }
}

/// The owner removes a row of the owner's choice; the engine then fills
/// what became free. Says which rows were promoted, or nothing where the
/// requester is not the owner.
pub fn owner_kick(
    raid: &Raid,
    roster: &mut Roster,
    requester: i64,
    row_id: u128,
    exclusion_ids: &Vec<i64>,
    priority_ids: &Vec<i64>,
    now: i64,
) -> (promoted: Option<Vec<u128>>)
    ensures
        promoted is Some <==> raid.owner_id == requester,
        raid.owner_id != requester ==> final(roster)@ == old(roster)@,
        raid.owner_id == requester ==> {
            let left = old(roster)@.filter(RowFilter::Row(row_id).left());
            &&& final(roster)@ == after_promotion(
                left,
                raid.capacity@,
                exclusion_ids@,
                priority_ids@,
                now,
            )
            &&& promoted->0@ == promotion_plan(
                left,
                raid.capacity@,
                exclusion_ids@,
                priority_ids@,
                now,
            )
        },
{
    if !raid.is_owner(requester) {
        return None;
    }
    let _ = roster.remove_participant_by_id(row_id);
    Some(recompute_promotions(roster, &raid.capacity, exclusion_ids, priority_ids, now))
}

/// The owner cancels the raid. Says whether the raid was cancelled: only
/// its owner can do that.
pub fn owner_cancel(raid: &mut Raid, requester: i64) -> (cancelled: bool)
    ensures
        cancelled == (old(raid).owner_id == requester),
        final(raid).is_active == (old(raid).is_active && !cancelled),
        final(raid).id == old(raid).id,
        final(raid).owner_id == old(raid).owner_id,
        final(raid).scheduled_for == old(raid).scheduled_for,
        final(raid).capacity == old(raid).capacity,
{
    if raid.is_owner(requester) {
        raid.cancel();
        true
    } else {
        false
    }
}

} // verus!
