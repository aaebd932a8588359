//! Timers derived from a raid's schedule.
//!
//! No timer is stored. Each active raid implies up to three: a promotion
//! run when its priority window ends, one reminder before it starts, and a
//! cleanup after it ends. They are computed anew from the raids whenever a
//! process starts. A timer whose time has passed runs at once. The reminder
//! is sent by the one process that wins a claim on it.

use crate::models::Raid;
use vstd::prelude::*;

verus! {

/// Microseconds in a minute.
pub const MINUTE: i64 = 60_000_000;

/// Microseconds in an hour.
pub const HOUR: i64 = 3_600_000_000;

/// How long before the start the reminder goes out.
pub const REMINDER_LEAD: i64 = 900_000_000;

/// How long after the end the artifacts of a raid are removed.
pub const CLEANUP_GRACE: i64 = 1_200_000_000;

/// How long a claim on a reminder holds: 48 hours.
pub const CLAIM_TTL: i64 = 172_800_000_000;

/// How long to wait, in microseconds, before an action due at `run_at` may
/// run when the clock reads `now`. A due time in the past gives zero, so the
/// action runs at once instead of being skipped.
pub open spec fn spec_delay_until(run_at: i64, now: i64) -> int {
    if run_at <= now {
        0
    } else {
        run_at - now
    }
}

/// How long to wait for an action due at `run_at`.
pub fn delay_until(run_at: i64, now: i64) -> (wait: u64)
    ensures
        wait == spec_delay_until(run_at, now),
{
    if run_at <= now {
        0
    } else {
        let diff: i128 = run_at as i128 - now as i128;
        diff as u64
    }
}

/// A point in time moved by `by` microseconds, kept within what the clock
/// can show.
pub open spec fn moved(t: i64, by: int) -> i64 {
    if t + by > i64::MAX {
        i64::MAX
    } else if t + by < i64::MIN {
        i64::MIN
    } else {
        (t + by) as i64
    }
}

/// Moves a point in time by `by` microseconds.
pub fn move_by(t: i64, by: i128) -> (at: i64)
    ensures
        at == moved(t, by as int),
{
    if by > 0x1_0000_0000_0000_0000 {
        i64::MAX
    } else if by < -0x1_0000_0000_0000_0000 {
        i64::MIN
    } else {
        let sum: i128 = t as i128 + by;
        if sum > i64::MAX as i128 {
            i64::MAX
        } else if sum < i64::MIN as i128 {
            i64::MIN
        } else {
            sum as i64
        }
    }
}

/// What a timer does when it fires.
#[derive(Clone, Copy, Debug, PartialEq, Eq, Structural)]
pub enum TimerAction {
    /// Run the promotion engine: the priority window has ended.
    PromoteAfterPriority,
    /// Remind the entrants that the raid is about to start.
    Reminder,
    /// Remove the raid's artifacts.
    Cleanup,
}

#[derive(Clone, Copy, Debug, PartialEq, Eq, Structural)]
pub struct Timer {
    pub raid_id: u128,
    pub action: TimerAction,
    pub run_at: i64,
}

/// The microseconds in a number of hours.
fn hours_in_micros(hours: i64) -> (micros: i128)
    ensures
        micros == hours * HOUR,
{
    assert(-0x8000_0000_0000_0000 * 3_600_000_000 <= hours * 3_600_000_000
        <= 0x7fff_ffff_ffff_ffff * 3_600_000_000);
    hours as i128 * 3_600_000_000i128
}

/// When the priority window of a raid ends, given how many hours before
/// the start it closes.
pub open spec fn spec_priority_deadline(scheduled_for: i64, priority_hours: i64) -> i64 {
    moved(scheduled_for, -(priority_hours * HOUR))
}

/// When the priority window of a raid ends.
pub fn priority_deadline(scheduled_for: i64, priority_hours: i64) -> (until: i64)
    ensures
        until == spec_priority_deadline(scheduled_for, priority_hours),
{
    move_by(scheduled_for, -hours_in_micros(priority_hours))
}

/// When the reminder of a raid is due.
pub open spec fn reminder_at(scheduled_for: i64) -> i64 {
    moved(scheduled_for, -REMINDER_LEAD)
}

/// When the cleanup of a raid is due: the grace period after its end.
pub open spec fn cleanup_at(scheduled_for: i64, duration_hours: u32) -> i64 {
    moved(scheduled_for, duration_hours * HOUR + CLEANUP_GRACE)
}

/// The timers that a raid implies, in the order in which they are armed.
pub open spec fn timers_of(
    raid_id: u128,
    scheduled_for: i64,
    priority_until: Option<i64>,
    duration_hours: u32,
) -> Seq<Timer> {
    let fixed = seq![
        Timer { raid_id, action: TimerAction::Reminder, run_at: reminder_at(scheduled_for) },
        Timer {
            raid_id,
            action: TimerAction::Cleanup,
            run_at: cleanup_at(scheduled_for, duration_hours),
        },
    ];
    match priority_until {
        Some(until) => seq![
            Timer { raid_id, action: TimerAction::PromoteAfterPriority, run_at: until },
        ] + fixed,
        None => fixed,
    }
}

/// The timers of a raid that runs for `duration_hours`.
pub fn timers_for(raid: &Raid, duration_hours: u32) -> (timers: Vec<Timer>)
    ensures
        timers@ == timers_of(
            raid.id,
            raid.scheduled_for,
            raid.capacity@.priority_window_until,
            duration_hours,
        ),
{
    let mut timers: Vec<Timer> = Vec::new();
    match raid.capacity.priority_window_until() {
        Some(until) => {
            timers.push(
                Timer {
                    raid_id: raid.id,
                    action: TimerAction::PromoteAfterPriority,
                    run_at: until,
                },
            );
        },
        None => {},
    }
    timers.push(
        Timer {
            raid_id: raid.id,
            action: TimerAction::Reminder,
            run_at: move_by(raid.scheduled_for, -(REMINDER_LEAD as i128)),
        },
    );
    timers.push(
        Timer {
            raid_id: raid.id,
            action: TimerAction::Cleanup,
            run_at: move_by(
                raid.scheduled_for,
                hours_in_micros(duration_hours as i64) + CLEANUP_GRACE as i128,
            ),
        },
    );
    assert(timers@ =~= timers_of(
        raid.id,
        raid.scheduled_for,
        raid.capacity@.priority_window_until,
        duration_hours,
    ));
    timers
}

/// A timer to arm and how long to wait for it, in microseconds.
#[derive(Clone, Copy, Debug, PartialEq, Eq, Structural)]
pub struct Armed {
    pub timer: Timer,
    pub wait: u64,
}

/// The timer armed at `now`.
pub open spec fn armed_at(timer: Timer, now: i64) -> Armed {
    Armed { timer, wait: spec_delay_until(timer.run_at, now) as u64 }
}

/// The timers to arm for the raids at `now`: those of the active raids, in
/// the order of the raids. An inactive raid gets none.
pub open spec fn recovered(raids: Seq<(Raid, u32)>, now: i64) -> Seq<Armed>
    decreases raids.len(),
{
    if raids.len() == 0 {
        Seq::empty()
    } else {
        let (raid, hours) = raids.last();
        let earlier = recovered(raids.drop_last(), now);
        if raid.is_active {
            earlier + timers_of(
                raid.id,
                raid.scheduled_for,
                raid.capacity@.priority_window_until,
                hours,
            ).map_values(|t: Timer| armed_at(t, now))
        } else {
            earlier
        }
    }
}

/// Derives the timers to arm when a process starts, from the raids in the
/// store and the number of hours that each runs.
pub fn restore_schedules(raids: &Vec<(Raid, u32)>, now: i64) -> (arm: Vec<Armed>)
    ensures
        arm@ == recovered(raids@, now),
{
    let mut arm: Vec<Armed> = Vec::new();
    let mut k: usize = 0;
    assert(raids@.take(0) =~= Seq::<(Raid, u32)>::empty());
    while k < raids.len()
        invariant
            k <= raids.len(),
            arm@ == recovered(raids@.take(k as int), now),
        decreases raids.len() - k,
    {
        let ghost upto = raids@.take(k + 1);
        assert(upto.last() == raids@[k as int]);
        assert(upto.drop_last() =~= raids@.take(k as int));
        let raid = &raids[k].0;
        if raid.is_active {
            let timers = timers_for(raid, raids[k].1);
            let ghost before = arm@;
            let mut j: usize = 0;
            while j < timers.len()
                invariant
                    j <= timers.len(),
                    arm@ == before + timers@.take(j as int).map_values(
                        |t: Timer| armed_at(t, now),
                    ),
                decreases timers.len() - j,
            {
                let timer = timers[j];
                arm.push(Armed { timer, wait: delay_until(timer.run_at, now) });
                assert(timers@.take(j + 1) =~= timers@.take(j as int).push(timers@[j as int]));
                assert(timers@.take(j + 1).map_values(|t: Timer| armed_at(t, now))
                    =~= timers@.take(j as int).map_values(|t: Timer| armed_at(t, now)).push(
                    armed_at(timer, now),
                ));
                j = j + 1;
            }
            assert(timers@.take(j as int) =~= timers@);
        }
        k = k + 1;
    }
    assert(raids@.take(k as int) =~= raids@);
    arm
}

/// What to do when a timer fires.
#[derive(Clone, Copy, Debug, PartialEq, Eq, Structural)]
pub enum Firing {
    /// Run the promotion engine and redraw the summary.
    RunPromotion,
    /// Claim the reminder, and send it if the claim is won.
    ClaimReminder,
    /// Remove the raid's artifacts.
    RemoveArtifacts,
    /// Do nothing.
    Skip,
}

/// What a timer does when it fires. The raid's flag is read at that
/// moment: a raid that was cancelled in the meantime gets no reminder.
pub open spec fn spec_on_fire(action: TimerAction, raid_active: bool) -> Firing {
    match action {
        TimerAction::PromoteAfterPriority => Firing::RunPromotion,
        TimerAction::Reminder => if raid_active {
            Firing::ClaimReminder
        } else {
            Firing::Skip
        },
        TimerAction::Cleanup => Firing::RemoveArtifacts,
    }
}

/// What a timer does when it fires.
pub fn on_fire(action: TimerAction, raid_active: bool) -> (firing: Firing)
    ensures
        firing == spec_on_fire(action, raid_active),
{
    match action {
        TimerAction::PromoteAfterPriority => Firing::RunPromotion,
        TimerAction::Reminder => if raid_active {
            Firing::ClaimReminder
        } else {
            Firing::Skip
        },
        TimerAction::Cleanup => Firing::RemoveArtifacts,
    }
}

/// Records the outcome of a cleanup: a raid whose artifacts were removed
/// becomes inactive, so that the next start arms no timer for it.
pub fn after_cleanup(raid: &mut Raid, removed: bool)
    ensures
        final(raid).is_active == (old(raid).is_active && !removed),
        final(raid).id == old(raid).id,
        final(raid).scheduled_for == old(raid).scheduled_for,
        final(raid).owner_id == old(raid).owner_id,
        final(raid).capacity == old(raid).capacity,
{
    if removed {
        raid.cancel();
    }
}

/// The claims on reminders: for each claim the raid and the time at which
/// the claim lapses.
pub struct ClaimLedger {
    pub claims: Vec<(u128, i64)>,
}

/// Whether a claim on the raid's reminder holds at `now`.
pub open spec fn claimed(claims: Seq<(u128, i64)>, raid_id: u128, now: i64) -> bool {
    exists|i: int| 0 <= i < claims.len() && (#[trigger] claims[i]).0 == raid_id && claims[i].1 > now
}

/// The claims after an attempt at `now`: a new claim where none held.
pub open spec fn claims_after(claims: Seq<(u128, i64)>, raid_id: u128, now: i64) -> Seq<
    (u128, i64),
> {
    if claimed(claims, raid_id, now) {
        claims
    } else {
        claims.push((raid_id, moved(now, CLAIM_TTL as int)))
    }
}

impl ClaimLedger {
    /// A ledger without claims.
    pub fn new() -> (ledger: ClaimLedger)
        ensures
            ledger.claims@ == Seq::<(u128, i64)>::empty(),
    {
        ClaimLedger { claims: Vec::new() }
    }

    /// Sets the claim if none holds, and says whether this attempt set it:
    /// only then may the caller send the reminder.
    pub fn try_claim(&mut self, raid_id: u128, now: i64) -> (won: bool)
        ensures
            won == !claimed(old(self).claims@, raid_id, now),
            final(self).claims@ == claims_after(old(self).claims@, raid_id, now),
    {
        let mut k: usize = 0;
        while k < self.claims.len()
            invariant
                k <= self.claims.len(),
                self.claims@ == old(self).claims@,
                forall|i: int|
                    0 <= i < k ==> !((#[trigger] self.claims@[i]).0 == raid_id
                        && self.claims@[i].1 > now),
            decreases self.claims.len() - k,
        {
            if self.claims[k].0 == raid_id && self.claims[k].1 > now {
                return false;
            }
            k = k + 1;
        }
        self.claims.push((raid_id, move_by(now, CLAIM_TTL as i128)));
        true
    }
}

/// Whether the winner of a claim sends the reminder.
pub fn send_reminder(claim_won: bool, raid_active: bool) -> (send: bool)
    ensures
        send == (claim_won && raid_active),
{
    claim_won && raid_active
}

/// Of two attempts to claim the same reminder, the second while the claim
/// of the first would still hold, exactly one wins where no claim held
/// before, and none where one did: the reminder goes out once.
pub proof fn law_reminder_claimed_once(
    claims: Seq<(u128, i64)>,
    raid_id: u128,
    first: i64,
    second: i64,
)
    requires
        first <= second < first + CLAIM_TTL <= i64::MAX,
    ensures
        ({
            let won_first = !claimed(claims, raid_id, first);
            let between = claims_after(claims, raid_id, first);
            let won_second = !claimed(between, raid_id, second);
            &&& !(won_first && won_second)
            &&& !claimed(claims, raid_id, first) ==> won_first && !won_second
            &&& claimed(claims, raid_id, second) ==> !won_first && !won_second
        }),
{
    let between = claims_after(claims, raid_id, first);
    if !claimed(claims, raid_id, first) {
        assert(between[claims.len() as int].0 == raid_id);
        assert(claimed(between, raid_id, second));
    }
    if claimed(claims, raid_id, second) {
        let i = choose|i: int|
            0 <= i < claims.len() && (#[trigger] claims[i]).0 == raid_id && claims[i].1 > second;
        assert(claims[i].1 > first);
    }
}

} // verus!
