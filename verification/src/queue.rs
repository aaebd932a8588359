//! The events that change seats, and what applying each of them does.
//!
//! Every seat-changing request travels as a [`RaidEvent`] through one
//! stream and is applied by a single writer. Applying an event changes the
//! roster, runs the promotion engine on the result, and yields the
//! [`AckPayload`] that the requester is waiting for.

use crate::counting::{
    lemma_count_after_filter, lemma_count_bound, lemma_count_zero, lemma_filter_leaves_none,
    lemma_filter_twice,
};
use crate::models::{
    alt_stored, has_primary, id_in_use, user_alt_count, user_row_count, with_active_sp, with_alt,
    with_extra_sp, with_primary, CapacityConfig, CapacityView, ParticipantView, RaidParticipant,
    RowFilter,
};
use crate::promotion::{
    after_promotion, contains_id, free_alt_main, free_main, promote, promotion_plan, rules_at,
    Rules,
};
use crate::roster::Roster;
use vstd::prelude::*;

verus! {

/// A seat-changing request.
pub enum RaidEvent {
    Join {
        raid_id: u128,
        guild_id: i64,
        user_id: i64,
        joined_as: String,
        main_now: bool,
        tag_suffix: String,
        is_alt: bool,
    },
    LeaveAll { raid_id: u128, guild_id: i64, user_id: i64 },
    LeaveAlts { raid_id: u128, guild_id: i64, user_id: i64 },
    AddSp { raid_id: u128, guild_id: i64, user_id: i64, sp: String },
    ChangeSp { raid_id: u128, guild_id: i64, user_id: i64, sp: String },
}

/// What the writer reports back for one event.
#[derive(Clone, Copy, Debug, PartialEq, Eq)]
pub struct AckPayload {
    pub ok: bool,
    pub removed_main: Option<u64>,
    pub removed_alts: Option<u64>,
}

impl AckPayload {
    /// The report for an event that could not be applied.
    pub open spec fn failure() -> AckPayload {
        AckPayload { ok: false, removed_main: None, removed_alts: None }
    }

    /// The report for an event that was applied and removed nothing.
    pub open spec fn success() -> AckPayload {
        AckPayload { ok: true, removed_main: None, removed_alts: None }
    }

    /// Whether the event removed any row. A missing report counts as a
    /// removal: the outcome is unknown, not negative.
    pub open spec fn spec_removed_any(ack: Option<AckPayload>) -> bool {
        match ack {
            Some(a) => {
                let mains: int = match a.removed_main {
                    Some(n) => n as int,
                    None => 0,
                };
                let alts: int = match a.removed_alts {
                    Some(n) => n as int,
                    None => 0,
                };
                mains + alts > 0
            },
            None => true,
        }
    }

    /// Whether the event removed any row, as far as the report tells.
    pub fn removed_any(ack: &Option<AckPayload>) -> (any: bool)
        ensures
            any == Self::spec_removed_any(*ack),
    {
        match ack {
            Some(a) => {
                let mains: u64 = match a.removed_main {
                    Some(n) => n,
                    None => 0,
                };
                let alts: u64 = match a.removed_alts {
                    Some(n) => n,
                    None => 0,
                };
                mains > 0 || alts > 0
            },
            None => true,
        }
    }
}

/// The fields of a join that decide what is stored.
pub struct JoinView {
    pub user_id: i64,
    pub joined_as: Seq<char>,
    pub main_now: bool,
    pub tag_suffix: Seq<char>,
    pub is_alt: bool,
}

/// Whether a row that arrives now may take a main seat at once: a main seat
/// is free, the alt sub-quota has room where the row is an alt, and the
/// rules let the user through.
pub open spec fn seat_open(
    rows: Seq<ParticipantView>,
    config: CapacityView,
    user_id: i64,
    is_alt: bool,
    rules: Rules,
) -> bool {
    &&& free_main(rows, config) > 0
    &&& is_alt ==> free_alt_main(rows, config) > 0
    &&& !rules.excluded.contains(user_id)
    &&& rules.window_open ==> rules.priority.contains(user_id)
}

/// The row that a join brings. It asks for a main seat with `main_now` and
/// gets one only where `seat_open` holds when the join is applied.
pub open spec fn arriving_row(
    rows: Seq<ParticipantView>,
    config: CapacityView,
    join: JoinView,
    row_id: u128,
    now: i64,
    rules: Rules,
) -> ParticipantView {
    ParticipantView {
        id: row_id,
        user_id: join.user_id,
        joined_as: join.joined_as,
        is_main: join.main_now && seat_open(rows, config, join.user_id, join.is_alt, rules),
        is_alt: join.is_alt,
        joined_at: now,
        tag_suffix: join.tag_suffix,
        extra_sps: Seq::empty(),
    }
}

/// Whether the store takes the row. A primary registration of a user who
/// has a primary row rewrites that row. Any other row needs an unused
/// identifier, but for an alt row that is stored already: that one is
/// taken again, and changes nothing.
pub open spec fn join_accepted(rows: Seq<ParticipantView>, row: ParticipantView) -> bool {
    ||| !row.is_alt && has_primary(rows, row.user_id)
    ||| !id_in_use(rows, row.id)
    ||| row.is_alt && alt_stored(rows, row)
}

/// The rows once the store took the row.
pub open spec fn join_stored(rows: Seq<ParticipantView>, row: ParticipantView) -> Seq<
    ParticipantView,
> {
    if row.is_alt {
        with_alt(rows, row)
    } else {
        with_primary(rows, row)
    }
}

/// The rows after a join was applied: the row is stored and the engine
/// runs; a join that the store refuses changes nothing.
pub open spec fn after_join(
    rows: Seq<ParticipantView>,
    config: CapacityView,
    join: JoinView,
    row_id: u128,
    now: i64,
    exclusion_ids: Seq<i64>,
    priority_ids: Seq<i64>,
) -> Seq<ParticipantView> {
    let rules = rules_at(config, exclusion_ids, priority_ids, now);
    let row = arriving_row(rows, config, join, row_id, now, rules);
    if join_accepted(rows, row) {
        after_promotion(join_stored(rows, row), config, exclusion_ids, priority_ids, now)
    } else {
        rows
    }
}

/// The rows after the user left with every slot.
pub open spec fn after_leave_all(
    rows: Seq<ParticipantView>,
    config: CapacityView,
    user_id: i64,
    now: i64,
    exclusion_ids: Seq<i64>,
    priority_ids: Seq<i64>,
) -> Seq<ParticipantView> {
    after_promotion(
        rows.filter(RowFilter::User(user_id).left()),
        config,
        exclusion_ids,
        priority_ids,
        now,
    )
}

/// The rows after the user withdrew the alt slots.
pub open spec fn after_leave_alts(
    rows: Seq<ParticipantView>,
    config: CapacityView,
    user_id: i64,
    now: i64,
    exclusion_ids: Seq<i64>,
    priority_ids: Seq<i64>,
) -> Seq<ParticipantView> {
    after_promotion(
        rows.filter(RowFilter::UserAlts(user_id).left()),
        config,
        exclusion_ids,
        priority_ids,
        now,
    )
}

/// What applying an event did: the report for the requester, the row that
/// was written, and the rows that the engine moved to a main seat, in
/// promotion order.
pub struct Applied {
    pub ack: AckPayload,
    /// Where the written row stands in the roster, for a join that the
    /// store took.
    pub stored: Option<usize>,
    pub promoted: Vec<u128>,
}

/// Runs the engine on the roster and seats whom it promotes.
pub fn recompute_promotions(
    roster: &mut Roster,
    config: &CapacityConfig,
    exclusion_ids: &Vec<i64>,
    priority_ids: &Vec<i64>,
    now: i64,
) -> (plan: Vec<u128>)
    ensures
        plan@ == promotion_plan(old(roster)@, config@, exclusion_ids@, priority_ids@, now),
        final(roster)@ == after_promotion(
            old(roster)@,
            config@,
            exclusion_ids@,
            priority_ids@,
            now,
        ),
{
    let plan = promote(roster, config, exclusion_ids, priority_ids, now);
    roster.apply_promotions(&plan);
    plan
}

/// Whether a row arriving now may take a main seat at once.
pub fn is_seat_open(
    roster: &Roster,
    config: &CapacityConfig,
    user_id: i64,
    is_alt: bool,
    exclusion_ids: &Vec<i64>,
    priority_ids: &Vec<i64>,
    now: i64,
) -> (open: bool)
    ensures
        open == seat_open(
            roster@,
            config@,
            user_id,
            is_alt,
            rules_at(config@, exclusion_ids@, priority_ids@, now),
        ),
{
    let mains = roster.count_mains();
    if mains >= config.max_mains() as usize {
        return false;
    }
    if is_alt {
        let alt_mains = roster.count_alt_mains();
        if alt_mains >= config.max_alt_mains() as usize {
            return false;
        }
    }
    if contains_id(exclusion_ids, user_id) {
        return false;
    }
    if config.window_open(now) {
        contains_id(priority_ids, user_id)
    } else {
        true
    }
}

/// Applies a join: stores the row, then runs the engine.
pub fn handle_join(
    roster: &mut Roster,
    config: &CapacityConfig,
    user_id: i64,
    joined_as: String,
    main_now: bool,
    tag_suffix: String,
    is_alt: bool,
    row_id: u128,
    now: i64,
    exclusion_ids: &Vec<i64>,
    priority_ids: &Vec<i64>,
) -> (done: Applied)
    ensures
        ({
            let join = JoinView {
                user_id,
                joined_as: joined_as@,
                main_now,
                tag_suffix: tag_suffix@,
                is_alt,
            };
            let rules = rules_at(config@, exclusion_ids@, priority_ids@, now);
            let row = arriving_row(old(roster)@, config@, join, row_id, now, rules);
            let accepted = join_accepted(old(roster)@, row);
            &&& final(roster)@ == after_join(
                old(roster)@,
                config@,
                join,
                row_id,
                now,
                exclusion_ids@,
                priority_ids@,
            )
            &&& done.ack == if accepted {
                AckPayload::success()
            } else {
                AckPayload::failure()
            }
            &&& done.stored is Some <==> accepted
            &&& done.promoted@ == if accepted {
                promotion_plan(
                    join_stored(old(roster)@, row),
                    config@,
                    exclusion_ids@,
                    priority_ids@,
                    now,
                )
            } else {
                Seq::<u128>::empty()
            }
        }),
{
    let seat = main_now && is_seat_open(
        roster,
        config,
        user_id,
        is_alt,
        exclusion_ids,
        priority_ids,
        now,
    );
    let row = RaidParticipant {
        id: row_id,
        user_id,
        joined_as,
        is_main: seat,
        is_alt,
        joined_at: now,
        tag_suffix,
        extra_sps: Vec::new(),
    };
    assert(row@.extra_sps =~= Seq::<Seq<char>>::empty());
    let stored = if is_alt {
        roster.insert_alt(row)
    } else {
        roster.insert_or_replace_main(row)
    };
    match stored {
        Ok(at) => {
            let promoted = recompute_promotions(roster, config, exclusion_ids, priority_ids, now);
            Applied {
                ack: AckPayload { ok: true, removed_main: None, removed_alts: None },
                stored: Some(at),
                promoted,
            }
        },
        Err(_) => Applied {
            ack: AckPayload { ok: false, removed_main: None, removed_alts: None },
            stored: None,
            promoted: Vec::new(),
        },
    }
}

/// Applies a departure with every slot: removes the user's alt rows, then
/// the primary row, and runs the engine. The report counts the primary
/// rows and the alt rows that went; applying it again removes nothing and
/// reports zero for both.
pub fn handle_leave_all(
    roster: &mut Roster,
    config: &CapacityConfig,
    user_id: i64,
    now: i64,
    exclusion_ids: &Vec<i64>,
    priority_ids: &Vec<i64>,
) -> (done: Applied)
    ensures
        final(roster)@ == after_leave_all(
            old(roster)@,
            config@,
            user_id,
            now,
            exclusion_ids@,
            priority_ids@,
        ),
        done.ack.ok,
        done.ack.removed_alts == Some(user_alt_count(old(roster)@, user_id) as u64),
        done.ack.removed_main == Some(
            (user_row_count(old(roster)@, user_id) - user_alt_count(old(roster)@, user_id)) as u64,
        ),
        user_alt_count(old(roster)@, user_id) <= user_row_count(old(roster)@, user_id)
            <= u64::MAX,
        done.stored is None,
        done.promoted@ == promotion_plan(
            old(roster)@.filter(RowFilter::User(user_id).left()),
            config@,
            exclusion_ids@,
            priority_ids@,
            now,
        ),
{
    let ghost before = roster@;
    let alts = RowFilter::UserAlts(user_id);
    let all = RowFilter::User(user_id);
    let rows_before = roster.len();
    let removed_alts = roster.remove_user_alts(user_id);
    let removed_main = roster.remove_participant(user_id);
    proof {
        lemma_filter_twice(before, alts.left(), all.left());
        lemma_count_after_filter(before, alts.left(), alts.chosen(), all.chosen());
        lemma_count_bound(before, all.chosen());
    }
    let promoted = recompute_promotions(roster, config, exclusion_ids, priority_ids, now);
    Applied {
        ack: AckPayload {
            ok: true,
            removed_main: Some(removed_main),
            removed_alts: Some(removed_alts),
        },
        stored: None,
        promoted,
    }
}

/// Applies a withdrawal of the user's alt slots and runs the engine.
pub fn handle_leave_alts(
    roster: &mut Roster,
    config: &CapacityConfig,
    user_id: i64,
    now: i64,
    exclusion_ids: &Vec<i64>,
    priority_ids: &Vec<i64>,
) -> (done: Applied)
    ensures
        final(roster)@ == after_leave_alts(
            old(roster)@,
            config@,
            user_id,
            now,
            exclusion_ids@,
            priority_ids@,
        ),
        done.ack == (AckPayload {
            ok: true,
            removed_main: None,
            removed_alts: Some(user_alt_count(old(roster)@, user_id) as u64),
        }),
        user_alt_count(old(roster)@, user_id) <= u64::MAX,
        done.stored is None,
        done.promoted@ == promotion_plan(
            old(roster)@.filter(RowFilter::UserAlts(user_id).left()),
            config@,
            exclusion_ids@,
            priority_ids@,
            now,
        ),
{
    let removed = roster.remove_user_alts(user_id);
    let promoted = recompute_promotions(roster, config, exclusion_ids, priority_ids, now);
    Applied {
        ack: AckPayload { ok: true, removed_main: None, removed_alts: Some(removed) },
        stored: None,
        promoted,
    }
}

/// A departure that is applied again finds nothing to remove.
pub proof fn law_leave_all_again_removes_nothing(rows: Seq<ParticipantView>, user_id: i64)
    ensures
        user_row_count(rows.filter(RowFilter::User(user_id).left()), user_id) == 0,
        user_alt_count(rows.filter(RowFilter::User(user_id).left()), user_id) == 0,
{
    let all = RowFilter::User(user_id);
    let alts = RowFilter::UserAlts(user_id);
    lemma_filter_leaves_none(rows, all.left(), all.chosen());
    let f = rows.filter(all.left());
    assert forall|i: int| 0 <= i < f.len() implies !(alts.chosen())(#[trigger] f[i]) by {
        rows.lemma_filter_pred(all.left(), i);
    }
    lemma_count_zero(f, alts.chosen());
}

/// Applies the addition of a further specialist to the user's primary row.
/// The report is positive whether or not the user has such a row.
pub fn handle_add_sp(roster: &mut Roster, user_id: i64, sp: String) -> (done: Applied)
    ensures
        final(roster)@ == with_extra_sp(old(roster)@, user_id, sp@),
        done.ack == AckPayload::success(),
        done.stored is None,
        done.promoted@ == Seq::<u128>::empty(),
{
    let _ = roster.append_extra_sp(user_id, sp);
    Applied {
        ack: AckPayload { ok: true, removed_main: None, removed_alts: None },
        stored: None,
        promoted: Vec::new(),
    }
}

/// Applies a change of the specialist in the label of the user's primary
/// row. The report is negative where the user has no such row.
pub fn handle_change_sp(roster: &mut Roster, user_id: i64, sp: String) -> (done: Applied)
    ensures
        final(roster)@ == with_active_sp(old(roster)@, user_id, sp@),
        done.ack == if has_primary(old(roster)@, user_id) {
            AckPayload::success()
        } else {
            AckPayload::failure()
        },
        done.stored is None,
        done.promoted@ == Seq::<u128>::empty(),
{
    let found = roster.set_active_sp(user_id, sp.as_str());
    Applied {
        ack: AckPayload { ok: found, removed_main: None, removed_alts: None },
        stored: None,
        promoted: Vec::new(),
    }
}

/// The mathematical value of a [`RaidEvent`].
pub enum EventView {
    Join { raid_id: u128, guild_id: i64, join: JoinView },
    LeaveAll { raid_id: u128, guild_id: i64, user_id: i64 },
    LeaveAlts { raid_id: u128, guild_id: i64, user_id: i64 },
    AddSp { raid_id: u128, guild_id: i64, user_id: i64, sp: Seq<char> },
    ChangeSp { raid_id: u128, guild_id: i64, user_id: i64, sp: Seq<char> },
}

impl View for RaidEvent {
    type V = EventView;

    open spec fn view(&self) -> EventView {
        match *self {
            RaidEvent::Join {
                raid_id,
                guild_id,
                user_id,
                joined_as,
                main_now,
                tag_suffix,
                is_alt,
            } => EventView::Join {
                raid_id,
                guild_id,
                join: JoinView {
                    user_id,
                    joined_as: joined_as@,
                    main_now,
                    tag_suffix: tag_suffix@,
                    is_alt,
                },
            },
            RaidEvent::LeaveAll { raid_id, guild_id, user_id } => EventView::LeaveAll {
                raid_id,
                guild_id,
                user_id,
            },
            RaidEvent::LeaveAlts { raid_id, guild_id, user_id } => EventView::LeaveAlts {
                raid_id,
                guild_id,
                user_id,
            },
            RaidEvent::AddSp { raid_id, guild_id, user_id, sp } => EventView::AddSp {
                raid_id,
                guild_id,
                user_id,
                sp: sp@,
            },
            RaidEvent::ChangeSp { raid_id, guild_id, user_id, sp } => EventView::ChangeSp {
                raid_id,
                guild_id,
                user_id,
                sp: sp@,
            },
        }
    }
}

/// The rows after the event was applied.
pub open spec fn after_event(
    rows: Seq<ParticipantView>,
    config: CapacityView,
    event: EventView,
    row_id: u128,
    now: i64,
    exclusion_ids: Seq<i64>,
    priority_ids: Seq<i64>,
) -> Seq<ParticipantView> {
    match event {
        EventView::Join { join, .. } => after_join(
            rows,
            config,
            join,
            row_id,
            now,
            exclusion_ids,
            priority_ids,
        ),
        EventView::LeaveAll { user_id, .. } => after_leave_all(
            rows,
            config,
            user_id,
            now,
            exclusion_ids,
            priority_ids,
        ),
        EventView::LeaveAlts { user_id, .. } => after_leave_alts(
            rows,
            config,
            user_id,
            now,
            exclusion_ids,
            priority_ids,
        ),
        EventView::AddSp { user_id, sp, .. } => with_extra_sp(rows, user_id, sp),
        EventView::ChangeSp { user_id, sp, .. } => with_active_sp(rows, user_id, sp),
    }
}

/// The report for the event.
pub open spec fn ack_of(
    rows: Seq<ParticipantView>,
    config: CapacityView,
    event: EventView,
    row_id: u128,
    now: i64,
    exclusion_ids: Seq<i64>,
    priority_ids: Seq<i64>,
) -> AckPayload {
    match event {
        EventView::Join { join, .. } => {
            let rules = rules_at(config, exclusion_ids, priority_ids, now);
            if join_accepted(rows, arriving_row(rows, config, join, row_id, now, rules)) {
                AckPayload::success()
            } else {
                AckPayload::failure()
            }
        },
        EventView::LeaveAll { user_id, .. } => AckPayload {
            ok: true,
            removed_main: Some(
                (user_row_count(rows, user_id) - user_alt_count(rows, user_id)) as u64,
            ),
            removed_alts: Some(user_alt_count(rows, user_id) as u64),
        },
        EventView::LeaveAlts { user_id, .. } => AckPayload {
            ok: true,
            removed_main: None,
            removed_alts: Some(user_alt_count(rows, user_id) as u64),
        },
        EventView::AddSp { .. } => AckPayload::success(),
        EventView::ChangeSp { user_id, .. } => if has_primary(rows, user_id) {
            AckPayload::success()
        } else {
            AckPayload::failure()
        },
    }
}

/// Applies one event to the roster of its raid. `row_id` is the identifier
/// for the row that a join may add, and `now` the clock.
pub fn apply_event(
    roster: &mut Roster,
    config: &CapacityConfig,
    event: RaidEvent,
    row_id: u128,
    now: i64,
    exclusion_ids: &Vec<i64>,
    priority_ids: &Vec<i64>,
) -> (done: Applied)
    ensures
        final(roster)@ == after_event(
            old(roster)@,
            config@,
            event@,
            row_id,
            now,
            exclusion_ids@,
            priority_ids@,
        ),
        done.ack == ack_of(
            old(roster)@,
            config@,
            event@,
            row_id,
            now,
            exclusion_ids@,
            priority_ids@,
        ),
{
    match event {
        RaidEvent::Join { raid_id, guild_id, user_id, joined_as, main_now, tag_suffix, is_alt } => {
            handle_join(
                roster,
                config,
                user_id,
                joined_as,
                main_now,
                tag_suffix,
                is_alt,
                row_id,
                now,
                exclusion_ids,
                priority_ids,
            )
        },
        RaidEvent::LeaveAll { raid_id, guild_id, user_id } => handle_leave_all(
            roster,
            config,
            user_id,
            now,
            exclusion_ids,
            priority_ids,
        ),
        RaidEvent::LeaveAlts { raid_id, guild_id, user_id } => handle_leave_alts(
            roster,
            config,
            user_id,
            now,
            exclusion_ids,
            priority_ids,
        ),
        RaidEvent::AddSp { raid_id, guild_id, user_id, sp } => handle_add_sp(roster, user_id, sp),
        RaidEvent::ChangeSp { raid_id, guild_id, user_id, sp } => handle_change_sp(
            roster,
            user_id,
            sp,
        ),
    }
}

/// Applies one event, drawing a fresh identifier for the row that a join
/// may add. Says what was done and which identifier was drawn.
pub fn apply_event_with_fresh_id(
    roster: &mut Roster,
    config: &CapacityConfig,
    event: RaidEvent,
    now: i64,
    exclusion_ids: &Vec<i64>,
    priority_ids: &Vec<i64>,
) -> (done: (Applied, u128))
    ensures
        ({
            let (applied, row_id) = done;
            &&& final(roster)@ == after_event(
                old(roster)@,
                config@,
                event@,
                row_id,
                now,
                exclusion_ids@,
                priority_ids@,
            )
            &&& applied.ack == ack_of(
                old(roster)@,
                config@,
                event@,
                row_id,
                now,
                exclusion_ids@,
                priority_ids@,
            )
        }),
{
    let row_id = crate::ids::fresh_id();
    let applied = apply_event(roster, config, event, row_id, now, exclusion_ids, priority_ids);
    (applied, row_id)
}

} // verus!
