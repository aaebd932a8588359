//! What holds when events are applied one after another in log order.

use crate::counting::{
    lemma_count_filter_le, lemma_count_push, lemma_count_update, lemma_count_zero, lemma_filter_all,
    lemma_filter_keeps_order,
};
use crate::labels::law_relabel_is_idempotent;
use crate::models::{
    alt_main_count, alt_stored, has_primary, holds_alt_main, holds_main, id_in_use, lists_name,
    main_count, primary_at, primary_index, roster_wf, CapacityView, ParticipantView, RowFilter,
};
use crate::promotion::{
    anyone_waits, first_in_line, free_main, hand_out, law_capacity_respected, law_promotion_settles,
    lemma_head_is, promoted, promotion_plan, rules_at, seat_at, waits, Rules,
};
use crate::queue::{
    after_event, after_join, arriving_row, join_accepted, join_stored, EventView, JoinView,
};
use crate::text::same_ignoring_case;
use vstd::prelude::*;

verus! {

/// Seating rows keeps the roster well formed.
pub proof fn lemma_promoted_wf(rows: Seq<ParticipantView>, plan: Seq<u128>)
    requires
        roster_wf(rows),
    ensures
        roster_wf(promoted(rows, plan)),
        promoted(rows, plan).len() == rows.len(),
        forall|i: int|
            0 <= i < rows.len() ==> {
                &&& (#[trigger] promoted(rows, plan)[i]).id == rows[i].id
                &&& promoted(rows, plan)[i].user_id == rows[i].user_id
                &&& promoted(rows, plan)[i].is_alt == rows[i].is_alt
                &&& promoted(rows, plan)[i].joined_as == rows[i].joined_as
                &&& promoted(rows, plan)[i].tag_suffix == rows[i].tag_suffix
                &&& promoted(rows, plan)[i].joined_at == rows[i].joined_at
            },
{
}

/// Storing a row that the store takes keeps the roster well formed.
pub proof fn lemma_join_stored_wf(rows: Seq<ParticipantView>, row: ParticipantView)
    requires
        roster_wf(rows),
        join_accepted(rows, row),
    ensures
        roster_wf(join_stored(rows, row)),
        !row.is_alt ==> exists|i: int|
            primary_at(join_stored(rows, row), i, row.user_id) && join_stored(
                rows,
                row,
            )[i].joined_as == row.joined_as && join_stored(rows, row)[i].tag_suffix
                == row.tag_suffix,
{
    let stored = join_stored(rows, row);
    if !row.is_alt && has_primary(rows, row.user_id) {
        let i = primary_index(rows, row.user_id);
        assert(primary_at(rows, i, row.user_id));
        assert(primary_at(stored, i, row.user_id));
    } else if row.is_alt && id_in_use(rows, row.id) {
    } else {
        assert(stored =~= rows.push(row));
        assert forall|a: int, b: int| 0 <= a < b < stored.len() implies stored[a].id
            != stored[b].id by {
            if b == rows.len() {
                assert(rows[a].id != row.id);
            }
        }
        assert forall|a: int, b: int|
            0 <= a < b < stored.len() && !stored[a].is_alt
                && !stored[b].is_alt implies stored[a].user_id != stored[b].user_id by {
            if b == rows.len() {
                assert(!primary_at(rows, a, row.user_id));
            }
        }
        if !row.is_alt {
            assert(primary_at(stored, rows.len() as int, row.user_id));
        }
    }
}

/// Applying a primary join a second time changes nothing: the user keeps
/// exactly one primary row, and every row keeps the seat it had after the
/// first application. The second application may come with another row
/// identifier; it meets the same rules as the first.
pub proof fn law_join_is_idempotent(
    rows: Seq<ParticipantView>,
    config: CapacityView,
    join: JoinView,
    first_id: u128,
    second_id: u128,
    now: i64,
    exclusion_ids: Seq<i64>,
    priority_ids: Seq<i64>,
)
    requires
        roster_wf(rows),
        !join.is_alt,
        join_accepted(
            rows,
            arriving_row(
                rows,
                config,
                join,
                first_id,
                now,
                rules_at(config, exclusion_ids, priority_ids, now),
            ),
        ),
    ensures
        ({
            let once = after_join(rows, config, join, first_id, now, exclusion_ids, priority_ids);
            let twice = after_join(
                once,
                config,
                join,
                second_id,
                now,
                exclusion_ids,
                priority_ids,
            );
            &&& twice == once
            &&& roster_wf(once)
            &&& has_primary(once, join.user_id)
            &&& forall|i: int, j: int|
                primary_at(once, i, join.user_id) && primary_at(once, j, join.user_id) ==> i
                    == j
        }),
{
    let rules = rules_at(config, exclusion_ids, priority_ids, now);
    let row1 = arriving_row(rows, config, join, first_id, now, rules);
    let stored1 = join_stored(rows, row1);
    lemma_join_stored_wf(rows, row1);
    let plan1 = promotion_plan(stored1, config, exclusion_ids, priority_ids, now);
    let once = after_join(rows, config, join, first_id, now, exclusion_ids, priority_ids);
    assert(once == promoted(stored1, plan1));
    lemma_promoted_wf(stored1, plan1);
    let w = choose|i: int|
        primary_at(stored1, i, join.user_id) && stored1[i].joined_as == join.joined_as
            && stored1[i].tag_suffix == join.tag_suffix;
    assert(primary_at(once, w, join.user_id));
    assert forall|i: int, j: int|
        primary_at(once, i, join.user_id) && primary_at(once, j, join.user_id) implies i
        == j by {
        if i < j {
            assert(once[i].user_id != once[j].user_id);
        } else if j < i {
            assert(once[j].user_id != once[i].user_id);
        }
    }
    let row2 = arriving_row(once, config, join, second_id, now, rules);
    assert(join_accepted(once, row2));
    let c = primary_index(once, join.user_id);
    assert(primary_at(once, c, join.user_id));
    assert(c == w);
    let stored2 = join_stored(once, row2);
    assert(stored2 =~= once);
    law_promotion_settles(stored1, config, exclusion_ids, priority_ids, now);
    assert(promoted(once, Seq::<u128>::empty()) =~= once);
}

/// One join of a run: what is asked, the row identifier that the store
/// draws for it, and the clock when it is applied.
pub struct JoinStep {
    pub join: JoinView,
    pub row_id: u128,
    pub now: i64,
}

/// The rows after the joins were applied in log order.
pub open spec fn after_joins(
    rows: Seq<ParticipantView>,
    config: CapacityView,
    steps: Seq<JoinStep>,
    exclusion_ids: Seq<i64>,
    priority_ids: Seq<i64>,
) -> Seq<ParticipantView>
    decreases steps.len(),
{
    if steps.len() == 0 {
        rows
    } else {
        let last = steps.last();
        after_join(
            after_joins(rows, config, steps.drop_last(), exclusion_ids, priority_ids),
            config,
            last.join,
            last.row_id,
            last.now,
            exclusion_ids,
            priority_ids,
        )
    }
}

/// The rules let the user through.
pub open spec fn passes(user_id: i64, rules: Rules) -> bool {
    &&& !rules.excluded.contains(user_id)
    &&& rules.window_open ==> rules.priority.contains(user_id)
}

/// Primary joins of distinct users, each with a fresh row identifier, all
/// applied on the same side of the priority window.
pub open spec fn concurrent_joins(
    steps: Seq<JoinStep>,
    config: CapacityView,
    window_open: bool,
) -> bool {
    &&& forall|k: int| 0 <= k < steps.len() ==> !(#[trigger] steps[k]).join.is_alt
    &&& forall|k: int|
        0 <= k < steps.len() ==> config.window_open((#[trigger] steps[k]).now) == window_open
    &&& forall|a: int, b: int|
        0 <= a < b < steps.len() ==> (#[trigger] steps[a]).join.user_id != (
        #[trigger] steps[b]).join.user_id
    &&& forall|a: int, b: int|
        0 <= a < b < steps.len() ==> (#[trigger] steps[a]).row_id != (#[trigger] steps[b]).row_id
}

/// Step `k` is the first whose user the rules let through.
pub open spec fn first_through(steps: Seq<JoinStep>, k: int, rules: Rules) -> bool {
    &&& 0 <= k < steps.len()
    &&& passes(steps[k].join.user_id, rules)
    &&& forall|j: int| 0 <= j < k ==> !passes((#[trigger] steps[j]).join.user_id, rules)
}

/// With one main seat and an empty roster to start from, joins of distinct
/// users that are applied in log order leave one row per join, in log
/// order, and the seat goes to the first user in the log whom the rules let
/// through, and to nobody else: whatever each join asked for, and whatever
/// row identifiers and clock readings the store drew.
pub proof fn law_first_in_log_wins(
    config: CapacityView,
    steps: Seq<JoinStep>,
    exclusion_ids: Seq<i64>,
    priority_ids: Seq<i64>,
    window_open: bool,
)
    requires
        config.max_mains == 1,
        concurrent_joins(steps, config, window_open),
    ensures
        ({
            let rows = after_joins(
                Seq::<ParticipantView>::empty(),
                config,
                steps,
                exclusion_ids,
                priority_ids,
            );
            let rules = Rules { excluded: exclusion_ids, priority: priority_ids, window_open };
            &&& rows.len() == steps.len()
            &&& roster_wf(rows)
            &&& forall|k: int|
                0 <= k < steps.len() ==> {
                    &&& (#[trigger] rows[k]).id == steps[k].row_id
                    &&& rows[k].user_id == steps[k].join.user_id
                    &&& !rows[k].is_alt
                    &&& rows[k].is_main == first_through(steps, k, rules)
                }
            &&& main_count(rows) <= 1
        }),
    decreases steps.len(),
{
    let rules = Rules { excluded: exclusion_ids, priority: priority_ids, window_open };
    let rows = after_joins(
        Seq::<ParticipantView>::empty(),
        config,
        steps,
        exclusion_ids,
        priority_ids,
    );
    if steps.len() == 0 {
        crate::counting::lemma_count_empty(holds_main());
        assert(rows =~= Seq::<ParticipantView>::empty());
    } else {
        let n = steps.len() - 1;
        let front = steps.drop_last();
        let last = steps.last();
        assert forall|k: int| 0 <= k < front.len() implies front[k] == steps[k] by {}
        assert(concurrent_joins(front, config, window_open));
        law_first_in_log_wins(config, front, exclusion_ids, priority_ids, window_open);
        let prev = after_joins(
            Seq::<ParticipantView>::empty(),
            config,
            front,
            exclusion_ids,
            priority_ids,
        );
        assert forall|k: int| 0 <= k < n implies first_through(front, k, rules) == first_through(
            steps,
            k,
            rules,
        ) by {
            assert forall|j: int| 0 <= j < k implies front[j] == steps[j] by {}
        }
        assert(rules_at(config, exclusion_ids, priority_ids, last.now) == rules);
        let row = arriving_row(prev, config, last.join, last.row_id, last.now, rules);
        // The store takes the row: the user is new and so is the identifier.
        assert(!has_primary(prev, last.join.user_id)) by {
            if has_primary(prev, last.join.user_id) {
                let i = choose|i: int| primary_at(prev, i, last.join.user_id);
                assert(steps[i].join.user_id != steps[n].join.user_id);
            }
        }
        assert(!id_in_use(prev, last.row_id)) by {
            if id_in_use(prev, last.row_id) {
                let i = choose|i: int|
                    0 <= i < prev.len() && (#[trigger] prev[i]).id == last.row_id;
                assert(steps[i].row_id != steps[n].row_id);
            }
        }
        let stored = join_stored(prev, row);
        assert(stored =~= prev.push(row));
        lemma_join_stored_wf(prev, row);
        lemma_count_push(prev, row, holds_main());
        lemma_count_zero(prev, holds_main());
        let someone_before = exists|j: int| 0 <= j < n && first_through(steps, j, rules);
        let plan = promotion_plan(stored, config, exclusion_ids, priority_ids, last.now);
        assert(rows == promoted(stored, plan));
        if someone_before {
            let j = choose|j: int| 0 <= j < n && first_through(steps, j, rules);
            assert(prev[j].is_main);
            assert(main_count(prev) == 1);
            assert(!row.is_main);
            assert(free_main(stored, config) == 0);
            assert(plan =~= Seq::<u128>::empty());
            assert(rows =~= stored);
            assert(!first_through(steps, n, rules)) by {
                assert(passes(steps[j].join.user_id, rules));
            }
        } else {
            assert forall|j: int| 0 <= j < n implies !passes(
                (#[trigger] steps[j]).join.user_id,
                rules,
            ) by {
                lemma_nobody_through(steps, j, rules);
            }
            assert(main_count(prev) == 0);
            assert(first_through(steps, n, rules) == passes(last.join.user_id, rules));
            if row.is_main {
                assert(free_main(stored, config) == 0);
                assert(plan =~= Seq::<u128>::empty());
                assert(rows =~= stored);
            } else if passes(last.join.user_id, rules) {
                assert(free_main(stored, config) == 1);
                assert(waits(stored, n, false, rules));
                assert forall|j: int| j != n && waits(stored, j, false, rules) implies false by {
                    assert(stored[j] == prev[j]);
                    assert(!passes(steps[j].join.user_id, rules));
                }
                assert(first_in_line(stored, n, false, rules));
                lemma_head_is(stored, n, false, rules);
                let tail = hand_out(
                    seat_at(stored, n),
                    0,
                    crate::promotion::free_alt_main(stored, config),
                    rules,
                );
                assert(tail =~= Seq::<u128>::empty());
                assert(plan =~= seq![row.id]);
                assert(plan[0] == row.id);
                assert forall|k: int| 0 <= k < stored.len() implies (#[trigger] rows[k])
                    == if k == n {
                    stored[k].seated()
                } else {
                    stored[k]
                } by {
                    if k != n {
                        assert(stored[k].id != stored[n].id);
                        assert(!plan.contains(stored[k].id));
                    } else {
                        assert(plan.contains(stored[k].id));
                    }
                }
                assert(rows =~= seat_at(stored, n));
                lemma_count_update_main(stored, n);
            } else {
                assert(!anyone_waits(stored, false, rules)) by {
                    if anyone_waits(stored, false, rules) {
                        let j = choose|j: int| waits(stored, j, false, rules);
                        if j < n {
                            assert(stored[j] == prev[j]);
                            assert(!passes(steps[j].join.user_id, rules));
                        }
                    }
                }
                assert(!anyone_waits(stored, true, rules)) by {
                    if anyone_waits(stored, true, rules) {
                        let j = choose|j: int| waits(stored, j, true, rules);
                        if j < n {
                            assert(stored[j] == prev[j]);
                        }
                    }
                }
                assert(plan =~= Seq::<u128>::empty());
                assert(rows =~= stored);
            }
        }
    }
}

proof fn lemma_nobody_through(steps: Seq<JoinStep>, j: int, rules: Rules)
    requires
        0 <= j < steps.len(),
        forall|k: int| 0 <= k <= j ==> !first_through(steps, k, rules),
    ensures
        !passes(steps[j].join.user_id, rules),
    decreases j,
{
    if passes(steps[j].join.user_id, rules) {
        assert forall|i: int| 0 <= i < j implies !passes(
            (#[trigger] steps[i]).join.user_id,
            rules,
        ) by {
            lemma_nobody_through(steps, i, rules);
        }
        assert(first_through(steps, j, rules));
    }
}

proof fn lemma_count_update_main(rows: Seq<ParticipantView>, i: int)
    requires
        0 <= i < rows.len(),
        !rows[i].is_main,
    ensures
        main_count(seat_at(rows, i)) == main_count(rows) + 1,
{
    crate::counting::lemma_count_update(rows, i, rows[i].seated(), holds_main());
}

/// The main seats and the alt main seats are within what the raid allows.
pub open spec fn within_capacity(rows: Seq<ParticipantView>, config: CapacityView) -> bool {
    &&& main_count(rows) <= config.max_mains
    &&& alt_main_count(rows) <= config.max_alt_mains
}

/// What a filter leaves of a roster is a roster.
pub proof fn lemma_filter_wf(rows: Seq<ParticipantView>, keep: spec_fn(ParticipantView) -> bool)
    requires
        roster_wf(rows),
    ensures
        roster_wf(rows.filter(keep)),
{
    let origin = lemma_filter_keeps_order(rows, keep);
    let left = rows.filter(keep);
    assert forall|a: int, b: int| 0 <= a < b < left.len() implies left[a].id != left[b].id by {
        assert(origin[a] < origin[b]);
    }
    assert forall|a: int, b: int|
        0 <= a < b < left.len() && !left[a].is_alt && !left[b].is_alt implies left[a].user_id
        != left[b].user_id by {
        assert(origin[a] < origin[b]);
    }
}

/// Rewriting the label or the specialists of a row changes neither the
/// shape of the roster nor its seats.
proof fn lemma_rewrite_keeps_seats(rows: Seq<ParticipantView>, i: int, row: ParticipantView)
    requires
        roster_wf(rows),
        0 <= i < rows.len(),
        row.id == rows[i].id,
        row.user_id == rows[i].user_id,
        row.is_alt == rows[i].is_alt,
        row.is_main == rows[i].is_main,
    ensures
        roster_wf(rows.update(i, row)),
        main_count(rows.update(i, row)) == main_count(rows),
        alt_main_count(rows.update(i, row)) == alt_main_count(rows),
{
    let now = rows.update(i, row);
    assert forall|a: int, b: int| 0 <= a < b < now.len() implies now[a].id != now[b].id by {
        assert(rows[a].id != rows[b].id);
    }
    assert forall|a: int, b: int|
        0 <= a < b < now.len() && !now[a].is_alt && !now[b].is_alt implies now[a].user_id
        != now[b].user_id by {
        assert(rows[a].user_id != rows[b].user_id);
    }
    lemma_count_update(rows, i, row, holds_main());
    lemma_count_update(rows, i, row, holds_alt_main());
}

/// Whatever event is applied, the roster stays a roster: no identifier
/// twice, no user with two primary rows. And where the seats were within
/// the capacity before the event, they are within it afterwards.
pub proof fn law_events_keep_the_roster_sound(
    rows: Seq<ParticipantView>,
    config: CapacityView,
    event: EventView,
    row_id: u128,
    now: i64,
    exclusion_ids: Seq<i64>,
    priority_ids: Seq<i64>,
)
    requires
        roster_wf(rows),
    ensures
        roster_wf(after_event(rows, config, event, row_id, now, exclusion_ids, priority_ids)),
        within_capacity(rows, config) ==> within_capacity(
            after_event(rows, config, event, row_id, now, exclusion_ids, priority_ids),
            config,
        ),
{
    let rules = rules_at(config, exclusion_ids, priority_ids, now);
    match event {
        EventView::Join { join, .. } => {
            let row = arriving_row(rows, config, join, row_id, now, rules);
            if join_accepted(rows, row) {
                let stored = join_stored(rows, row);
                lemma_join_stored_wf(rows, row);
                if !row.is_alt && has_primary(rows, row.user_id) {
                    let i = primary_index(rows, row.user_id);
                    assert(primary_at(rows, i, row.user_id));
                    lemma_rewrite_keeps_seats(
                        rows,
                        i,
                        ParticipantView {
                            joined_as: row.joined_as,
                            tag_suffix: row.tag_suffix,
                            ..rows[i]
                        },
                    );
                } else if row.is_alt && id_in_use(rows, row.id) {
                } else {
                    assert(stored =~= rows.push(row));
                    lemma_count_push(rows, row, holds_main());
                    lemma_count_push(rows, row, holds_alt_main());
                }
                law_capacity_respected(stored, config, exclusion_ids, priority_ids, now);
                lemma_promoted_wf(
                    stored,
                    promotion_plan(stored, config, exclusion_ids, priority_ids, now),
                );
            }
        },
        EventView::LeaveAll { user_id, .. } => {
            let keep = RowFilter::User(user_id).left();
            let left = rows.filter(keep);
            lemma_filter_wf(rows, keep);
            lemma_count_filter_le(rows, keep, holds_main());
            lemma_count_filter_le(rows, keep, holds_alt_main());
            law_capacity_respected(left, config, exclusion_ids, priority_ids, now);
            lemma_promoted_wf(left, promotion_plan(left, config, exclusion_ids, priority_ids, now));
        },
        EventView::LeaveAlts { user_id, .. } => {
            let keep = RowFilter::UserAlts(user_id).left();
            let left = rows.filter(keep);
            lemma_filter_wf(rows, keep);
            lemma_count_filter_le(rows, keep, holds_main());
            lemma_count_filter_le(rows, keep, holds_alt_main());
            law_capacity_respected(left, config, exclusion_ids, priority_ids, now);
            lemma_promoted_wf(left, promotion_plan(left, config, exclusion_ids, priority_ids, now));
        },
        EventView::AddSp { user_id, sp, .. } => {
            if has_primary(rows, user_id) && !lists_name(
                rows[primary_index(rows, user_id)].extra_sps,
                sp,
            ) {
                let i = primary_index(rows, user_id);
                assert(primary_at(rows, i, user_id));
                lemma_rewrite_keeps_seats(
                    rows,
                    i,
                    ParticipantView { extra_sps: rows[i].extra_sps.push(sp), ..rows[i] },
                );
            }
        },
        EventView::ChangeSp { user_id, sp, .. } => {
            if has_primary(rows, user_id) {
                let i = primary_index(rows, user_id);
                assert(primary_at(rows, i, user_id));
                lemma_rewrite_keeps_seats(
                    rows,
                    i,
                    ParticipantView {
                        joined_as: crate::labels::label_of(
                            crate::labels::class_of(rows[i].joined_as),
                            sp,
                        ),
                        ..rows[i]
                    },
                );
            }
        },
    }
}

/// After a run of the engine on what a filter left, the filter finds
/// nothing more to take: seats change, users and kinds of rows do not.
proof fn lemma_left_stays_left(
    rows: Seq<ParticipantView>,
    which: RowFilter,
    plan: Seq<u128>,
)
    requires
        which is User || which is UserAlts,
    ensures
        promoted(rows.filter(which.left()), plan).filter(which.left()) == promoted(
            rows.filter(which.left()),
            plan,
        ),
{
    let left = rows.filter(which.left());
    let after = promoted(left, plan);
    assert forall|i: int| 0 <= i < after.len() implies (which.left())(#[trigger] after[i]) by {
        rows.lemma_filter_pred(which.left(), i);
        assert(after[i].user_id == left[i].user_id && after[i].is_alt == left[i].is_alt);
    }
    lemma_filter_all(after, which.left());
}

/// An event that is delivered a second time changes nothing. The stream
/// delivers every event at least once, and more than once where a consumer
/// stops between applying an event and acknowledging it: whatever the
/// event, applying it again, with the row identifier and the clock of the
/// first time and the same users held back, leaves every row as the first
/// application left it.
pub proof fn law_redelivery_changes_nothing(
    rows: Seq<ParticipantView>,
    config: CapacityView,
    event: EventView,
    row_id: u128,
    now: i64,
    exclusion_ids: Seq<i64>,
    priority_ids: Seq<i64>,
)
    requires
        roster_wf(rows),
    ensures
        ({
            let once = after_event(rows, config, event, row_id, now, exclusion_ids, priority_ids);
            after_event(once, config, event, row_id, now, exclusion_ids, priority_ids) == once
        }),
{
    let rules = rules_at(config, exclusion_ids, priority_ids, now);
    let once = after_event(rows, config, event, row_id, now, exclusion_ids, priority_ids);
    law_events_keep_the_roster_sound(
        rows,
        config,
        event,
        row_id,
        now,
        exclusion_ids,
        priority_ids,
    );
    match event {
        EventView::Join { join, .. } => {
            let row = arriving_row(rows, config, join, row_id, now, rules);
            if !join_accepted(rows, row) {
                // Refused the first time, and for the same reason the second.
                let again = arriving_row(once, config, join, row_id, now, rules);
                assert(!join_accepted(once, again));
            } else if !join.is_alt {
                law_join_is_idempotent(
                    rows,
                    config,
                    join,
                    row_id,
                    row_id,
                    now,
                    exclusion_ids,
                    priority_ids,
                );
            } else {
                let stored = join_stored(rows, row);
                let plan = promotion_plan(stored, config, exclusion_ids, priority_ids, now);
                lemma_join_stored_wf(rows, row);
                lemma_promoted_wf(stored, plan);
                // The row stands in the roster, as an alt row of the user.
                let at = if id_in_use(rows, row_id) {
                    choose|i: int|
                        0 <= i < rows.len() && (#[trigger] rows[i]).id == row.id
                            && rows[i].user_id == row.user_id && rows[i].is_alt
                } else {
                    rows.len() as int
                };
                assert(stored[at].id == row_id && stored[at].user_id == join.user_id
                    && stored[at].is_alt);
                assert(once[at].id == row_id && once[at].user_id == join.user_id
                    && once[at].is_alt);
                let again = arriving_row(once, config, join, row_id, now, rules);
                assert(alt_stored(once, again));
                assert(join_stored(once, again) == once);
                law_promotion_settles(stored, config, exclusion_ids, priority_ids, now);
                assert(promoted(once, Seq::<u128>::empty()) =~= once);
            }
        },
        EventView::LeaveAll { user_id, .. } => {
            let which = RowFilter::User(user_id);
            let left = rows.filter(which.left());
            lemma_filter_wf(rows, which.left());
            lemma_left_stays_left(
                rows,
                which,
                promotion_plan(left, config, exclusion_ids, priority_ids, now),
            );
            law_promotion_settles(left, config, exclusion_ids, priority_ids, now);
            assert(promoted(once, Seq::<u128>::empty()) =~= once);
        },
        EventView::LeaveAlts { user_id, .. } => {
            let which = RowFilter::UserAlts(user_id);
            let left = rows.filter(which.left());
            lemma_filter_wf(rows, which.left());
            lemma_left_stays_left(
                rows,
                which,
                promotion_plan(left, config, exclusion_ids, priority_ids, now),
            );
            law_promotion_settles(left, config, exclusion_ids, priority_ids, now);
            assert(promoted(once, Seq::<u128>::empty()) =~= once);
        },
        EventView::AddSp { user_id, sp, .. } => {
            if has_primary(rows, user_id) {
                let i = primary_index(rows, user_id);
                assert(primary_at(rows, i, user_id));
                assert(primary_at(once, i, user_id));
                lemma_primary_is_at(once, i, user_id);
                if !lists_name(rows[i].extra_sps, sp) {
                    let listed = once[i].extra_sps;
                    assert(listed[listed.len() - 1] == sp);
                    assert(same_ignoring_case(sp, sp));
                    assert(lists_name(listed, sp));
                }
            } else {
                assert(once == rows);
            }
        },
        EventView::ChangeSp { user_id, sp, .. } => {
            if has_primary(rows, user_id) {
                let i = primary_index(rows, user_id);
                assert(primary_at(rows, i, user_id));
                assert(primary_at(once, i, user_id));
                lemma_primary_is_at(once, i, user_id);
                law_relabel_is_idempotent(rows[i].joined_as, sp);
                assert(once.update(
                    i,
                    ParticipantView {
                        joined_as: crate::labels::label_of(
                            crate::labels::class_of(once[i].joined_as),
                            sp,
                        ),
                        ..once[i]
                    },
                ) =~= once);
            } else {
                assert(once == rows);
            }
        },
    }
}

/// Where a user's primary row stands, there and nowhere else.
proof fn lemma_primary_is_at(rows: Seq<ParticipantView>, i: int, user_id: i64)
    requires
        roster_wf(rows),
        primary_at(rows, i, user_id),
    ensures
        has_primary(rows, user_id),
        primary_index(rows, user_id) == i,
{
    let c = primary_index(rows, user_id);
    assert(primary_at(rows, c, user_id));
    if c < i {
        assert(rows[c].user_id != rows[i].user_id);
    } else if i < c {
        assert(rows[i].user_id != rows[c].user_id);
    }
}

} // verus!
