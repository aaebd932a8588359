//! The promotion engine: who moves from reserve to a main seat.
//!
//! Free main seats are handed out one at a time. The next seat goes to the
//! eligible primary (non-alt) reserve that arrived first; once no primary
//! reserve is eligible, it goes to the eligible alt reserve that arrived
//! first, as long as the alt sub-quota has room. Nobody is ever moved from a
//! main seat back to reserve.

use crate::counting::lemma_count_update;
use crate::models::{
    alt_main_count, distinct_ids, holds_alt_main, holds_main, main_count, roster_wf, CapacityConfig,
    CapacityView, ParticipantView, RaidParticipant,
};
use crate::roster::Roster;
use vstd::prelude::*;

verus! {

/// Who may be promoted in one run of the engine.
pub struct Rules {
    /// Users who must never be given a main seat.
    pub excluded: Seq<i64>,
    /// Users who hold a priority role.
    pub priority: Seq<i64>,
    /// Whether the priority window is open.
    pub window_open: bool,
}

/// Main seats still free.
pub open spec fn free_main(rows: Seq<ParticipantView>, config: CapacityView) -> nat {
    if config.max_mains > main_count(rows) {
        (config.max_mains - main_count(rows)) as nat
    } else {
        0
    }
}

/// Main seats that alt rows may still take under the alt sub-quota.
pub open spec fn free_alt_main(rows: Seq<ParticipantView>, config: CapacityView) -> nat {
    if config.max_alt_mains > alt_main_count(rows) {
        (config.max_alt_mains - alt_main_count(rows)) as nat
    } else {
        0
    }
}

/// A reserve may be promoted unless its user is excluded or, while the
/// priority window is open, lacks a priority role.
pub open spec fn eligible(e: ParticipantView, rules: Rules) -> bool {
    &&& !e.is_main
    &&& !rules.excluded.contains(e.user_id)
    &&& rules.window_open ==> rules.priority.contains(e.user_id)
}

/// Arrival order: by creation time, and by row identifier among rows created
/// at the same time.
pub open spec fn arrives_before(a: ParticipantView, b: ParticipantView) -> bool {
    a.joined_at < b.joined_at || (a.joined_at == b.joined_at && a.id < b.id)
}

/// Row `i` is an eligible reserve of the given kind.
pub open spec fn waits(rows: Seq<ParticipantView>, i: int, alt: bool, rules: Rules) -> bool {
    &&& 0 <= i < rows.len()
    &&& rows[i].is_alt == alt
    &&& eligible(rows[i], rules)
}

pub open spec fn anyone_waits(rows: Seq<ParticipantView>, alt: bool, rules: Rules) -> bool {
    exists|i: int| waits(rows, i, alt, rules)
}

/// Row `i` waits and arrived before every other waiting row of its kind.
pub open spec fn first_in_line(
    rows: Seq<ParticipantView>,
    i: int,
    alt: bool,
    rules: Rules,
) -> bool {
    &&& waits(rows, i, alt, rules)
    &&& forall|j: int| j != i && waits(rows, j, alt, rules) ==> arrives_before(rows[i], rows[j])
}

/// The row at the head of the line of its kind.
pub open spec fn head_of_line(rows: Seq<ParticipantView>, alt: bool, rules: Rules) -> int {
    choose|i: int| first_in_line(rows, i, alt, rules)
}

/// The rows after row `i` was given a main seat.
pub open spec fn seat_at(rows: Seq<ParticipantView>, i: int) -> Seq<ParticipantView> {
    rows.update(i, rows[i].seated())
}

/// The identifiers of the rows that receive the `seats` free main seats, in
/// the order in which the seats are handed out; at most `alt_seats` of them
/// go to alt rows.
pub open spec fn hand_out(
    rows: Seq<ParticipantView>,
    seats: nat,
    alt_seats: nat,
    rules: Rules,
) -> Seq<u128>
    decreases seats,
{
    if seats == 0 {
        Seq::empty()
    } else if anyone_waits(rows, false, rules) {
        let i = head_of_line(rows, false, rules);
        seq![rows[i].id] + hand_out(seat_at(rows, i), (seats - 1) as nat, alt_seats, rules)
    } else if alt_seats > 0 && anyone_waits(rows, true, rules) {
        let i = head_of_line(rows, true, rules);
        seq![rows[i].id] + hand_out(
            seat_at(rows, i),
            (seats - 1) as nat,
            (alt_seats - 1) as nat,
            rules,
        )
    } else {
        Seq::empty()
    }
}

/// The rules of a run at `now`.
pub open spec fn rules_at(
    config: CapacityView,
    exclusion_ids: Seq<i64>,
    priority_ids: Seq<i64>,
    now: i64,
) -> Rules {
    Rules { excluded: exclusion_ids, priority: priority_ids, window_open: config.window_open(now) }
}

/// The identifiers of the rows that one run of the engine moves from reserve
/// to main, in promotion order.
pub open spec fn promotion_plan(
    rows: Seq<ParticipantView>,
    config: CapacityView,
    exclusion_ids: Seq<i64>,
    priority_ids: Seq<i64>,
    now: i64,
) -> Seq<u128> {
    hand_out(
        rows,
        free_main(rows, config),
        free_alt_main(rows, config),
        rules_at(config, exclusion_ids, priority_ids, now),
    )
}

/// At most one row is first in line.
pub proof fn lemma_first_in_line_unique(
    rows: Seq<ParticipantView>,
    i: int,
    j: int,
    alt: bool,
    rules: Rules,
)
    requires
        first_in_line(rows, i, alt, rules),
        first_in_line(rows, j, alt, rules),
    ensures
        i == j,
{
    if i != j {
        assert(arrives_before(rows[i], rows[j]));
        assert(arrives_before(rows[j], rows[i]));
    }
}

/// Where a row is first in line, it is the head of the line.
pub proof fn lemma_head_is(rows: Seq<ParticipantView>, i: int, alt: bool, rules: Rules)
    requires
        first_in_line(rows, i, alt, rules),
    ensures
        anyone_waits(rows, alt, rules),
        head_of_line(rows, alt, rules) == i,
{
    assert(waits(rows, i, alt, rules));
    lemma_first_in_line_unique(rows, i, head_of_line(rows, alt, rules), alt, rules);
}

/// The rows after the listed rows were given a main seat: one conditional
/// update per row.
pub open spec fn promoted(rows: Seq<ParticipantView>, plan: Seq<u128>) -> Seq<ParticipantView> {
    rows.map_values(
        |e: ParticipantView|
            if plan.contains(e.id) {
                e.seated()
            } else {
                e
            },
    )
}

/// The rows after one run of the engine.
pub open spec fn after_promotion(
    rows: Seq<ParticipantView>,
    config: CapacityView,
    exclusion_ids: Seq<i64>,
    priority_ids: Seq<i64>,
    now: i64,
) -> Seq<ParticipantView> {
    promoted(rows, promotion_plan(rows, config, exclusion_ids, priority_ids, now))
}

/// Every listed identifier is that of an eligible reserve.
pub open spec fn all_eligible(rows: Seq<ParticipantView>, plan: Seq<u128>, rules: Rules) -> bool {
    forall|k: int|
        0 <= k < plan.len() ==> exists|j: int|
            0 <= j < rows.len() && (#[trigger] rows[j]).id == #[trigger] plan[k] && eligible(
                rows[j],
                rules,
            )
}

/// Nothing is left to hand out: the seats are used up, or no primary
/// reserve is eligible and either the alt seats are used up or no alt
/// reserve is eligible.
pub open spec fn settled(
    rows: Seq<ParticipantView>,
    seats_left: int,
    alt_seats_left: int,
    rules: Rules,
) -> bool {
    ||| seats_left == 0
    ||| {
        &&& !anyone_waits(rows, false, rules)
        &&& (alt_seats_left == 0 || !anyone_waits(rows, true, rules))
    }
}

proof fn lemma_min_of_prefix(
    rows: Seq<ParticipantView>,
    n: int,
    alt: bool,
    rules: Rules,
) -> (b: int)
    requires
        distinct_ids(rows),
        0 <= n <= rows.len(),
        exists|j: int| 0 <= j < n && waits(rows, j, alt, rules),
    ensures
        0 <= b < n,
        waits(rows, b, alt, rules),
        forall|j: int|
            0 <= j < n && j != b && waits(rows, j, alt, rules) ==> arrives_before(rows[b], rows[j]),
    decreases n,
{
    let last = n - 1;
    if exists|j: int| 0 <= j < last && waits(rows, j, alt, rules) {
        let b0 = lemma_min_of_prefix(rows, last, alt, rules);
        if waits(rows, last, alt, rules) && arrives_before(rows[last], rows[b0]) {
            last
        } else {
            if waits(rows, last, alt, rules) {
                assert(rows[b0].id != rows[last].id);
            }
            b0
        }
    } else {
        last
    }
}

/// Where somebody waits, somebody is first in line.
pub proof fn lemma_head_exists(rows: Seq<ParticipantView>, alt: bool, rules: Rules)
    requires
        distinct_ids(rows),
        anyone_waits(rows, alt, rules),
    ensures
        first_in_line(rows, head_of_line(rows, alt, rules), alt, rules),
{
    let w = choose|i: int| waits(rows, i, alt, rules);
    let b = lemma_min_of_prefix(rows, rows.len() as int, alt, rules);
    assert(first_in_line(rows, b, alt, rules));
}

proof fn lemma_promoted_nothing(rows: Seq<ParticipantView>)
    ensures
        promoted(rows, Seq::<u128>::empty()) == rows,
{
    assert(promoted(rows, Seq::<u128>::empty()) =~= rows);
}

proof fn lemma_promoted_step(rows: Seq<ParticipantView>, i: int, tail: Seq<u128>)
    requires
        distinct_ids(rows),
        0 <= i < rows.len(),
    ensures
        promoted(rows, seq![rows[i].id] + tail) == promoted(seat_at(rows, i), tail),
{
    let plan = seq![rows[i].id] + tail;
    let a = promoted(rows, plan);
    let b = promoted(seat_at(rows, i), tail);
    assert(plan[0] == rows[i].id);
    assert forall|j: int| 0 <= j < rows.len() implies a[j] == b[j] by {
        if j == i {
            assert(plan.contains(rows[i].id));
        } else {
            assert(rows[j].id != rows[i].id);
            if tail.contains(rows[j].id) {
                let k = choose|k: int| 0 <= k < tail.len() && tail[k] == rows[j].id;
                assert(plan[k + 1] == rows[j].id);
            }
            if plan.contains(rows[j].id) {
                let k = choose|k: int| 0 <= k < plan.len() && plan[k] == rows[j].id;
                assert(tail[k - 1] == rows[j].id);
            }
        }
    }
    assert(a =~= b);
}

proof fn lemma_seat_counts(rows: Seq<ParticipantView>, i: int)
    requires
        0 <= i < rows.len(),
        !rows[i].is_main,
    ensures
        main_count(seat_at(rows, i)) == main_count(rows) + 1,
        alt_main_count(seat_at(rows, i)) == alt_main_count(rows) + if rows[i].is_alt {
            1nat
        } else {
            0nat
        },
        distinct_ids(rows) ==> distinct_ids(seat_at(rows, i)),
{
    lemma_count_update(rows, i, rows[i].seated(), holds_main());
    lemma_count_update(rows, i, rows[i].seated(), holds_alt_main());
}

/// What holds of every hand-out of seats.
pub proof fn lemma_hand_out(rows: Seq<ParticipantView>, seats: nat, alt_seats: nat, rules: Rules)
    requires
        distinct_ids(rows),
    ensures
        ({
            let plan = hand_out(rows, seats, alt_seats, rules);
            let after = promoted(rows, plan);
            &&& plan.len() <= seats
            &&& main_count(after) == main_count(rows) + plan.len()
            &&& alt_main_count(rows) <= alt_main_count(after) <= alt_main_count(rows) + alt_seats
            &&& all_eligible(rows, plan, rules)
            &&& settled(
                after,
                seats - plan.len(),
                alt_main_count(rows) + alt_seats - alt_main_count(after),
                rules,
            )
        }),
    decreases seats,
{
    let plan = hand_out(rows, seats, alt_seats, rules);
    let take_primary = seats > 0 && anyone_waits(rows, false, rules);
    let take_alt = seats > 0 && !anyone_waits(rows, false, rules) && alt_seats > 0 && anyone_waits(
        rows,
        true,
        rules,
    );
    if take_primary || take_alt {
        let alt = take_alt;
        lemma_head_exists(rows, alt, rules);
        let i = head_of_line(rows, alt, rules);
        let next = seat_at(rows, i);
        let alt_left = if alt {
            (alt_seats - 1) as nat
        } else {
            alt_seats
        };
        let tail = hand_out(next, (seats - 1) as nat, alt_left, rules);
        assert(plan == seq![rows[i].id] + tail);
        lemma_seat_counts(rows, i);
        lemma_hand_out(next, (seats - 1) as nat, alt_left, rules);
        lemma_promoted_step(rows, i, tail);
        assert forall|k: int| 0 <= k < plan.len() implies exists|j: int|
            0 <= j < rows.len() && (#[trigger] rows[j]).id == #[trigger] plan[k] && eligible(
                rows[j],
                rules,
            ) by {
            if k == 0 {
                assert(rows[i].id == plan[0] && eligible(rows[i], rules));
            } else {
                assert(plan[k] == tail[k - 1]);
                let j = choose|j: int|
                    0 <= j < next.len() && (#[trigger] next[j]).id == tail[k - 1] && eligible(
                        next[j],
                        rules,
                    );
                assert(j != i);
                assert(rows[j] == next[j]);
            }
        }
    } else {
        assert(plan =~= Seq::<u128>::empty());
        lemma_promoted_nothing(rows);
    }
}

/// A run of the engine gives out no more main seats than are free, and no
/// more of them to alt rows than the alt sub-quota leaves: afterwards the
/// main seats number at most `max_mains`, and the alt rows among them at
/// most `max_alt_mains`, unless there were more before the run, in which
/// case the run changes nothing of that count.
pub proof fn law_capacity_respected(
    rows: Seq<ParticipantView>,
    config: CapacityView,
    exclusion_ids: Seq<i64>,
    priority_ids: Seq<i64>,
    now: i64,
)
    requires
        roster_wf(rows),
    ensures
        ({
            let plan = promotion_plan(rows, config, exclusion_ids, priority_ids, now);
            let after = after_promotion(rows, config, exclusion_ids, priority_ids, now);
            &&& plan.len() <= free_main(rows, config)
            &&& main_count(after) == main_count(rows) + plan.len()
            &&& main_count(rows) <= config.max_mains ==> main_count(after) <= config.max_mains
            &&& main_count(rows) > config.max_mains ==> main_count(after) == main_count(rows)
            &&& alt_main_count(rows) <= config.max_alt_mains ==> alt_main_count(after)
                <= config.max_alt_mains
            &&& alt_main_count(rows) > config.max_alt_mains ==> alt_main_count(after)
                == alt_main_count(rows)
        }),
{
    lemma_hand_out(
        rows,
        free_main(rows, config),
        free_alt_main(rows, config),
        rules_at(config, exclusion_ids, priority_ids, now),
    );
}

/// Only reserves are promoted, never an excluded user, and while the
/// priority window is open nobody who lacks a priority role, however many
/// seats are free.
pub proof fn law_only_eligible_promoted(
    rows: Seq<ParticipantView>,
    config: CapacityView,
    exclusion_ids: Seq<i64>,
    priority_ids: Seq<i64>,
    now: i64,
)
    requires
        roster_wf(rows),
    ensures
        forall|j: int|
            0 <= j < rows.len() && promotion_plan(
                rows,
                config,
                exclusion_ids,
                priority_ids,
                now,
            ).contains((#[trigger] rows[j]).id) ==> {
                &&& !rows[j].is_main
                &&& !exclusion_ids.contains(rows[j].user_id)
                &&& config.window_open(now) ==> priority_ids.contains(rows[j].user_id)
            },
{
    let rules = rules_at(config, exclusion_ids, priority_ids, now);
    let plan = promotion_plan(rows, config, exclusion_ids, priority_ids, now);
    lemma_hand_out(rows, free_main(rows, config), free_alt_main(rows, config), rules);
    assert forall|j: int| 0 <= j < rows.len() && plan.contains((#[trigger] rows[j]).id) implies {
        &&& !rows[j].is_main
        &&& !exclusion_ids.contains(rows[j].user_id)
        &&& config.window_open(now) ==> priority_ids.contains(rows[j].user_id)
    } by {
        let k = choose|k: int| 0 <= k < plan.len() && plan[k] == rows[j].id;
        let w = choose|w: int|
            0 <= w < rows.len() && (#[trigger] rows[w]).id == plan[k] && eligible(rows[w], rules);
        assert(w == j);
    }
}

/// A second run right after a run promotes nobody.
pub proof fn law_promotion_settles(
    rows: Seq<ParticipantView>,
    config: CapacityView,
    exclusion_ids: Seq<i64>,
    priority_ids: Seq<i64>,
    now: i64,
)
    requires
        roster_wf(rows),
    ensures
        promotion_plan(
            after_promotion(rows, config, exclusion_ids, priority_ids, now),
            config,
            exclusion_ids,
            priority_ids,
            now,
        ) == Seq::<u128>::empty(),
{
    let rules = rules_at(config, exclusion_ids, priority_ids, now);
    lemma_hand_out(rows, free_main(rows, config), free_alt_main(rows, config), rules);
    let after = after_promotion(rows, config, exclusion_ids, priority_ids, now);
    assert(hand_out(after, free_main(after, config), free_alt_main(after, config), rules)
        =~= Seq::<u128>::empty());
}

proof fn lemma_hand_out_order(rows: Seq<ParticipantView>, seats: nat, alt_seats: nat, rules: Rules)
    requires
        distinct_ids(rows),
    ensures
        ({
            let plan = hand_out(rows, seats, alt_seats, rules);
            &&& forall|i: int, j: int|
                0 <= i < rows.len() && 0 <= j < rows.len() && plan.contains(rows[i].id)
                    && !plan.contains(rows[j].id) && eligible(rows[j], rules) && rows[i].is_alt
                    == rows[j].is_alt ==> arrives_before(#[trigger] rows[i], #[trigger] rows[j])
            &&& forall|i: int, j: int|
                #![trigger rows[i], rows[j]]
                0 <= i < rows.len() && 0 <= j < rows.len() && plan.contains(rows[i].id)
                    && rows[i].is_alt && eligible(rows[j], rules) && !rows[j].is_alt
                    ==> plan.contains(rows[j].id)
        }),
    decreases seats,
{
    let plan = hand_out(rows, seats, alt_seats, rules);
    let take_primary = seats > 0 && anyone_waits(rows, false, rules);
    let take_alt = seats > 0 && !anyone_waits(rows, false, rules) && alt_seats > 0 && anyone_waits(
        rows,
        true,
        rules,
    );
    if take_primary || take_alt {
        let alt = take_alt;
        lemma_head_exists(rows, alt, rules);
        let i0 = head_of_line(rows, alt, rules);
        let next = seat_at(rows, i0);
        let alt_left = if alt {
            (alt_seats - 1) as nat
        } else {
            alt_seats
        };
        let tail = hand_out(next, (seats - 1) as nat, alt_left, rules);
        assert(plan == seq![rows[i0].id] + tail);
        assert(plan[0] == rows[i0].id);
        lemma_hand_out_order(next, (seats - 1) as nat, alt_left, rules);
        lemma_hand_out(next, (seats - 1) as nat, alt_left, rules);
        assert forall|x: u128| plan.contains(x) <==> (x == rows[i0].id || tail.contains(x)) by {
            if plan.contains(x) {
                let k = choose|k: int| 0 <= k < plan.len() && plan[k] == x;
                if k > 0 {
                    assert(tail[k - 1] == x);
                }
            }
            if tail.contains(x) {
                let k = choose|k: int| 0 <= k < tail.len() && tail[k] == x;
                assert(plan[k + 1] == x);
            }
        }
        assert forall|i: int, j: int|
            0 <= i < rows.len() && 0 <= j < rows.len() && plan.contains(rows[i].id)
                && !plan.contains(rows[j].id) && eligible(rows[j], rules) && rows[i].is_alt
                == rows[j].is_alt implies arrives_before(
            #[trigger] rows[i],
            #[trigger] rows[j],
        ) by {
            assert(j != i0);
            assert(next[j] == rows[j]);
            if i == i0 {
                assert(waits(rows, j, alt, rules));
            } else {
                assert(rows[i].id != rows[i0].id);
                assert(next[i] == rows[i]);
                assert(tail.contains(next[i].id));
                assert(!tail.contains(next[j].id));
            }
        }
        assert forall|i: int, j: int|
            #![trigger rows[i], rows[j]]
            0 <= i < rows.len() && 0 <= j < rows.len() && plan.contains(rows[i].id)
                && rows[i].is_alt && eligible(rows[j], rules) && !rows[j].is_alt
                implies plan.contains(rows[j].id) by {
            if j == i0 {
            } else {
                assert(next[j] == rows[j]);
                if i == i0 {
                    // An alt heads the line only when no primary row waits.
                    assert(waits(rows, j, false, rules));
                } else {
                    assert(rows[i].id != rows[i0].id);
                    assert(next[i] == rows[i]);
                    assert(tail.contains(next[i].id));
                }
            }
        }
    } else {
        assert(plan =~= Seq::<u128>::empty());
    }
}

/// Promotion follows the line. Of two eligible reserves of the same kind
/// the one that arrived first is promoted first: where one is promoted and
/// the other is not, the promoted one arrived before the other. And primary
/// rows go before alt rows: where an alt is promoted, no eligible primary
/// reserve is left behind.
pub proof fn law_promotion_follows_the_line(
    rows: Seq<ParticipantView>,
    config: CapacityView,
    exclusion_ids: Seq<i64>,
    priority_ids: Seq<i64>,
    now: i64,
)
    requires
        roster_wf(rows),
    ensures
        ({
            let plan = promotion_plan(rows, config, exclusion_ids, priority_ids, now);
            let rules = rules_at(config, exclusion_ids, priority_ids, now);
            &&& forall|i: int, j: int|
                0 <= i < rows.len() && 0 <= j < rows.len() && plan.contains(rows[i].id)
                    && !plan.contains(rows[j].id) && eligible(rows[j], rules) && rows[i].is_alt
                    == rows[j].is_alt ==> arrives_before(#[trigger] rows[i], #[trigger] rows[j])
            &&& forall|i: int, j: int|
                #![trigger rows[i], rows[j]]
                0 <= i < rows.len() && 0 <= j < rows.len() && plan.contains(rows[i].id)
                    && rows[i].is_alt && eligible(rows[j], rules) && !rows[j].is_alt
                    ==> plan.contains(rows[j].id)
        }),
{
    lemma_hand_out_order(
        rows,
        free_main(rows, config),
        free_alt_main(rows, config),
        rules_at(config, exclusion_ids, priority_ids, now),
    );
}

/// The rows at two places of the list stand in promotion order: a primary
/// row before an alt row, and of two rows of a kind the one that arrived
/// first.
pub open spec fn in_promotion_order(first: ParticipantView, second: ParticipantView) -> bool {
    &&& first.is_alt ==> second.is_alt
    &&& first.is_alt == second.is_alt ==> arrives_before(first, second)
}

proof fn lemma_plan_order(rows: Seq<ParticipantView>, seats: nat, alt_seats: nat, rules: Rules)
    requires
        distinct_ids(rows),
    ensures
        ({
            let plan = hand_out(rows, seats, alt_seats, rules);
            forall|a: int, b: int, i: int, j: int|
                #![trigger plan[a], plan[b], rows[i], rows[j]]
                0 <= a < b < plan.len() && 0 <= i < rows.len() && 0 <= j < rows.len()
                    && rows[i].id == plan[a] && rows[j].id == plan[b] ==> in_promotion_order(
                    rows[i],
                    rows[j],
                )
        }),
    decreases seats,
{
    let plan = hand_out(rows, seats, alt_seats, rules);
    let take_primary = seats > 0 && anyone_waits(rows, false, rules);
    let take_alt = seats > 0 && !anyone_waits(rows, false, rules) && alt_seats > 0 && anyone_waits(
        rows,
        true,
        rules,
    );
    if take_primary || take_alt {
        let alt = take_alt;
        lemma_head_exists(rows, alt, rules);
        let i0 = head_of_line(rows, alt, rules);
        let next = seat_at(rows, i0);
        let alt_left = if alt {
            (alt_seats - 1) as nat
        } else {
            alt_seats
        };
        let tail = hand_out(next, (seats - 1) as nat, alt_left, rules);
        assert(plan == seq![rows[i0].id] + tail);
        lemma_plan_order(next, (seats - 1) as nat, alt_left, rules);
        lemma_hand_out(next, (seats - 1) as nat, alt_left, rules);
        assert forall|a: int, b: int, i: int, j: int|
            #![trigger plan[a], plan[b], rows[i], rows[j]]
            0 <= a < b < plan.len() && 0 <= i < rows.len() && 0 <= j < rows.len() && rows[i].id
                == plan[a] && rows[j].id == plan[b] implies in_promotion_order(
            rows[i],
            rows[j],
        ) by {
            // What stands behind the head of the list was handed out among
            // the rows as the head left them, to rows that waited there.
            assert(plan[b] == tail[b - 1]);
            let w = choose|w: int|
                0 <= w < next.len() && (#[trigger] next[w]).id == tail[b - 1] && eligible(
                    next[w],
                    rules,
                );
            assert(w == j) by {
                if w < j {
                    assert(rows[w].id != rows[j].id);
                } else if j < w {
                    assert(rows[j].id != rows[w].id);
                }
            }
            assert(j != i0);
            assert(next[j] == rows[j]);
            if a == 0 {
                assert(i == i0) by {
                    if i < i0 {
                        assert(rows[i].id != rows[i0].id);
                    } else if i0 < i {
                        assert(rows[i0].id != rows[i].id);
                    }
                }
                if rows[j].is_alt == alt {
                    assert(waits(rows, j, alt, rules));
                } else if alt {
                    assert(waits(rows, j, false, rules));
                }
            } else {
                assert(plan[a] == tail[a - 1]);
                let v = choose|v: int|
                    0 <= v < next.len() && (#[trigger] next[v]).id == tail[a - 1] && eligible(
                        next[v],
                        rules,
                    );
                assert(v == i) by {
                    if v < i {
                        assert(rows[v].id != rows[i].id);
                    } else if i < v {
                        assert(rows[i].id != rows[v].id);
                    }
                }
                assert(i != i0);
                assert(next[i] == rows[i]);
                assert(in_promotion_order(next[i], next[j])) by {
                    let _ = (tail[a - 1], tail[b - 1], next[i], next[j]);
                }
            }
        }
    } else {
        assert(plan =~= Seq::<u128>::empty());
    }
}

/// The list of promotions is in promotion order: primary rows before alt
/// rows, and the rows of each kind in the order in which they arrived. No
/// row is listed twice.
pub proof fn law_plan_is_in_promotion_order(
    rows: Seq<ParticipantView>,
    config: CapacityView,
    exclusion_ids: Seq<i64>,
    priority_ids: Seq<i64>,
    now: i64,
)
    requires
        roster_wf(rows),
    ensures
        ({
            let plan = promotion_plan(rows, config, exclusion_ids, priority_ids, now);
            &&& forall|a: int, b: int, i: int, j: int|
                #![trigger plan[a], plan[b], rows[i], rows[j]]
                0 <= a < b < plan.len() && 0 <= i < rows.len() && 0 <= j < rows.len()
                    && rows[i].id == plan[a] && rows[j].id == plan[b] ==> in_promotion_order(
                    rows[i],
                    rows[j],
                )
            &&& plan.no_duplicates()
        }),
{
    let rules = rules_at(config, exclusion_ids, priority_ids, now);
    let plan = promotion_plan(rows, config, exclusion_ids, priority_ids, now);
    lemma_plan_order(rows, free_main(rows, config), free_alt_main(rows, config), rules);
    lemma_hand_out(rows, free_main(rows, config), free_alt_main(rows, config), rules);
    assert forall|a: int, b: int| 0 <= a < b < plan.len() implies plan[a] != plan[b] by {
        let i = choose|i: int|
            0 <= i < rows.len() && (#[trigger] rows[i]).id == plan[a] && eligible(rows[i], rules);
        if plan[a] == plan[b] {
            let _ = (plan[a], plan[b], rows[i], rows[i]);
            assert(in_promotion_order(rows[i], rows[i]));
        }
    }
}

/// Whether the user is listed.
pub fn contains_id(ids: &Vec<i64>, id: i64) -> (found: bool)
    ensures
        found == ids@.contains(id),
{
    let mut k: usize = 0;
    while k < ids.len()
        invariant
            k <= ids.len(),
            forall|j: int| 0 <= j < k ==> ids@[j] != id,
        decreases ids.len() - k,
    {
        if ids[k] == id {
            return true;
        }
        k = k + 1;
    }
    false
}

/// Marks the rows that are eligible under the rules.
fn mark_waiting(
    rows: &Vec<RaidParticipant>,
    exclusion_ids: &Vec<i64>,
    priority_ids: &Vec<i64>,
    window_open: bool,
) -> (waiting: Vec<bool>)
    ensures
        waiting@.len() == rows@.len(),
        forall|i: int|
            0 <= i < rows@.len() ==> waiting@[i] == eligible(
                #[trigger] rows@[i]@,
                Rules { excluded: exclusion_ids@, priority: priority_ids@, window_open },
            ),
{
    let mut waiting: Vec<bool> = Vec::new();
    let mut k: usize = 0;
    while k < rows.len()
        invariant
            k <= rows.len(),
            waiting@.len() == k,
            forall|i: int|
                0 <= i < k ==> waiting@[i] == eligible(
                    #[trigger] rows@[i]@,
                    Rules { excluded: exclusion_ids@, priority: priority_ids@, window_open },
                ),
        decreases rows.len() - k,
    {
        let row = &rows[k];
        let ok = !row.is_main && !contains_id(exclusion_ids, row.user_id) && (!window_open
            || contains_id(priority_ids, row.user_id));
        waiting.push(ok);
        k = k + 1;
    }
    waiting
}

/// Finds the waiting row of the given kind that arrived first.
fn find_head(
    rows: &Vec<RaidParticipant>,
    waiting: &Vec<bool>,
    alt: bool,
    Ghost(cur): Ghost<Seq<ParticipantView>>,
    Ghost(rules): Ghost<Rules>,
) -> (head: Option<usize>)
    requires
        cur.len() == rows@.len(),
        waiting@.len() == rows@.len(),
        distinct_ids(cur),
        forall|i: int|
            0 <= i < cur.len() ==> {
                &&& (#[trigger] cur[i]).id == rows@[i].id
                &&& cur[i].joined_at == rows@[i].joined_at
                &&& cur[i].is_alt == rows@[i].is_alt
                &&& waiting@[i] == eligible(cur[i], rules)
            },
    ensures
        match head {
            Some(i) => first_in_line(cur, i as int, alt, rules),
            None => !anyone_waits(cur, alt, rules),
        },
{
    let mut best: Option<usize> = None;
    let mut k: usize = 0;
    while k < rows.len()
        invariant
            k <= rows.len(),
            cur.len() == rows@.len(),
            waiting@.len() == rows@.len(),
            distinct_ids(cur),
            forall|i: int|
                0 <= i < cur.len() ==> {
                    &&& (#[trigger] cur[i]).id == rows@[i].id
                    &&& cur[i].joined_at == rows@[i].joined_at
                    &&& cur[i].is_alt == rows@[i].is_alt
                    &&& waiting@[i] == eligible(cur[i], rules)
                },
            match best {
                Some(b) => {
                    &&& b < k
                    &&& waits(cur, b as int, alt, rules)
                    &&& forall|j: int|
                        0 <= j < k && j != b && waits(cur, j, alt, rules) ==> arrives_before(
                            cur[b as int],
                            cur[j],
                        )
                },
                None => forall|j: int| 0 <= j < k ==> !waits(cur, j, alt, rules),
            },
        decreases rows.len() - k,
    {
        if waiting[k] && rows[k].is_alt == alt {
            assert(waits(cur, k as int, alt, rules));
            match best {
                None => {
                    best = Some(k);
                },
                Some(b) => {
                    let earlier = rows[k].joined_at < rows[b].joined_at || (rows[k].joined_at
                        == rows[b].joined_at && rows[k].id < rows[b].id);
                    assert(earlier == arrives_before(cur[k as int], cur[b as int]));
                    if earlier {
                        best = Some(k);
                    } else {
                        assert(cur[k as int].id != cur[b as int].id);
                        assert(arrives_before(cur[b as int], cur[k as int]));
                    }
                },
            }
        }
        k = k + 1;
    }
    best
}

/// Hands out `seats` main seats, at most `alt_seats` of them to alt rows,
/// among the reserves that the rules let through. The rows are not
/// changed: the result lists the rows to flip, in promotion order.
pub fn hand_out_seats(
    entrants: &Roster,
    seats: usize,
    alt_seats: usize,
    exclusion_ids: &Vec<i64>,
    priority_ids: &Vec<i64>,
    window_open: bool,
) -> (plan: Vec<u128>)
    ensures
        plan@ == hand_out(
            entrants@,
            seats as nat,
            alt_seats as nat,
            Rules { excluded: exclusion_ids@, priority: priority_ids@, window_open },
        ),
{
    let rows = entrants.rows();
    let ghost rules = Rules { excluded: exclusion_ids@, priority: priority_ids@, window_open };
    let ghost goal = hand_out(entrants@, seats as nat, alt_seats as nat, rules);
    let mut seats = seats;
    let mut alt_seats = alt_seats;
    let mut waiting = mark_waiting(rows, exclusion_ids, priority_ids, window_open);
    let mut plan: Vec<u128> = Vec::new();
    let ghost mut cur = entrants@;
    proof {
        assert forall|i: int| 0 <= i < cur.len() implies (#[trigger] cur[i]) == rows@[i]@ by {}
        assert(plan@ + goal =~= goal);
    }
    while seats > 0
        invariant
            cur.len() == rows@.len(),
            waiting@.len() == rows@.len(),
            distinct_ids(cur),
            forall|i: int|
                0 <= i < cur.len() ==> {
                    &&& (#[trigger] cur[i]).id == rows@[i].id
                    &&& cur[i].joined_at == rows@[i].joined_at
                    &&& cur[i].is_alt == rows@[i].is_alt
                    &&& waiting@[i] == eligible(cur[i], rules)
                },
            plan@ + hand_out(cur, seats as nat, alt_seats as nat, rules) == goal,
        ensures
            plan@ == goal,
        decreases seats,
    {
        let ghost before = cur;
        let ghost rest = hand_out(cur, seats as nat, alt_seats as nat, rules);
        let mut head = find_head(rows, &waiting, false, Ghost(cur), Ghost(rules));
        let mut took_alt = false;
        if head.is_none() {
            if alt_seats > 0 {
                head = find_head(rows, &waiting, true, Ghost(cur), Ghost(rules));
                took_alt = true;
            }
        }
        match head {
            None => {
                assert(rest =~= Seq::<u128>::empty());
                assert(plan@ + rest =~= plan@);
                break ;
            },
            Some(i) => {
                proof {
                    lemma_head_is(cur, i as int, took_alt, rules);
                    cur = seat_at(cur, i as int);
                }
                waiting.set(i, false);
                plan.push(rows[i].id);
                seats = seats - 1;
                if took_alt {
                    alt_seats = alt_seats - 1;
                }
                proof {
                    let tail = hand_out(cur, seats as nat, alt_seats as nat, rules);
                    assert(rest == seq![before[i as int].id] + tail);
                    assert(plan@ + tail =~= plan@.drop_last() + rest);
                }
            },
        }
    }
    proof {
        if seats == 0 {
            assert(plan@ + hand_out(cur, seats as nat, alt_seats as nat, rules) =~= plan@);
        }
    }
    plan
}

/// Decides which reserves move to a main seat. The rows are not changed:
/// the result lists the rows to flip, in promotion order.
pub fn promote(
    entrants: &Roster,
    config: &CapacityConfig,
    exclusion_ids: &Vec<i64>,
    priority_ids: &Vec<i64>,
    now: i64,
) -> (plan: Vec<u128>)
    ensures
        plan@ == promotion_plan(entrants@, config@, exclusion_ids@, priority_ids@, now),
{
    let mains = entrants.count_mains();
    let alt_mains = entrants.count_alt_mains();
    let max_mains = config.max_mains() as usize;
    let max_alt_mains = config.max_alt_mains() as usize;
    let seats: usize = if max_mains > mains {
        max_mains - mains
    } else {
        0
    };
    let alt_seats: usize = if max_alt_mains > alt_mains {
        max_alt_mains - alt_mains
    } else {
        0
    };
    hand_out_seats(
        entrants,
        seats,
        alt_seats,
        exclusion_ids,
        priority_ids,
        config.window_open(now),
    )
}

/// The seats that are left of `limit` when `taken` are taken.
pub open spec fn seats_left(limit: i32, taken: nat) -> nat {
    if limit > taken {
        (limit - taken) as nat
    } else {
        0
    }
}

/// Promotes reserves into the main seats that are free of `max_players`:
/// primary reserves first, in arrival order, then alt reserves within what
/// is left of `max_alts` alt main seats. Nobody is excluded and no priority
/// window applies. Says whom it promoted.
pub fn promote_reserves_with_alt_limits(
    roster: &mut Roster,
    max_players: i32,
    max_alts: i32,
) -> (plan: Vec<u128>)
    ensures
        plan@ == hand_out(
            old(roster)@,
            seats_left(max_players, main_count(old(roster)@)),
            seats_left(max_alts, alt_main_count(old(roster)@)),
            Rules { excluded: Seq::empty(), priority: Seq::empty(), window_open: false },
        ),
        final(roster)@ == promoted(old(roster)@, plan@),
{
    let mains = roster.count_mains();
    let alt_mains = roster.count_alt_mains();
    let seats: usize = if max_players > 0 && max_players as usize > mains {
        max_players as usize - mains
    } else {
        0
    };
    let alt_seats: usize = if max_alts > 0 && max_alts as usize > alt_mains {
        max_alts as usize - alt_mains
    } else {
        0
    };
    let nobody: Vec<i64> = Vec::new();
    let plan = hand_out_seats(roster, seats, alt_seats, &nobody, &nobody, false);
    roster.apply_promotions(&plan);
    plan
}

} // verus!
