//! Texts for the summary of a raid.

use crate::emoji::{decorate_joined_as, decorated, Emoji};
use crate::models::{views, ParticipantView, RaidParticipant};
use crate::ordering::{in_order, sorted_keys, SortKey};
use crate::roster::Roster;
use crate::text::{decimal, push_decimal, push_signed_decimal, signed_decimal};
use vstd::prelude::*;
use vstd::string::*;

verus! {

/// The line of an empty slot.
pub open spec fn empty_line(slot: nat) -> Seq<char> {
    decimal(slot) + ". [Empty]"@
}

/// The lines of the slots 1 to `n`, all empty, separated by line breaks.
pub open spec fn empty_slots(n: nat) -> Seq<char>
    decreases n,
{
    if n == 0 {
        Seq::empty()
    } else if n == 1 {
        empty_line(1)
    } else {
        empty_slots((n - 1) as nat) + seq!['\n'] + empty_line(n)
    }
}

/// The slots of a raid without entrants: one numbered line for each of the
/// `n` slots, and nothing where `n` is not positive.
pub fn render_empty_slots(n: i64) -> (out: String)
    ensures
        out@ == empty_slots(
            if n > 0 {
                n as nat
            } else {
                0
            },
        ),
{
    let mut out = String::new();
    if n <= 0 {
        return out;
    }
    let count = n as u64;
    let mut slot: u64 = 0;
    proof {
        reveal_strlit("\n");
        reveal_strlit(". [Empty]");
    }
    while slot < count
        invariant
            slot <= count,
            out@ == empty_slots(slot as nat),
        decreases count - slot,
    {
        let ghost before = out@;
        if slot > 0 {
            proof {
                reveal_strlit("\n");
            }
            out.append("\n");
        }
        slot = slot + 1;
        push_decimal(&mut out, slot);
        out.append(". [Empty]");
        proof {
            reveal_strlit("\n");
            if slot == 1 {
                assert(out@ =~= empty_line(1));
            } else {
                assert(out@ =~= before + seq!['\n'] + empty_line(slot as nat));
            }
        }
    }
    out
}

/// Seconds in a day, an hour and a minute.
pub const DAY_SECS: i64 = 86400;

pub const HOUR_SECS: i64 = 3600;

pub const MINUTE_SECS: i64 = 60;

/// Whole seconds from `now` until `when`, both in microseconds; fractions
/// are cut off.
pub open spec fn seconds_until(when: i64, now: i64) -> int {
    let diff = when - now;
    if diff >= 0 {
        diff / 1_000_000
    } else {
        -((-diff) / 1_000_000)
    }
}

/// How long it is until a raid starts, in at most two units: days and
/// hours, or hours and minutes, or one of them alone; "now" once the start
/// has come, and "<1m" in the last minute before it.
pub open spec fn time_left_text(secs: int) -> Seq<char> {
    let days = secs / 86400;
    let hours = (secs % 86400) / 3600;
    let mins = (secs % 3600) / 60;
    if secs <= 0 {
        "now"@
    } else if days > 0 && hours > 0 {
        decimal(days as nat) + "d"@ + " "@ + decimal(hours as nat) + "h"@
    } else if days > 0 && mins > 0 {
        decimal(days as nat) + "d"@ + " "@ + decimal(mins as nat) + "m"@
    } else if days > 0 {
        decimal(days as nat) + "d"@
    } else if hours > 0 && mins > 0 {
        decimal(hours as nat) + "h"@ + " "@ + decimal(mins as nat) + "m"@
    } else if hours > 0 {
        decimal(hours as nat) + "h"@
    } else if mins > 0 {
        decimal(mins as nat) + "m"@
    } else {
        "<1m"@
    }
}

/// How long it is from `now` until `when`, in words.
pub fn human_time_left(when: i64, now: i64) -> (out: String)
    ensures
        out@ == time_left_text(seconds_until(when, now)),
{
    let diff: i128 = when as i128 - now as i128;
    if diff < 1_000_000 {
        assert(seconds_until(when, now) <= 0);
        return String::from_str("now");
    }
    let secs: u64 = (diff / 1_000_000) as u64;
    assert(secs == seconds_until(when, now));
    let days = secs / 86400;
    let hours = (secs % 86400) / 3600;
    let mins = (secs % 3600) / 60;
    let mut out = String::new();
    let mut parts: u8 = 0;
    if days > 0 {
        push_decimal(&mut out, days);
        out.append("d");
        parts = parts + 1;
    }
    if hours > 0 {
        if parts > 0 {
            out.append(" ");
        }
        push_decimal(&mut out, hours);
        out.append("h");
        parts = parts + 1;
    }
    if mins > 0 && parts < 2 {
        if parts > 0 {
            out.append(" ");
        }
        push_decimal(&mut out, mins);
        out.append("m");
        parts = parts + 1;
    }
    if parts == 0 {
        out.append("<1m");
    }
    assert(out@ =~= time_left_text(secs as int));
    out
}

/// The key by which row `i` is placed in the summary: primary rows before
/// alt rows, each kind in arrival order, and rows that arrived together in
/// the order of the roster.
pub open spec fn seat_key(rows: Seq<ParticipantView>, i: int) -> SortKey {
    (
        if rows[i].is_alt {
            1u8
        } else {
            0u8
        },
        rows[i].joined_at,
        i as u64,
    )
}

/// The keys of the rows with a main seat, or of the reserves, in the order
/// of the roster.
pub open spec fn keys_of(rows: Seq<ParticipantView>, main: bool) -> Seq<SortKey>
    decreases rows.len(),
{
    if rows.len() == 0 {
        Seq::empty()
    } else {
        let earlier = keys_of(rows.drop_last(), main);
        if rows.last().is_main == main {
            earlier.push(seat_key(rows, rows.len() - 1))
        } else {
            earlier
        }
    }
}

/// The keys of the rows with a main seat, or of the reserves, in the order
/// in which the summary shows them.
pub open spec fn shown(rows: Seq<ParticipantView>, main: bool) -> Seq<SortKey> {
    in_order(keys_of(rows, main))
}

proof fn lemma_keys_in_range(rows: Seq<ParticipantView>, main: bool)
    requires
        rows.len() <= u64::MAX,
    ensures
        forall|k: int|
            0 <= k < keys_of(rows, main).len() ==> (#[trigger] keys_of(rows, main)[k]).2
                < rows.len(),
    decreases rows.len(),
{
    if rows.len() > 0 {
        let front = rows.drop_last();
        lemma_keys_in_range(front, main);
        let earlier = keys_of(front, main);
        let all = keys_of(rows, main);
        assert forall|k: int| 0 <= k < all.len() implies (#[trigger] all[k]).2 < rows.len() by {
            if k < earlier.len() {
                assert(all[k] == earlier[k]);
            }
        }
    }
}

/// Where the rows with a main seat, or the reserves, stand in the roster,
/// in the order in which the summary shows them.
pub fn shown_rows(roster: &Roster, main: bool) -> (order: Vec<usize>)
    ensures
        order@.len() == shown(roster@, main).len(),
        forall|k: int|
            0 <= k < order@.len() ==> (#[trigger] order@[k]) == shown(roster@, main)[k].2
                && order@[k] < roster@.len(),
{
    let rows = roster.rows();
    let mut keys: Vec<SortKey> = Vec::new();
    let mut k: usize = 0;
    assert(roster@.take(0) =~= Seq::<ParticipantView>::empty());
    while k < rows.len()
        invariant
            k <= rows.len(),
            views(rows@) == roster@,
            keys@ == keys_of(roster@.take(k as int), main),
        decreases rows.len() - k,
    {
        let ghost upto = roster@.take(k + 1);
        assert(upto.last() == roster@[k as int]);
        assert(upto.drop_last() =~= roster@.take(k as int));
        assert(roster@[k as int] == rows@[k as int]@);
        if rows[k].is_main == main {
            let alt: u8 = if rows[k].is_alt {
                1
            } else {
                0
            };
            keys.push((alt, rows[k].joined_at, k as u64));
        }
        k = k + 1;
    }
    assert(roster@.take(k as int) =~= roster@);
    let ghost unsorted = keys@;
    let sorted = sorted_keys(keys);
    proof {
        lemma_keys_in_range(roster@, main);
        crate::ordering::lemma_key_order_total();
        unsorted.lemma_sort_by_ensures(crate::ordering::by_key());
        assert forall|j: int| 0 <= j < sorted@.len() implies (#[trigger] sorted@[j]).2
            < roster@.len() by {
            let x = sorted@[j];
            assert(sorted@.contains(x));
            if !unsorted.contains(x) {
                assert(!unsorted.sort_by(crate::ordering::by_key()).contains(x));
            }
            let i = choose|i: int| 0 <= i < unsorted.len() && unsorted[i] == x;
            assert(unsorted[i].2 < roster@.len());
        }
    }
    let mut order: Vec<usize> = Vec::new();
    let mut j: usize = 0;
    while j < sorted.len()
        invariant
            j <= sorted.len(),
            order@.len() == j,
            forall|i: int| 0 <= i < sorted@.len() ==> (#[trigger] sorted@[i]).2 < roster@.len(),
            roster@.len() <= usize::MAX,
            forall|i: int| 0 <= i < j ==> (#[trigger] order@[i]) == sorted@[i].2,
        decreases sorted.len() - j,
    {
        order.push(sorted[j].2 as usize);
        j = j + 1;
    }
    order
}

/// What follows the label in a line: the user, a mark for an alt, and the
/// tag.
pub open spec fn line_tail(row: ParticipantView) -> Seq<char> {
    " <@"@ + signed_decimal(row.user_id as int) + ">"@ + if row.is_alt {
        " (ALT)"@
    } else {
        ""@
    } + row.tag_suffix
}

fn push_line_tail(out: &mut String, row: &RaidParticipant)
    ensures
        final(out)@ == old(out)@ + line_tail(row@),
{
    out.append(" <@");
    push_signed_decimal(out, row.user_id);
    out.append(">");
    if row.is_alt {
        out.append(" (ALT)");
    } else {
        out.append("");
    }
    out.append(row.tag_suffix.as_str());
    assert(out@ =~= old(out)@ + line_tail(row@));
}

/// The line of slot `slot`, counted from one: the entrant who holds it, or
/// a note that it is empty.
pub open spec fn slot_line(
    rows: Seq<ParticipantView>,
    emojis: Option<Seq<Emoji>>,
    order: Seq<SortKey>,
    slot: nat,
) -> Seq<char> {
    if slot <= order.len() {
        let row = rows[order[slot - 1].2 as int];
        decimal(slot) + ". "@ + decorated(emojis, row.joined_as) + line_tail(row)
    } else {
        empty_line(slot)
    }
}

/// The lines of the slots 1 to `slots`.
pub open spec fn slot_lines(
    rows: Seq<ParticipantView>,
    emojis: Option<Seq<Emoji>>,
    order: Seq<SortKey>,
    slots: nat,
) -> Seq<char>
    decreases slots,
{
    if slots == 0 {
        Seq::empty()
    } else if slots == 1 {
        slot_line(rows, emojis, order, 1)
    } else {
        slot_lines(rows, emojis, order, (slots - 1) as nat) + seq!['\n'] + slot_line(
            rows,
            emojis,
            order,
            slots,
        )
    }
}

/// The number of slots that the summary shows: the main seats, and one
/// where the raid has none.
pub open spec fn slots_shown(max_players: i32) -> nat {
    if max_players > 1 {
        max_players as nat
    } else {
        1
    }
}

pub open spec fn seq_of(emojis: Option<&Vec<Emoji>>) -> Option<Seq<Emoji>> {
    match emojis {
        Some(list) => Some(list@),
        None => None,
    }
}

/// The slots of a raid, one line each: the entrants with a main seat in
/// the order in which the summary shows them, then the empty slots.
pub fn render_slots(roster: &Roster, emojis: Option<&Vec<Emoji>>, max_players: i32) -> (out:
    String)
    ensures
        out@ == slot_lines(
            roster@,
            seq_of(emojis),
            shown(roster@, true),
            slots_shown(max_players),
        ),
{
    let rows = roster.rows();
    let order = shown_rows(roster, true);
    let slots: u64 = if max_players > 1 {
        max_players as u64
    } else {
        1
    };
    let ghost keys = shown(roster@, true);
    let mut out = String::new();
    let mut slot: u64 = 0;
    while slot < slots
        invariant
            slot <= slots,
            views(rows@) == roster@,
            keys == shown(roster@, true),
            order@.len() == keys.len(),
            forall|k: int|
                0 <= k < order@.len() ==> (#[trigger] order@[k]) == keys[k].2 && order@[k]
                    < roster@.len(),
            out@ == slot_lines(roster@, seq_of(emojis), keys, slot as nat),
        decreases slots - slot,
    {
        let ghost before = out@;
        if slot > 0 {
            proof {
                reveal_strlit("\n");
            }
            out.append("\n");
        }
        slot = slot + 1;
        push_decimal(&mut out, slot);
        if slot as usize <= order.len() && slot <= usize::MAX as u64 {
            let at = order[(slot - 1) as usize];
            let row = &rows[at];
            assert(roster@[at as int] == row@);
            out.append(". ");
            let label = decorate_joined_as(emojis, row.joined_as.as_str());
            out.append(label.as_str());
            push_line_tail(&mut out, row);
        } else {
            out.append(". [Empty]");
        }
        proof {
            reveal_strlit("\n");
            let line = slot_line(roster@, seq_of(emojis), keys, slot as nat);
            if slot == 1 {
                assert(out@ =~= line);
            } else {
                assert(out@ =~= before + seq!['\n'] + line);
            }
        }
    }
    out
}

/// The capacity of a raid as the summary states it.
pub open spec fn capacity_text_of(
    filled: nat,
    max_players: i32,
    allow_alts: bool,
    max_alts: i32,
) -> Seq<char> {
    decimal(filled) + "/"@ + signed_decimal(max_players as int) + " (alts allowed: "@
        + if allow_alts {
        "yes"@
    } else {
        "no"@
    } + ", max_alts: "@ + signed_decimal(max_alts as int) + ")"@
}

/// The capacity of a raid: how many of the slots shown are filled, and the
/// settings for alts.
pub fn capacity_text(mains: usize, max_players: i32, allow_alts: bool, max_alts: i32) -> (out:
    String)
    ensures
        out@ == capacity_text_of(
            if mains <= slots_shown(max_players) {
                mains as nat
            } else {
                slots_shown(max_players)
            },
            max_players,
            allow_alts,
            max_alts,
        ),
{
    let slots: u64 = if max_players > 1 {
        max_players as u64
    } else {
        1
    };
    let filled: u64 = if (mains as u64) <= slots {
        mains as u64
    } else {
        slots
    };
    let mut out = String::new();
    push_decimal(&mut out, filled);
    out.append("/");
    push_signed_decimal(&mut out, max_players as i64);
    out.append(" (alts allowed: ");
    if allow_alts {
        out.append("yes");
    } else {
        out.append("no");
    }
    out.append(", max_alts: ");
    push_signed_decimal(&mut out, max_alts as i64);
    out.append(")");
    assert(out@ =~= capacity_text_of(filled as nat, max_players, allow_alts, max_alts));
    out
}

/// How many reserves the summary lists by name.
pub const RESERVES_SHOWN: usize = 10;

/// The line of a reserve.
pub open spec fn reserve_line(
    rows: Seq<ParticipantView>,
    emojis: Option<Seq<Emoji>>,
    key: SortKey,
) -> Seq<char> {
    let row = rows[key.2 as int];
    "\u{2022} "@ + decorated(emojis, row.joined_as) + line_tail(row)
}

/// The lines of the first `count` reserves.
pub open spec fn reserve_lines(
    rows: Seq<ParticipantView>,
    emojis: Option<Seq<Emoji>>,
    order: Seq<SortKey>,
    count: nat,
) -> Seq<char>
    decreases count,
{
    if count == 0 {
        Seq::empty()
    } else if count == 1 {
        reserve_line(rows, emojis, order[0])
    } else {
        reserve_lines(rows, emojis, order, (count - 1) as nat) + seq!['\n'] + reserve_line(
            rows,
            emojis,
            order[count - 1],
        )
    }
}

/// The reserves as the summary lists them: the first ten by name, and how
/// many more there are.
pub open spec fn reserves_text_of(
    rows: Seq<ParticipantView>,
    emojis: Option<Seq<Emoji>>,
    order: Seq<SortKey>,
) -> Seq<char> {
    if order.len() > 10 {
        reserve_lines(rows, emojis, order, 10) + "\n... and "@ + decimal(
            (order.len() - 10) as nat,
        ) + " more"@
    } else {
        reserve_lines(rows, emojis, order, order.len())
    }
}

/// The list of reserves for the summary; nothing where there is no
/// reserve.
pub fn render_reserves(roster: &Roster, emojis: Option<&Vec<Emoji>>) -> (out: Option<String>)
    ensures
        match out {
            Some(text) => shown(roster@, false).len() > 0 && text@ == reserves_text_of(
                roster@,
                seq_of(emojis),
                shown(roster@, false),
            ),
            None => shown(roster@, false).len() == 0,
        },
{
    let rows = roster.rows();
    let order = shown_rows(roster, false);
    if order.len() == 0 {
        return None;
    }
    let ghost keys = shown(roster@, false);
    let count: usize = if order.len() > 10 {
        10
    } else {
        order.len()
    };
    let mut out = String::new();
    let mut k: usize = 0;
    while k < count
        invariant
            k <= count <= order@.len(),
            views(rows@) == roster@,
            keys == shown(roster@, false),
            order@.len() == keys.len(),
            forall|i: int|
                0 <= i < order@.len() ==> (#[trigger] order@[i]) == keys[i].2 && order@[i]
                    < roster@.len(),
            out@ == reserve_lines(roster@, seq_of(emojis), keys, k as nat),
        decreases count - k,
    {
        let ghost before = out@;
        if k > 0 {
            proof {
                reveal_strlit("\n");
            }
            out.append("\n");
        }
        let at = order[k];
        let row = &rows[at];
        assert(roster@[at as int] == row@);
        out.append("\u{2022} ");
        let label = decorate_joined_as(emojis, row.joined_as.as_str());
        out.append(label.as_str());
        push_line_tail(&mut out, row);
        k = k + 1;
        proof {
            reveal_strlit("\n");
            let line = reserve_line(roster@, seq_of(emojis), keys[k - 1]);
            if k == 1 {
                assert(out@ =~= line);
            } else {
                assert(out@ =~= before + seq!['\n'] + line);
            }
        }
    }
    if order.len() > 10 {
        out.append("\n... and ");
        push_decimal(&mut out, (order.len() - 10) as u64);
        out.append(" more");
    }
    Some(out)
}

} // verus!
