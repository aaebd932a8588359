//! The list of a guild's active raids.

use crate::messages::{channel_of, mention_channel, mention_of, mention_user};
use crate::text::{push_signed_decimal, signed_decimal};
use vstd::prelude::*;
use vstd::string::*;

verus! {

/// One raid of the list.
pub struct ListedRaid {
    pub raid_name: String,
    pub created_by: i64,
    /// How many main seats are taken.
    pub filled: i64,
    pub max_players: i32,
    /// When the raid starts, as a local date and time.
    pub when_local: String,
    pub channel_id: i64,
}

/// The line of one raid.
pub open spec fn raid_line(raid: ListedRaid) -> Seq<char> {
    "\u{2022} "@ + raid.raid_name@ + " \u{2014} "@ + mention_of(raid.created_by) + " \u{2014} "@
        + signed_decimal(raid.filled as int) + "/"@ + signed_decimal(raid.max_players as int)
        + " \u{2014} "@ + raid.when_local@ + " \u{2014} "@ + channel_of(raid.channel_id) + "\n"@
}

/// The lines of the raids, one after the other.
pub open spec fn raid_lines(raids: Seq<ListedRaid>) -> Seq<char>
    decreases raids.len(),
{
    if raids.len() == 0 {
        Seq::empty()
    } else {
        raid_lines(raids.drop_last()) + raid_line(raids.last())
    }
}

/// The list as it is posted: a heading and one line for each raid, or a
/// note that there is none.
pub open spec fn raid_list_of(raids: Seq<ListedRaid>) -> Seq<char> {
    if raids.len() == 0 {
        "Brak aktywnych rajd\u{f3}w."@
    } else {
        "Aktualne rajdy:\n"@ + raid_lines(raids)
    }
}

/// The list of a guild's active raids as it is posted.
pub fn render_all_raids_list(raids: &Vec<ListedRaid>) -> (out: String)
    ensures
        out@ == raid_list_of(raids@),
{
    if raids.len() == 0 {
        return String::from_str("Brak aktywnych rajd\u{f3}w.");
    }
    let mut out = String::from_str("Aktualne rajdy:\n");
    let mut k: usize = 0;
    assert(raids@.take(0) =~= Seq::<ListedRaid>::empty());
    assert(out@ =~= "Aktualne rajdy:\n"@ + raid_lines(raids@.take(0)));
    while k < raids.len()
        invariant
            k <= raids.len(),
            out@ == "Aktualne rajdy:\n"@ + raid_lines(raids@.take(k as int)),
        decreases raids.len() - k,
    {
        let ghost upto = raids@.take(k + 1);
        assert(upto.last() == raids@[k as int]);
        assert(upto.drop_last() =~= raids@.take(k as int));
        let ghost before = out@;
        let raid = &raids[k];
        out.append("\u{2022} ");
        out.append(raid.raid_name.as_str());
        out.append(" \u{2014} ");
        let owner = mention_user(raid.created_by);
        out.append(owner.as_str());
        out.append(" \u{2014} ");
        push_signed_decimal(&mut out, raid.filled);
        out.append("/");
        push_signed_decimal(&mut out, raid.max_players as i64);
        out.append(" \u{2014} ");
        out.append(raid.when_local.as_str());
        out.append(" \u{2014} ");
        let channel = mention_channel(raid.channel_id);
        out.append(channel.as_str());
        out.append("\n");
        assert(out@ =~= before + raid_line(*raid));
        assert(out@ =~= "Aktualne rajdy:\n"@ + raid_lines(upto));
        k = k + 1;
    }
    assert(raids@.take(k as int) =~= raids@);
    out
}

} // verus!
