//! The texts of the messages that entrants and owners receive.

use crate::text::{decimal, push_decimal, push_signed_decimal, signed_decimal};
use vstd::prelude::*;
use vstd::string::*;

verus! {

/// How a user is mentioned.
pub open spec fn mention_of(user_id: i64) -> Seq<char> {
    "<@"@ + decimal(user_id as u64 as nat) + ">"@
}

/// Mentions a user.
pub fn mention_user(id: i64) -> (out: String)
    ensures
        out@ == mention_of(id),
{
    let mut out = String::from_str("<@");
    push_decimal(&mut out, id as u64);
    out.append(">");
    out
}

/// How a channel is mentioned.
pub open spec fn channel_of(channel_id: i64) -> Seq<char> {
    "<#"@ + decimal(channel_id as u64 as nat) + ">"@
}

/// Mentions a channel.
pub fn mention_channel(id: i64) -> (out: String)
    ensures
        out@ == channel_of(id),
{
    let mut out = String::from_str("<#");
    push_decimal(&mut out, id as u64);
    out.append(">");
    out
}

/// The word for the seat of an entrant.
pub open spec fn status_of(is_main: bool) -> Seq<char> {
    if is_main {
        "MAIN"@
    } else {
        "RESERVE"@
    }
}

/// The word for the seat of an entrant.
pub fn status_word(is_main: bool) -> (word: &'static str)
    ensures
        word@ == status_of(is_main),
{
    if is_main {
        "MAIN"
    } else {
        "RESERVE"
    }
}

/// The reminder that goes to an entrant before the raid starts.
pub open spec fn reminder_of(
    raid_name: Seq<char>,
    when_local: Seq<char>,
    channel_id: i64,
    is_main: bool,
) -> Seq<char> {
    "\u{23f0} Reminder: **"@ + raid_name + "** starts at **"@ + when_local + "**.\nChannel: "@
        + channel_of(channel_id) + "\nYour status: **"@ + status_of(is_main) + "**"@
}

/// The reminder for one entrant.
pub fn reminder_message(raid_name: &str, when_local: &str, channel_id: i64, is_main: bool) -> (out:
    String)
    ensures
        out@ == reminder_of(raid_name@, when_local@, channel_id, is_main),
{
    let mut out = String::from_str("\u{23f0} Reminder: **");
    out.append(raid_name);
    out.append("** starts at **");
    out.append(when_local);
    out.append("**.\nChannel: ");
    let channel = mention_channel(channel_id);
    out.append(channel.as_str());
    out.append("\nYour status: **");
    out.append(status_word(is_main));
    out.append("**");
    out
}

/// The notification that the owner sends to every entrant at once.
pub open spec fn notification_of(
    raid_name: Seq<char>,
    when_local: Seq<char>,
    channel_id: i64,
    is_main: bool,
) -> Seq<char> {
    "\u{1f4e3} Notification: **"@ + raid_name + "** at **"@ + when_local + "**.\nChannel: "@
        + channel_of(channel_id) + "\nYour status: **"@ + status_of(is_main) + "**"@
}

/// The owner's notification for one entrant.
pub fn notification_message(
    raid_name: &str,
    when_local: &str,
    channel_id: i64,
    is_main: bool,
) -> (out: String)
    ensures
        out@ == notification_of(raid_name@, when_local@, channel_id, is_main),
{
    let mut out = String::from_str("\u{1f4e3} Notification: **");
    out.append(raid_name);
    out.append("** at **");
    out.append(when_local);
    out.append("**.\nChannel: ");
    let channel = mention_channel(channel_id);
    out.append(channel.as_str());
    out.append("\nYour status: **");
    out.append(status_word(is_main));
    out.append("**");
    out
}

/// What the owner is told when a user signed off.
pub open spec fn sign_off_notice_of(
    user_id: i64,
    raid_name: Seq<char>,
    channel_id: i64,
    time_left: Seq<char>,
) -> Seq<char> {
    "Heads up: user "@ + mention_of(user_id) + " signed off from raid \""@ + raid_name
        + "\".\nChannel: "@ + channel_of(channel_id) + "\nStarts in: "@ + time_left
}

/// Tells the owner that a user signed off.
pub fn sign_off_notice(user_id: i64, raid_name: &str, channel_id: i64, time_left: &str) -> (out:
    String)
    ensures
        out@ == sign_off_notice_of(user_id, raid_name@, channel_id, time_left@),
{
    let mut out = String::from_str("Heads up: user ");
    let user = mention_user(user_id);
    out.append(user.as_str());
    out.append(" signed off from raid \"");
    out.append(raid_name);
    out.append("\".\nChannel: ");
    let channel = mention_channel(channel_id);
    out.append(channel.as_str());
    out.append("\nStarts in: ");
    out.append(time_left);
    out
}

/// What the raid's channel is told when a user signed off. The user is
/// named by the number as the store holds it.
pub open spec fn sign_off_post_of(user_id: i64, time_left: Seq<char>) -> Seq<char> {
    "<@"@ + signed_decimal(user_id as int) + "> signed off. Raid starts in "@ + time_left + "."@
}

/// Tells the raid's channel that a user signed off.
pub fn sign_off_post(user_id: i64, time_left: &str) -> (out: String)
    ensures
        out@ == sign_off_post_of(user_id, time_left@),
{
    let mut out = String::from_str("<@");
    push_signed_decimal(&mut out, user_id);
    out.append("> signed off. Raid starts in ");
    out.append(time_left);
    out.append(".");
    out
}

/// The entry of a row in the owner's lists: the label, the user's name and
/// a mark for an alt; the list from which to kick also shows the seat.
pub open spec fn option_label_of(
    joined_as: Seq<char>,
    name: Seq<char>,
    is_alt: bool,
    seat: Option<bool>,
) -> Seq<char> {
    joined_as + " "@ + name + match seat {
        Some(true) => " [MAIN]"@,
        Some(false) => " [RES]"@,
        None => ""@,
    } + if is_alt {
        " (ALT)"@
    } else {
        ""@
    }
}

/// The entry of a row in one of the owner's lists.
pub fn option_label(joined_as: &str, name: &str, is_alt: bool, seat: Option<bool>) -> (out: String)
    ensures
        out@ == option_label_of(joined_as@, name@, is_alt, seat),
{
    let mut out = String::from_str(joined_as);
    out.append(" ");
    out.append(name);
    match seat {
        Some(true) => out.append(" [MAIN]"),
        Some(false) => out.append(" [RES]"),
        None => out.append(""),
    }
    if is_alt {
        out.append(" (ALT)");
    } else {
        out.append("");
    }
    out
}

/// The name shown for a user whose name is not known.
pub fn fallback_name(user_id: u64) -> (out: String)
    ensures
        out@ == "user "@ + decimal(user_id as nat),
{
    let mut out = String::from_str("user ");
    push_decimal(&mut out, user_id);
    out
}

} // verus!
