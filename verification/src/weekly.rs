//! Raids that are set by the day of the week.

use crate::text::{ascii_lowercase, lowered};
use vstd::prelude::*;
use vstd::string::*;

verus! {

/// The day of the week that a name stands for, counted from Monday as one,
/// whatever the case of its ASCII letters.
pub open spec fn weekday_number_of(day: Seq<char>) -> Option<u32> {
    let low = lowered(day);
    if low == "monday"@ {
        Some(1u32)
    } else if low == "tuesday"@ {
        Some(2u32)
    } else if low == "wednesday"@ {
        Some(3u32)
    } else if low == "thursday"@ {
        Some(4u32)
    } else if low == "friday"@ {
        Some(5u32)
    } else if low == "saturday"@ {
        Some(6u32)
    } else if low == "sunday"@ {
        Some(7u32)
    } else {
        None
    }
}

fn same(text: &String, lit: &str) -> (eq: bool)
    ensures
        eq == (text@ == lit@),
{
    let other = String::from_str(lit);
    *text == other
}

/// The day of the week that a name stands for.
pub fn string_to_weekday(day: &str) -> (number: Option<u32>)
    ensures
        number == weekday_number_of(day@),
{
    let low = ascii_lowercase(day);
    if same(&low, "monday") {
        Some(1)
    } else if same(&low, "tuesday") {
        Some(2)
    } else if same(&low, "wednesday") {
        Some(3)
    } else if same(&low, "thursday") {
        Some(4)
    } else if same(&low, "friday") {
        Some(5)
    } else if same(&low, "saturday") {
        Some(6)
    } else if same(&low, "sunday") {
        Some(7)
    } else {
        None
    }
}

/// How many days it is from a day of the week to the next day of the week
/// `target`, both counted from Monday as one: none where they are the
/// same, and nothing where either is no day of the week.
pub open spec fn spec_days_until(today: u32, target: u32) -> Option<u32> {
    if !(1 <= today <= 7 && 1 <= target <= 7) {
        None
    } else if target >= today {
        Some((target - today) as u32)
    } else {
        Some((7 - today + target) as u32)
    }
}

/// How many days it is to the next day of the week `target`.
pub fn days_until_weekday(today: u32, target: u32) -> (days: Option<u32>)
    ensures
        days == spec_days_until(today, target),
        days is Some ==> days->0 < 7,
{
    if today < 1 || today > 7 || target < 1 || target > 7 {
        None
    } else if target >= today {
        Some(target - today)
    } else {
        Some(7 - today + target)
    }
}

} // verus!
