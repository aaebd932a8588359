//! What a user can pick when joining: a class and one of its specialists.

use crate::admission::{pick_text, JoinSelection};
use crate::labels::{class_of, sp_of};
use crate::models::{lists_ignoring_case, lists_name, texts};
use crate::text::{
    chars_of, decimal, eq_ignore_ascii_case, push_decimal, same_ignoring_case, trimmed, uppered,
};
use vstd::prelude::*;
use vstd::string::*;

verus! {

/// The highest number of a specialist.
pub const LAST_SP: u8 = 11;

/// Whether the class has the specialist with the number. The class `MSW`
/// lacks the specialists 5 to 8; every other class has 1 to 11.
pub open spec fn class_has_sp(msw: bool, number: int) -> bool {
    if msw {
        1 <= number <= 4 || 9 <= number <= 11
    } else {
        1 <= number <= 11
    }
}

/// The numbers of the specialists of a class, in rising order.
pub open spec fn sp_numbers(msw: bool) -> Seq<u8> {
    if msw {
        seq![1u8, 2u8, 3u8, 4u8, 9u8, 10u8, 11u8]
    } else {
        seq![1u8, 2u8, 3u8, 4u8, 5u8, 6u8, 7u8, 8u8, 9u8, 10u8, 11u8]
    }
}

/// The numbers of the specialists of a class.
pub fn sp_list(msw: bool) -> (numbers: Vec<u8>)
    ensures
        numbers@ == sp_numbers(msw),
{
    let numbers = if msw {
        vec![1u8, 2u8, 3u8, 4u8, 9u8, 10u8, 11u8]
    } else {
        vec![1u8, 2u8, 3u8, 4u8, 5u8, 6u8, 7u8, 8u8, 9u8, 10u8, 11u8]
    };
    assert(numbers@ =~= sp_numbers(msw));
    numbers
}

/// The listed numbers are those of the specialists that the class has.
pub proof fn law_sp_numbers(msw: bool, number: u8)
    ensures
        sp_numbers(msw).contains(number) <==> class_has_sp(msw, number as int),
{
    let s = sp_numbers(msw);
    if class_has_sp(msw, number as int) {
        if msw {
            let i: int = if number <= 4 {
                number - 1
            } else {
                number - 5
            };
            assert(s[i] == number);
        } else {
            assert(s[number - 1] == number);
        }
    }
}

/// The name of the specialist with the number.
pub open spec fn sp_name_of(number: u8) -> Seq<char> {
    "SP"@ + decimal(number as nat)
}

/// The name of the specialist with the number.
pub fn sp_name(number: u8) -> (name: String)
    ensures
        name@ == sp_name_of(number),
{
    let mut name = String::from_str("SP");
    push_decimal(&mut name, number as u64);
    name
}

/// The value of a run of decimal digits.
pub open spec fn digits_value(s: Seq<char>) -> nat
    decreases s.len(),
{
    if s.len() == 0 {
        0
    } else {
        digits_value(s.drop_last()) * 10 + ((s.last() as u32 - 0x30) as nat)
    }
}

pub open spec fn is_digit(c: char) -> bool {
    0x30 <= c as u32 <= 0x39
}

pub open spec fn all_digits(s: Seq<char>) -> bool {
    forall|i: int| 0 <= i < s.len() ==> is_digit(#[trigger] s[i])
}

/// The number that a text spells as the standard library reads a 32-bit
/// integer: decimal digits, with a plus or minus sign before them if at
/// all; nothing for any other text and for a number out of range.
pub open spec fn number_of(s: Seq<char>) -> Option<int> {
    let signed = s.len() > 0 && (s[0] == '+' || s[0] == '-');
    let body = if signed {
        s.skip(1)
    } else {
        s
    };
    let value = if signed && s[0] == '-' {
        -(digits_value(body) as int)
    } else {
        digits_value(body) as int
    };
    if body.len() > 0 && all_digits(body) && i32::MIN <= value <= i32::MAX {
        Some(value)
    } else {
        None
    }
}

/// Whether a specialist, given by name, belongs to the class. The name is
/// `SP` and a number, in either case and with white space around it
/// allowed; a name without a readable number counts as number zero.
pub open spec fn sp_fits(msw: bool, sp: Seq<char>) -> bool {
    let name = uppered(trimmed(sp));
    &&& name.len() >= 2
    &&& name[0] == 'S'
    &&& name[1] == 'P'
    &&& class_has_sp(
        msw,
        match number_of(name.skip(2)) {
            Some(n) => n,
            None => 0,
        },
    )
}

/// Reads the digits from `from` up to `to`: nothing where another
/// character stands among them, else their value, or 100 where it is more.
fn capped_digits(chars: &Vec<char>, from: usize, to: usize) -> (value: Option<u32>)
    requires
        from <= to <= chars@.len(),
    ensures
        value is Some <==> all_digits(chars@.subrange(from as int, to as int)),
        value is Some ==> value->0 == if digits_value(chars@.subrange(from as int, to as int))
            < 100 {
            digits_value(chars@.subrange(from as int, to as int))
        } else {
            100
        },
{
    let ghost body = chars@.subrange(from as int, to as int);
    let mut value: u32 = 0;
    let mut k: usize = from;
    assert(body.take(0) =~= Seq::<char>::empty());
    while k < to
        invariant
            from <= k <= to <= chars@.len(),
            body == chars@.subrange(from as int, to as int),
            all_digits(body.take(k - from)),
            value <= 100,
            value == if digits_value(body.take(k - from)) < 100 {
                digits_value(body.take(k - from))
            } else {
                100
            },
        decreases to - k,
    {
        let c = chars[k];
        let ghost upto = body.take(k - from + 1);
        assert(upto.last() == c);
        assert(upto.drop_last() =~= body.take(k - from));
        let u = c as u32;
        if u < 0x30 || u > 0x39 {
            assert(!is_digit(body[k - from]));
            return None;
        }
        assert(all_digits(upto)) by {
            assert forall|i: int| 0 <= i < upto.len() implies is_digit(#[trigger] upto[i]) by {
                if i < k - from {
                    assert(body.take(k - from)[i] == upto[i]);
                }
            }
        }
        let next = value * 10 + (u - 0x30);
        value = if next > 100 {
            100
        } else {
            next
        };
        k = k + 1;
    }
    assert(body.take(to - from) =~= body);
    Some(value)
}

/// Whether a specialist, given by name, belongs to the class.
pub fn sp_num_ok(msw: bool, sp: &str) -> (ok: bool)
    ensures
        ok == sp_fits(msw, sp@),
{
    let trimmed_sp = crate::text::trim(sp);
    let upper = crate::text::ascii_uppercase(trimmed_sp.as_str());
    let name = chars_of(upper.as_str());
    if name.len() < 2 || name[0] != 'S' || name[1] != 'P' {
        return false;
    }
    let ghost rest = name@.skip(2);
    let signed = name.len() > 2 && (name[2] == '+' || name[2] == '-');
    let negative = signed && name[2] == '-';
    let start: usize = if signed {
        3
    } else {
        2
    };
    let ghost body = if signed {
        rest.skip(1)
    } else {
        rest
    };
    proof {
        if name.len() > 2 {
            assert(rest[0] == name@[2]);
        }
        assert(body =~= name@.subrange(start as int, name@.len() as int));
    }
    if start == name.len() {
        return false;
    }
    match capped_digits(&name, start, name.len()) {
        None => false,
        Some(value) => !negative && value >= 1 && value <= 11 && (!msw || value <= 4 || value
            >= 9),
    }
}

/// Whether the class is given as `MSW` or `msw`.
pub open spec fn names_msw(class: Seq<char>) -> bool {
    class == "MSW"@ || class == "msw"@
}

fn is_msw_literal(class: &String) -> (msw: bool)
    ensures
        msw == names_msw(class@),
{
    let upper = String::from_str("MSW");
    let lower = String::from_str("msw");
    *class == upper || *class == lower
}

/// Records the class that the user picked. A specialist picked before is
/// dropped where the new class does not have it.
pub fn pick_class(selection: &mut JoinSelection, class: String)
    ensures
        pick_text(final(selection).class) == Some(class@),
        final(selection).main == old(selection).main,
        pick_text(final(selection).sp) == match old(selection).sp {
            Some(sp) => if sp_fits(names_msw(class@), sp@) {
                Some(sp@)
            } else {
                None
            },
            None => None,
        },
{
    let msw = is_msw_literal(&class);
    let keep = match &selection.sp {
        Some(sp) => sp_num_ok(msw, sp.as_str()),
        None => true,
    };
    if !keep {
        selection.sp = None;
    }
    selection.class = Some(class);
}

/// Records the specialist that the user picked.
pub fn pick_sp(selection: &mut JoinSelection, sp: String)
    ensures
        pick_text(final(selection).sp) == Some(sp@),
        pick_text(final(selection).class) == pick_text(old(selection).class),
        final(selection).main == old(selection).main,
{
    selection.sp = Some(sp);
}

/// What the join dialogue shows of the picks so far.
pub open spec fn selection_text_of(class: Option<Seq<char>>, sp: Option<Seq<char>>) -> Seq<char> {
    "Pick your class and SP:\nSelected: **"@ + match class {
        Some(c) => c,
        None => "\u{2014}"@,
    } + "** / **"@ + match sp {
        Some(s) => s,
        None => "\u{2014}"@,
    } + "**"@
}

/// What the join dialogue shows of the picks.
pub fn selection_text(selection: &JoinSelection) -> (out: String)
    ensures
        out@ == selection_text_of(pick_text(selection.class), pick_text(selection.sp)),
{
    let mut out = String::from_str("Pick your class and SP:\nSelected: **");
    match &selection.class {
        Some(c) => out.append(c.as_str()),
        None => out.append("\u{2014}"),
    }
    out.append("** / **");
    match &selection.sp {
        Some(s) => out.append(s.as_str()),
        None => out.append("\u{2014}"),
    }
    out.append("**");
    out
}

/// Whether a name is among the names, exactly.
pub fn lists_text(names: &Vec<String>, name: &String) -> (found: bool)
    ensures
        found == texts(names@).contains(name@),
{
    let mut k: usize = 0;
    while k < names.len()
        invariant
            k <= names.len(),
            forall|i: int| 0 <= i < k ==> texts(names@)[i] != name@,
        decreases names.len() - k,
    {
        assert(texts(names@)[k as int] == names@[k as int]@);
        if names[k] == *name {
            return true;
        }
        k = k + 1;
    }
    false
}

/// The names by which the specialists of a row are known: the further
/// specialists, and the one in the label if it has one; each without the
/// white space around it and in upper case.
pub open spec fn known_sps(joined_as: Seq<char>, extra_sps: Seq<Seq<char>>) -> Seq<Seq<char>> {
    let extras = extra_sps.map_values(|s: Seq<char>| uppered(trimmed(s)));
    match sp_of(joined_as) {
        Some(active) => extras.push(uppered(active)),
        None => extras,
    }
}

/// The specialists that a user can still add: those of the class in the
/// label that the row does not know yet.
pub open spec fn addable(joined_as: Seq<char>, extra_sps: Seq<Seq<char>>) -> Seq<u8> {
    sp_numbers(same_ignoring_case(class_of(joined_as), "MSW"@)).filter(
        |n: u8| !known_sps(joined_as, extra_sps).contains(sp_name_of(n)),
    )
}

/// The specialists that a user can still add to a row.
pub fn addable_sps(joined_as: &str, extra_sps: &Vec<String>) -> (numbers: Vec<u8>)
    ensures
        numbers@ == addable(joined_as@, texts(extra_sps@)),
{
    let class = crate::labels::class_part(joined_as);
    let msw = eq_ignore_ascii_case(class.as_str(), "MSW");
    let mut known: Vec<String> = Vec::new();
    let mut k: usize = 0;
    let ghost extras = texts(extra_sps@);
    while k < extra_sps.len()
        invariant
            k <= extra_sps.len(),
            extras == texts(extra_sps@),
            texts(known@) == extras.take(k as int).map_values(
                |s: Seq<char>| uppered(trimmed(s)),
            ),
        decreases extra_sps.len() - k,
    {
        let trimmed_sp = crate::text::trim(extra_sps[k].as_str());
        let upper = crate::text::ascii_uppercase(trimmed_sp.as_str());
        let ghost before = texts(known@);
        known.push(upper);
        proof {
            assert(extras[k as int] == extra_sps@[k as int]@);
            assert(extras.take(k + 1) =~= extras.take(k as int).push(extras[k as int]));
            assert(texts(known@) =~= before.push(uppered(trimmed(extras[k as int]))));
            assert(extras.take(k + 1).map_values(|s: Seq<char>| uppered(trimmed(s)))
                =~= extras.take(k as int).map_values(|s: Seq<char>| uppered(trimmed(s))).push(
                uppered(trimmed(extras[k as int])),
            ));
        }
        k = k + 1;
    }
    assert(extras.take(k as int) =~= extras);
    match crate::labels::active_sp(joined_as) {
        Some(active) => {
            let upper = crate::text::ascii_uppercase(active.as_str());
            let ghost before = texts(known@);
            known.push(upper);
            assert(texts(known@) =~= before.push(uppered(active@)));
        },
        None => {},
    }
    assert(texts(known@) == known_sps(joined_as@, extras));
    let all = sp_list(msw);
    let mut numbers: Vec<u8> = Vec::new();
    let mut j: usize = 0;
    let ghost free = |n: u8| !known_sps(joined_as@, extras).contains(sp_name_of(n));
    proof {
        assert(all@.take(0) =~= Seq::<u8>::empty());
        assert(all@.take(0).filter(free) =~= Seq::<u8>::empty()) by {
            all@.take(0).lemma_filter_len(free);
        }
    }
    while j < all.len()
        invariant
            j <= all.len(),
            texts(known@) == known_sps(joined_as@, extras),
            free == (|n: u8| !known_sps(joined_as@, extras).contains(sp_name_of(n))),
            numbers@ == all@.take(j as int).filter(free),
        decreases all.len() - j,
    {
        let name = sp_name(all[j]);
        proof {
            assert(all@.take(j + 1) =~= all@.take(j as int).push(all@[j as int]));
            all@.take(j as int).lemma_filter_push(all@[j as int], free);
        }
        if !lists_text(&known, &name) {
            numbers.push(all[j]);
        }
        j = j + 1;
    }
    assert(all@.take(j as int) =~= all@);
    numbers
}

/// The names with one more, unless a name that differs from it in case
/// alone is among them already.
pub open spec fn with_new(names: Seq<Seq<char>>, name: Seq<char>) -> Seq<Seq<char>> {
    if lists_name(names, name) {
        names
    } else {
        names.push(name)
    }
}

/// The names with each of the further names added in turn.
pub open spec fn with_all_new(names: Seq<Seq<char>>, more: Seq<Seq<char>>) -> Seq<Seq<char>>
    decreases more.len(),
{
    if more.len() == 0 {
        names
    } else {
        with_new(with_all_new(names, more.drop_last()), more.last())
    }
}

/// The specialist in the label as the dialogue shows it, and `SP1` where
/// the label names none.
pub open spec fn shown_sp(joined_as: Seq<char>) -> Seq<char> {
    match sp_of(joined_as) {
        Some(active) => active,
        None => "SP1"@,
    }
}

/// The specialists among which a user can choose the active one: the one
/// in the label first, then the further ones, each once whatever its case.
pub open spec fn choices_of(joined_as: Seq<char>, extra_sps: Seq<Seq<char>>) -> Seq<Seq<char>> {
    with_all_new(seq![shown_sp(joined_as)], extra_sps)
}

/// The specialists among which a user can choose the active one.
pub fn sp_choices(joined_as: &str, extra_sps: &Vec<String>) -> (choices: Vec<String>)
    ensures
        texts(choices@) == choices_of(joined_as@, texts(extra_sps@)),
{
    let active = match crate::labels::active_sp(joined_as) {
        Some(active) => active,
        None => String::from_str("SP1"),
    };
    let mut choices: Vec<String> = Vec::new();
    choices.push(active);
    let ghost extras = texts(extra_sps@);
    assert(texts(choices@) =~= seq![shown_sp(joined_as@)]);
    assert(extras.take(0) =~= Seq::<Seq<char>>::empty());
    let mut k: usize = 0;
    while k < extra_sps.len()
        invariant
            k <= extra_sps.len(),
            extras == texts(extra_sps@),
            texts(choices@) == with_all_new(seq![shown_sp(joined_as@)], extras.take(k as int)),
        decreases extra_sps.len() - k,
    {
        let ghost upto = extras.take(k + 1);
        assert(upto.last() == extra_sps@[k as int]@);
        assert(upto.drop_last() =~= extras.take(k as int));
        if !lists_ignoring_case(&choices, extra_sps[k].as_str()) {
            let ghost before = texts(choices@);
            choices.push(extra_sps[k].clone());
            assert(texts(choices@) =~= before.push(extra_sps@[k as int]@));
        }
        k = k + 1;
    }
    assert(extras.take(k as int) =~= extras);
    choices
}

} // verus!
