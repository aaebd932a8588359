//! Identifiers of raids and rows, and the identifiers of the buttons and
//! menus that carry them.

use crate::text::{chars_of, find_char, position_of, push_char, text_of};
use vstd::prelude::*;
use vstd::string::*;

verus! {

/// What `uuid::Uuid::parse_str` makes of a text: the identifier that the
/// text spells in one of the forms that the crate reads, as a number, or
/// nothing where the crate refuses the text.
pub uninterp spec fn uuid_parsed(text: Seq<char>) -> Option<u128>;

/// Calls `uuid::Uuid::parse_str` and hands the identifier on as a number.
/// The outcome depends on the text alone.
#[verifier::external_body]
fn parse_uuid(text: &str) -> (id: Option<u128>)
    ensures
        id == uuid_parsed(text@),
{
    match uuid::Uuid::parse_str(text) {
        Ok(id) => Some(id.as_u128()),
        Err(_) => None,
    }
}

/// Whether the identifier is marked as one that was drawn at random: its
/// version, the thirteenth of its hexadecimal digits, is 4, and its
/// variant, the two highest bits of the seventeenth, is binary 10.
pub open spec fn is_random_id(id: u128) -> bool {
    id & 0x0000_0000_0000_f000_c000_0000_0000_0000u128
        == 0x0000_0000_0000_4000_8000_0000_0000_0000u128
}

/// Calls `uuid::Uuid::new_v4`, which draws 128 random bits and then sets
/// the bits of version and variant. The random bits are unknown; the
/// contract claims only the bits that the function sets in every
/// identifier that it hands out.
#[verifier::external_body]
fn random_uuid() -> (id: u128)
    ensures
        is_random_id(id),
{
    uuid::Uuid::new_v4().as_u128()
}

/// A fresh identifier for a row or a raid: one drawn at random and marked
/// as such. It is never the nil identifier, which stands for "no row"
/// where a text that should name a row names none.
pub fn fresh_id() -> (id: u128)
    ensures
        is_random_id(id),
        id != 0,
{
    let id = random_uuid();
    assert(id != 0) by (bit_vector)
        requires
            id & 0x0000_0000_0000_f000_c000_0000_0000_0000u128
                == 0x0000_0000_0000_4000_8000_0000_0000_0000u128,
    ;
    id
}

/// The identifier for the row that the event with the correlation id may
/// add: the one that the correlation id spells, so that the event brings
/// the same row however often it is delivered, and a fresh one where the
/// correlation id spells none.
pub fn row_id_for(corr_id: &str) -> (id: u128)
    ensures
        match uuid_parsed(corr_id@) {
            Some(spelt) => id == spelt,
            None => is_random_id(id) && id != 0,
        },
{
    match parse_uuid(corr_id) {
        Some(id) => id,
        None => fresh_id(),
    }
}

/// The character of one hexadecimal digit, in lower case.
pub open spec fn hex_char(d: int) -> char {
    if d < 10 {
        crate::text::digit_char(d)
    } else if d == 10 {
        'a'
    } else if d == 11 {
        'b'
    } else if d == 12 {
        'c'
    } else if d == 13 {
        'd'
    } else if d == 14 {
        'e'
    } else {
        'f'
    }
}

/// The last `width` hexadecimal digits of a number, most significant
/// first.
pub open spec fn hex_fixed(n: nat, width: nat) -> Seq<char>
    decreases width,
{
    if width == 0 {
        Seq::empty()
    } else {
        hex_fixed(n / 16, (width - 1) as nat).push(hex_char((n % 16) as int))
    }
}

/// The usual text of an identifier: 32 hexadecimal digits in lower case,
/// in groups of 8, 4, 4, 4 and 12 with hyphens between them.
pub open spec fn uuid_text(id: u128) -> Seq<char> {
    let h = hex_fixed(id as nat, 32);
    h.subrange(0, 8) + seq!['-'] + h.subrange(8, 12) + seq!['-'] + h.subrange(12, 16) + seq!['-']
        + h.subrange(16, 20) + seq!['-'] + h.subrange(20, 32)
}

fn hex_digit(d: u128) -> (c: char)
    requires
        d < 16,
    ensures
        c == hex_char(d as int),
{
    if d == 0 {
        '0'
    } else if d == 1 {
        '1'
    } else if d == 2 {
        '2'
    } else if d == 3 {
        '3'
    } else if d == 4 {
        '4'
    } else if d == 5 {
        '5'
    } else if d == 6 {
        '6'
    } else if d == 7 {
        '7'
    } else if d == 8 {
        '8'
    } else if d == 9 {
        '9'
    } else if d == 10 {
        'a'
    } else if d == 11 {
        'b'
    } else if d == 12 {
        'c'
    } else if d == 13 {
        'd'
    } else if d == 14 {
        'e'
    } else {
        'f'
    }
}

fn hex_digits(n: u128, width: usize) -> (digits: Vec<char>)
    ensures
        digits@ == hex_fixed(n as nat, width as nat),
    decreases width,
{
    if width == 0 {
        Vec::new()
    } else {
        let mut digits = hex_digits(n / 16, width - 1);
        digits.push(hex_digit(n % 16));
        digits
    }
}

proof fn lemma_hex_len(n: nat, width: nat)
    ensures
        hex_fixed(n, width).len() == width,
    decreases width,
{
    if width > 0 {
        lemma_hex_len(n / 16, (width - 1) as nat);
    }
}

/// Writes the usual text of an identifier behind what `out` holds.
pub fn push_uuid(out: &mut String, id: u128)
    ensures
        final(out)@ == old(out)@ + uuid_text(id),
{
    let digits = hex_digits(id, 32);
    proof {
        lemma_hex_len(id as nat, 32);
    }
    let mut k: usize = 0;
    let ghost h = digits@;
    let ghost start = out@;
    while k < 32
        invariant
            k <= 32,
            digits@ == h,
            h.len() == 32,
            out@ == start + if k <= 8 {
                h.subrange(0, k as int)
            } else if k <= 12 {
                h.subrange(0, 8) + seq!['-'] + h.subrange(8, k as int)
            } else if k <= 16 {
                h.subrange(0, 8) + seq!['-'] + h.subrange(8, 12) + seq!['-'] + h.subrange(
                    12,
                    k as int,
                )
            } else if k <= 20 {
                h.subrange(0, 8) + seq!['-'] + h.subrange(8, 12) + seq!['-'] + h.subrange(12, 16)
                    + seq!['-'] + h.subrange(16, k as int)
            } else {
                h.subrange(0, 8) + seq!['-'] + h.subrange(8, 12) + seq!['-'] + h.subrange(12, 16)
                    + seq!['-'] + h.subrange(16, 20) + seq!['-'] + h.subrange(20, k as int)
            },
        decreases 32 - k,
    {
        if k == 8 || k == 12 || k == 16 || k == 20 {
            push_char(out, '-');
        }
        push_char(out, digits[k]);
        proof {
            let j = k as int;
            if k == 8 {
                assert(h.subrange(8, j + 1) =~= seq![h[j]]);
                assert(start + h.subrange(0, 8) + seq!['-'] + seq![h[j]] =~= start + (h.subrange(
                    0,
                    8,
                ) + seq!['-'] + h.subrange(8, j + 1)));
            } else if k == 12 {
                assert(h.subrange(12, j + 1) =~= seq![h[j]]);
                assert(out@ =~= start + (h.subrange(0, 8) + seq!['-'] + h.subrange(8, 12)
                    + seq!['-'] + h.subrange(12, j + 1)));
            } else if k == 16 {
                assert(h.subrange(16, j + 1) =~= seq![h[j]]);
                assert(out@ =~= start + (h.subrange(0, 8) + seq!['-'] + h.subrange(8, 12)
                    + seq!['-'] + h.subrange(12, 16) + seq!['-'] + h.subrange(16, j + 1)));
            } else if k == 20 {
                assert(h.subrange(20, j + 1) =~= seq![h[j]]);
                assert(out@ =~= start + (h.subrange(0, 8) + seq!['-'] + h.subrange(8, 12)
                    + seq!['-'] + h.subrange(12, 16) + seq!['-'] + h.subrange(16, 20) + seq!['-']
                    + h.subrange(20, j + 1)));
            } else if k < 8 {
                assert(h.subrange(0, j + 1) =~= h.subrange(0, j).push(h[j]));
                assert(out@ =~= start + h.subrange(0, j + 1));
            } else if k < 12 {
                assert(h.subrange(8, j + 1) =~= h.subrange(8, j).push(h[j]));
                assert(out@ =~= start + (h.subrange(0, 8) + seq!['-'] + h.subrange(8, j + 1)));
            } else if k < 16 {
                assert(h.subrange(12, j + 1) =~= h.subrange(12, j).push(h[j]));
                assert(out@ =~= start + (h.subrange(0, 8) + seq!['-'] + h.subrange(8, 12)
                    + seq!['-'] + h.subrange(12, j + 1)));
            } else if k < 20 {
                assert(h.subrange(16, j + 1) =~= h.subrange(16, j).push(h[j]));
                assert(out@ =~= start + (h.subrange(0, 8) + seq!['-'] + h.subrange(8, 12)
                    + seq!['-'] + h.subrange(12, 16) + seq!['-'] + h.subrange(16, j + 1)));
            } else {
                assert(h.subrange(20, j + 1) =~= h.subrange(20, j).push(h[j]));
                assert(out@ =~= start + (h.subrange(0, 8) + seq!['-'] + h.subrange(8, 12)
                    + seq!['-'] + h.subrange(12, 16) + seq!['-'] + h.subrange(16, 20) + seq!['-']
                    + h.subrange(20, j + 1)));
            }
        }
        k = k + 1;
    }
}

/// The usual text of an identifier.
pub fn uuid_string(id: u128) -> (out: String)
    ensures
        out@ == uuid_text(id),
{
    let mut out = String::new();
    push_uuid(&mut out, id);
    assert(Seq::<char>::empty() + uuid_text(id) =~= uuid_text(id));
    out
}

/// The actions that take a raid alone.
pub open spec fn plain_action(kind: Seq<char>) -> bool {
    ||| kind == "l"@
    ||| kind == "la"@
    ||| kind == "mg"@
    ||| kind == "pc"@
    ||| kind == "ps"@
    ||| kind == "ok"@
    ||| kind == "pr"@
    ||| kind == "mr"@
    ||| kind == "kk"@
    ||| kind == "cx"@
    ||| kind == "not"@
    ||| kind == "cho"@
    ||| kind == "chp"@
    ||| kind == "chc"@
}

/// The text without a leading `r:`.
pub open spec fn without_prefix(s: Seq<char>) -> Seq<char> {
    if s.len() >= 2 && s[0] == 'r' && s[1] == ':' {
        s.skip(2)
    } else {
        s
    }
}

/// The parts of a component identifier: an action, what it acts on, and
/// the text that names the raid. The identifier is `j:m:` or `j:a:` and a
/// raid, to join with the primary slot or an alt, or one of the plain
/// actions, a colon and a raid; `r:` may stand before either.
pub open spec fn component_parts(s: Seq<char>) -> Option<(Seq<char>, Seq<char>, Seq<char>)> {
    let body = without_prefix(s);
    let c1 = find_char(body, ':', 0);
    let c2 = find_char(body, ':', c1 + 1);
    let c3 = find_char(body, ':', c2 + 1);
    let first = body.subrange(0, c1);
    if c1 >= body.len() {
        None
    } else if c2 >= body.len() {
        if plain_action(first) {
            Some((first, Seq::empty(), body.subrange(c1 + 1, body.len() as int)))
        } else {
            None
        }
    } else if c3 >= body.len() {
        let second = body.subrange(c1 + 1, c2);
        if first == "j"@ && (second == "m"@ || second == "a"@) {
            Some((first, second, body.subrange(c2 + 1, body.len() as int)))
        } else {
            None
        }
    } else {
        None
    }
}

fn text_is(text: &String, lit: &str) -> (same: bool)
    ensures
        same == (text@ == lit@),
{
    let other = String::from_str(lit);
    *text == other
}

fn is_plain_action(kind: &String) -> (plain: bool)
    ensures
        plain == plain_action(kind@),
{
    text_is(kind, "l") || text_is(kind, "la") || text_is(kind, "mg") || text_is(kind, "pc")
        || text_is(kind, "ps") || text_is(kind, "ok") || text_is(kind, "pr") || text_is(kind, "mr")
        || text_is(kind, "kk") || text_is(kind, "cx") || text_is(kind, "not") || text_is(
        kind,
        "cho",
    ) || text_is(kind, "chp") || text_is(kind, "chc")
}

/// Splits a component identifier into its parts.
pub fn split_component_id(s: &str) -> (parts: Option<(String, String, String)>)
    ensures
        match parts {
            Some((kind, which, raid)) => component_parts(s@) == Some((kind@, which@, raid@)),
            None => component_parts(s@) is None,
        },
{
    let all = chars_of(s);
    let skip: usize = if all.len() >= 2 && all[0] == 'r' && all[1] == ':' {
        2
    } else {
        0
    };
    let body_text = text_of(&all, skip, all.len());
    let body = chars_of(body_text.as_str());
    assert(body@ =~= without_prefix(s@));
    let c1 = position_of(&body, ':', 0);
    if c1 >= body.len() {
        return None;
    }
    let first = text_of(&body, 0, c1);
    let c2 = position_of(&body, ':', c1 + 1);
    if c2 >= body.len() {
        if !is_plain_action(&first) {
            return None;
        }
        let rest = text_of(&body, c1 + 1, body.len());
        let which = String::new();
        return Some((first, which, rest));
    }
    let c3 = position_of(&body, ':', c2 + 1);
    if c3 < body.len() {
        return None;
    }
    let second = text_of(&body, c1 + 1, c2);
    if !(text_is(&first, "j") && (text_is(&second, "m") || text_is(&second, "a"))) {
        return None;
    }
    let rest = text_of(&body, c2 + 1, body.len());
    Some((first, second, rest))
}

/// Puts the parts of a component identifier together with the raid that
/// its text was read as.
pub fn with_raid(parts: Option<(String, String, String)>, raid: Option<u128>) -> (parsed: Option<
    (String, String, u128),
>)
    ensures
        match (parts, raid) {
            (Some((kind, which, _)), Some(id)) => parsed matches Some((k, w, i)) && k@ == kind@
                && w@ == which@ && i == id,
            _ => parsed is None,
        },
{
    match parts {
        Some((kind, which, _)) => match raid {
            Some(id) => Some((kind, which, id)),
            None => None,
        },
        None => None,
    }
}

/// Reads a text as an identifier.
pub fn read_uuid(text: &str) -> (id: Option<u128>)
    ensures
        id == uuid_parsed(text@),
{
    parse_uuid(text)
}

/// Reads a component identifier: the action, what it acts on, and the
/// raid. Nothing is read where the parts are not as they should be or the
/// raid's text is no identifier.
pub fn parse_component_id(s: &str) -> (parsed: Option<(String, String, u128)>)
    ensures
        match component_parts(s@) {
            Some((kind, which, raid)) => match uuid_parsed(raid) {
                Some(id) => parsed matches Some((k, w, i)) && k@ == kind && w@ == which && i
                    == id,
                None => parsed is None,
            },
            None => parsed is None,
        },
{
    let parts = split_component_id(s);
    let raid = match &parts {
        Some((_, _, raid_text)) => parse_uuid(raid_text.as_str()),
        None => None,
    };
    with_raid(parts, raid)
}

} // verus!
