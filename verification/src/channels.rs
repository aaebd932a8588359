//! The channel of a raid: its name and the category it goes under.

use crate::text::{chars_of, push_char};
use vstd::prelude::*;
use vstd::string::*;

verus! {

/// The text in lower case as `str::to_lowercase` of the standard library
/// has it, by the rules of Unicode.
pub uninterp spec fn lowercase_of(text: Seq<char>) -> Seq<char>;

/// Calls `str::to_lowercase` of the standard library.
#[verifier::external_body]
fn lowercase(text: &str) -> (low: String)
    ensures
        low@ == lowercase_of(text@),
{
    text.to_lowercase()
}

/// The text in lower case, by the rules of Unicode.
pub fn to_lowercase(text: &str) -> (low: String)
    ensures
        low@ == lowercase_of(text@),
{
    lowercase(text)
}

/// A character of a slug: a hyphen for a blank or an underscore, any other
/// character as it is.
pub open spec fn slug_char(c: char) -> char {
    if c == ' ' || c == '_' {
        '-'
    } else {
        c
    }
}

/// The text with hyphens for its blanks and underscores.
pub open spec fn hyphenated(text: Seq<char>) -> Seq<char> {
    text.map_values(|c: char| slug_char(c))
}

/// Writes hyphens for the blanks and underscores of a text.
pub fn hyphenate(text: &str) -> (out: String)
    ensures
        out@ == hyphenated(text@),
{
    let chars = chars_of(text);
    let mut out = String::new();
    let mut k: usize = 0;
    while k < chars.len()
        invariant
            k <= chars.len(),
            chars@ == text@,
            out@ == hyphenated(text@.take(k as int)),
        decreases chars.len() - k,
    {
        let c = chars[k];
        let d = if c == ' ' || c == '_' {
            '-'
        } else {
            c
        };
        push_char(&mut out, d);
        assert(text@.take(k + 1) =~= text@.take(k as int).push(text@[k as int]));
        assert(hyphenated(text@.take(k + 1)) =~= hyphenated(text@.take(k as int)).push(
            slug_char(text@[k as int]),
        ));
        k = k + 1;
    }
    assert(text@.take(k as int) =~= text@);
    out
}

/// Whether the text begins with the prefix.
pub open spec fn begins_with(text: Seq<char>, prefix: Seq<char>) -> bool {
    text.len() >= prefix.len() && text.take(prefix.len() as int) == prefix
}

/// The emoji that marks the channel of a raid, by the slug of its name.
pub open spec fn emoji_of(slug: Seq<char>) -> Seq<char> {
    if slug == "armav2"@ {
        "\u{1f9be}"@
    } else if slug == "arma"@ {
        "\u{1f916}"@
    } else if slug == "pollutus"@ {
        "\u{1f9a0}"@
    } else if slug == "azgobas"@ {
        "\u{1f409}"@
    } else if slug == "valehir"@ {
        "\u{1f480}"@
    } else if slug == "alzanor"@ {
        "\u{1f976}"@
    } else if slug == "sky-tower"@ {
        "\u{1f5fc}"@
    } else if begins_with(slug, seq!['h', 'c', '-']) {
        "\u{1f525}"@
    } else {
        "\u{1f3f7}\u{fe0f}"@
    }
}

fn same(text: &String, lit: &str) -> (eq: bool)
    ensures
        eq == (text@ == lit@),
{
    let other = String::from_str(lit);
    *text == other
}

/// The emoji that marks the channel of a raid with the slug.
pub fn emoji_for(slug: &String) -> (emoji: &'static str)
    ensures
        emoji@ == emoji_of(slug@),
{
    if same(slug, "armav2") {
        "\u{1f9be}"
    } else if same(slug, "arma") {
        "\u{1f916}"
    } else if same(slug, "pollutus") {
        "\u{1f9a0}"
    } else if same(slug, "azgobas") {
        "\u{1f409}"
    } else if same(slug, "valehir") {
        "\u{1f480}"
    } else if same(slug, "alzanor") {
        "\u{1f976}"
    } else if same(slug, "sky-tower") {
        "\u{1f5fc}"
    } else {
        let chars = chars_of(slug.as_str());
        let hard = chars.len() >= 3 && chars[0] == 'h' && chars[1] == 'c' && chars[2] == '-';
        proof {
            if chars@.len() >= 3 {
                assert(slug@.take(3) =~= seq![slug@[0], slug@[1], slug@[2]]);
                if hard {
                    assert(slug@.take(3) =~= seq!['h', 'c', '-']);
                } else {
                    assert(slug@.take(3) != seq!['h', 'c', '-']) by {
                        if slug@.take(3) == seq!['h', 'c', '-'] {
                            assert(slug@.take(3)[0] == 'h');
                            assert(slug@.take(3)[1] == 'c');
                            assert(slug@.take(3)[2] == '-');
                        }
                    }
                }
            }
        }
        if hard {
            "\u{1f525}"
        } else {
            "\u{1f3f7}\u{fe0f}"
        }
    }
}

/// The emoji and the slug for the name of a raid: the slug is the name in
/// lower case with hyphens for its blanks and underscores.
pub fn emoji_and_slug(raid_choice: &str) -> (pair: (&'static str, String))
    ensures
        pair.1@ == hyphenated(lowercase_of(raid_choice@)),
        pair.0@ == emoji_of(pair.1@),
{
    let low = to_lowercase(raid_choice);
    let slug = hyphenate(low.as_str());
    let emoji = emoji_for(&slug);
    (emoji, slug)
}

/// The name of the channel of a raid.
pub open spec fn channel_name_of(
    emoji: Seq<char>,
    slug: Seq<char>,
    date: Seq<char>,
    time: Seq<char>,
) -> Seq<char> {
    emoji + "-"@ + slug + "-"@ + date + " at "@ + time
}

/// Puts the name of a raid's channel together.
pub fn channel_name(emoji: &str, slug: &str, date: &str, time: &str) -> (name: String)
    ensures
        name@ == channel_name_of(emoji@, slug@, date@, time@),
{
    let mut name = String::from_str(emoji);
    name.append("-");
    name.append(slug);
    name.append("-");
    name.append(date);
    name.append(" at ");
    name.append(time);
    name
}

/// Whether the needle stands somewhere in the text.
pub open spec fn holds_text(text: Seq<char>, needle: Seq<char>) -> bool {
    exists|at: int|
        0 <= at <= text.len() - needle.len() && #[trigger] text.subrange(
            at,
            at + needle.len(),
        ) == needle
}

fn matches_at(text: &Vec<char>, needle: &Vec<char>, at: usize) -> (hit: bool)
    requires
        at + needle@.len() <= text@.len() <= usize::MAX,
    ensures
        hit == (text@.subrange(at as int, at + needle@.len()) == needle@),
{
    let mut k: usize = 0;
    while k < needle.len()
        invariant
            k <= needle.len(),
            at + needle@.len() <= text@.len() <= usize::MAX,
            forall|i: int| 0 <= i < k ==> text@[at + i] == needle@[i],
        decreases needle.len() - k,
    {
        if text[at + k] != needle[k] {
            assert(text@.subrange(at as int, at + needle@.len())[k as int] != needle@[k as int]);
            return false;
        }
        k = k + 1;
    }
    assert(text@.subrange(at as int, at + needle@.len()) =~= needle@);
    true
}

/// Whether the needle stands somewhere in the text.
pub fn contains_text(text: &str, needle: &str) -> (found: bool)
    ensures
        found == holds_text(text@, needle@),
{
    let hay = chars_of(text);
    let pin = chars_of(needle);
    if pin.len() > hay.len() {
        return false;
    }
    let last = hay.len() - pin.len();
    let mut at: usize = 0;
    while at <= last
        invariant
            at <= last + 1,
            last == hay@.len() - pin@.len(),
            hay@.len() <= usize::MAX,
            hay@ == text@,
            pin@ == needle@,
            forall|i: int|
                0 <= i < at ==> #[trigger] text@.subrange(i, i + needle@.len()) != needle@,
        decreases last + 1 - at,
    {
        if matches_at(&hay, &pin, at) {
            return true;
        }
        if at == usize::MAX {
            return false;
        }
        at = at + 1;
    }
    false
}

/// A channel of a guild, as far as finding a category needs it.
pub struct Channel {
    pub id: u64,
    pub name: String,
    pub is_category: bool,
}

/// Channel `i` is a category whose name, in lower case, holds the word.
pub open spec fn category_at(channels: Seq<Channel>, i: int, word: Seq<char>) -> bool {
    0 <= i < channels.len() && channels[i].is_category && holds_text(
        lowercase_of(channels[i].name@),
        word,
    )
}

/// The first category whose name holds the name of the day, in the order
/// in which the channels are given.
pub fn find_category(channels: &Vec<Channel>, weekday: &str) -> (found: Option<u64>)
    ensures
        match found {
            Some(id) => exists|i: int|
                category_at(channels@, i, weekday@) && channels@[i].id == id && forall|j: int|
                    0 <= j < i ==> !category_at(channels@, j, weekday@),
            None => forall|i: int| !category_at(channels@, i, weekday@),
        },
{
    let mut k: usize = 0;
    while k < channels.len()
        invariant
            k <= channels.len(),
            forall|j: int| 0 <= j < k ==> !category_at(channels@, j, weekday@),
        decreases channels.len() - k,
    {
        if channels[k].is_category {
            let low = to_lowercase(channels[k].name.as_str());
            if contains_text(low.as_str(), weekday) {
                assert(category_at(channels@, k as int, weekday@));
                return Some(channels[k].id);
            }
        }
        k = k + 1;
    }
    None
}

/// The text with hyphens for its blanks.
pub open spec fn blanks_hyphenated(text: Seq<char>) -> Seq<char> {
    text.map_values(
        |c: char|
            if c == ' ' {
                '-'
            } else {
                c
            },
    )
}

/// Writes hyphens for the blanks of a text.
pub fn hyphenate_blanks(text: &str) -> (out: String)
    ensures
        out@ == blanks_hyphenated(text@),
{
    let chars = chars_of(text);
    let mut out = String::new();
    let mut k: usize = 0;
    while k < chars.len()
        invariant
            k <= chars.len(),
            chars@ == text@,
            out@ == blanks_hyphenated(text@.take(k as int)),
        decreases chars.len() - k,
    {
        let c = chars[k];
        let d = if c == ' ' {
            '-'
        } else {
            c
        };
        push_char(&mut out, d);
        assert(text@.take(k + 1) =~= text@.take(k as int).push(text@[k as int]));
        assert(blanks_hyphenated(text@.take(k + 1)) =~= blanks_hyphenated(
            text@.take(k as int),
        ).push(d));
        k = k + 1;
    }
    assert(text@.take(k as int) =~= text@);
    out
}

} // verus!
