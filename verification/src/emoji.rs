//! Guild emojis that decorate role labels.

use crate::text::{
    ascii_lowercase, ascii_uppercase, chars_of, decimal, eq_ignore_ascii_case, find_char, lowered,
    position_of, push_decimal, same_ignoring_case, text_of, trim_bounds, trimmed, uppered,
};
use vstd::prelude::*;
use vstd::string::*;

verus! {

/// An emoji of a guild.
pub struct Emoji {
    pub name: String,
    pub id: u64,
}

/// How an emoji is written into a message.
pub open spec fn tag_of(name: Seq<char>, id: u64) -> Seq<char> {
    "<:"@ + name + ":"@ + decimal(id as nat) + ">"@
}

/// The first emoji that carries the name, but for the case of ASCII
/// letters.
pub open spec fn first_named(emojis: Seq<Emoji>, name: Seq<char>) -> Option<Emoji>
    decreases emojis.len(),
{
    if emojis.len() == 0 {
        None
    } else if same_ignoring_case(emojis[0].name@, name) {
        Some(emojis[0])
    } else {
        first_named(emojis.drop_first(), name)
    }
}

/// The tag of the guild's emoji with the name, if the guild has one.
pub fn emoji_tag(emojis: &Vec<Emoji>, name: &str) -> (tag: Option<String>)
    ensures
        match tag {
            Some(t) => first_named(emojis@, name@) matches Some(e) && t@ == tag_of(e.name@, e.id),
            None => first_named(emojis@, name@) is None,
        },
{
    let mut k: usize = 0;
    assert(emojis@.skip(0) =~= emojis@);
    while k < emojis.len()
        invariant
            k <= emojis.len(),
            first_named(emojis@, name@) == first_named(emojis@.skip(k as int), name@),
        decreases emojis.len() - k,
    {
        let ghost rest = emojis@.skip(k as int);
        assert(rest[0] == emojis@[k as int]);
        assert(rest.drop_first() =~= emojis@.skip(k + 1));
        if eq_ignore_ascii_case(emojis[k].name.as_str(), name) {
            let mut tag = String::from_str("<:");
            tag.append(emojis[k].name.as_str());
            tag.append(":");
            push_decimal(&mut tag, emojis[k].id);
            tag.append(">");
            return Some(tag);
        }
        k = k + 1;
    }
    assert(emojis@.skip(k as int).len() == 0);
    None
}

/// The short form of a class, in upper case: the known classes by their
/// usual short form, any other as it is.
pub open spec fn abbr_of(class: Seq<char>) -> Seq<char> {
    let low = lowered(class);
    if low == "warrior"@ || low == "msw"@ {
        "MSW"@
    } else if low == "archer"@ || low == "arch"@ {
        "ARCH"@
    } else if low == "swordsman"@ || low == "sword"@ {
        "SWORD"@
    } else if low == "mage"@ || low == "mag"@ {
        "MAG"@
    } else {
        uppered(low)
    }
}

fn text_is(text: &String, lit: &str) -> (same: bool)
    ensures
        same == (text@ == lit@),
{
    let other = String::from_str(lit);
    *text == other
}

/// The short form of a class.
pub fn class_abbr(class: &str) -> (abbr: String)
    ensures
        abbr@ == abbr_of(class@),
{
    let low = ascii_lowercase(class);
    if text_is(&low, "warrior") || text_is(&low, "msw") {
        String::from_str("MSW")
    } else if text_is(&low, "archer") || text_is(&low, "arch") {
        String::from_str("ARCH")
    } else if text_is(&low, "swordsman") || text_is(&low, "sword") {
        String::from_str("SWORD")
    } else if text_is(&low, "mage") || text_is(&low, "mag") {
        String::from_str("MAG")
    } else {
        ascii_uppercase(low.as_str())
    }
}

/// The name of the emoji for a label of the form "class / specialist":
/// the short form of the class, an underscore and the specialist in upper
/// case. A label with no slash or with more than one has no emoji.
pub open spec fn emoji_name_of(label: Seq<char>) -> Option<Seq<char>> {
    let cut = find_char(label, '/', 0);
    if cut < label.len() && find_char(label, '/', cut + 1) >= label.len() {
        Some(
            abbr_of(trimmed(label.subrange(0, cut))) + "_"@ + uppered(
                trimmed(label.subrange(cut + 1, label.len() as int)),
            ),
        )
    } else {
        None
    }
}

/// The name of the emoji for a label.
pub fn emoji_name(label: &str) -> (name: Option<String>)
    ensures
        match name {
            Some(n) => emoji_name_of(label@) == Some(n@),
            None => emoji_name_of(label@) is None,
        },
{
    let chars = chars_of(label);
    let cut = position_of(&chars, '/', 0);
    if cut >= chars.len() {
        return None;
    }
    let next = position_of(&chars, '/', cut + 1);
    if next < chars.len() {
        return None;
    }
    let (a, b) = trim_bounds(&chars, 0, cut);
    let class = text_of(&chars, a, b);
    let (c, d) = trim_bounds(&chars, cut + 1, chars.len());
    let sp = text_of(&chars, c, d);
    let mut name = class_abbr(class.as_str());
    name.append("_");
    let upper = ascii_uppercase(sp.as_str());
    name.append(upper.as_str());
    Some(name)
}

/// A label as the summary shows it: behind the tag of its emoji and a
/// blank where the guild has that emoji, else as it is.
pub open spec fn decorated(emojis: Option<Seq<Emoji>>, label: Seq<char>) -> Seq<char> {
    match (emojis, emoji_name_of(label)) {
        (Some(list), Some(name)) => match first_named(list, name) {
            Some(e) => tag_of(e.name@, e.id) + " "@ + label,
            None => label,
        },
        _ => label,
    }
}

/// Puts the emoji of a label before it, where the guild has one.
pub fn decorate_joined_as(emojis: Option<&Vec<Emoji>>, text: &str) -> (out: String)
    ensures
        out@ == decorated(
            match emojis {
                Some(list) => Some(list@),
                None => None,
            },
            text@,
        ),
{
    let mut out = String::new();
    match emojis {
        Some(list) => match emoji_name(text) {
            Some(name) => match emoji_tag(list, name.as_str()) {
                Some(tag) => {
                    out.append(tag.as_str());
                    out.append(" ");
                },
                None => {},
            },
            None => {},
        },
        None => {},
    }
    out.append(text);
    assert(Seq::<char>::empty() + text@ =~= text@);
    out
}

} // verus!
