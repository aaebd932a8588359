//! Building the short texts that the library hands out: decimal numbers
//! and joined lines.

use vstd::prelude::*;
use vstd::string::*;

verus! {

/// The character of one decimal digit.
pub open spec fn digit_char(d: int) -> char {
    if d == 0 {
        '0'
    } else if d == 1 {
        '1'
    } else if d == 2 {
        '2'
    } else if d == 3 {
        '3'
    } else if d == 4 {
        '4'
    } else if d == 5 {
        '5'
    } else if d == 6 {
        '6'
    } else if d == 7 {
        '7'
    } else if d == 8 {
        '8'
    } else {
        '9'
    }
}

/// The decimal digits of a number, most significant first, without leading
/// zeros.
pub open spec fn decimal(n: nat) -> Seq<char>
    decreases n,
{
    if n < 10 {
        seq![digit_char(n as int)]
    } else {
        decimal(n / 10).push(digit_char((n % 10) as int))
    }
}

/// The decimal text of a signed number: a minus sign before the digits of a
/// negative one.
pub open spec fn signed_decimal(n: int) -> Seq<char> {
    if n < 0 {
        seq!['-'] + decimal((-n) as nat)
    } else {
        decimal(n as nat)
    }
}

fn digit_str(d: u64) -> (s: &'static str)
    requires
        d < 10,
    ensures
        s@ == seq![digit_char(d as int)],
{
    proof {
        reveal_strlit("0");
        reveal_strlit("1");
        reveal_strlit("2");
        reveal_strlit("3");
        reveal_strlit("4");
        reveal_strlit("5");
        reveal_strlit("6");
        reveal_strlit("7");
        reveal_strlit("8");
        reveal_strlit("9");
    }
    let s = if d == 0 {
        "0"
    } else if d == 1 {
        "1"
    } else if d == 2 {
        "2"
    } else if d == 3 {
        "3"
    } else if d == 4 {
        "4"
    } else if d == 5 {
        "5"
    } else if d == 6 {
        "6"
    } else if d == 7 {
        "7"
    } else if d == 8 {
        "8"
    } else {
        "9"
    };
    assert(s@ =~= seq![digit_char(d as int)]);
    s
}

/// Writes the decimal digits of `n` behind what `out` holds.
pub fn push_decimal(out: &mut String, n: u64)
    ensures
        final(out)@ == old(out)@ + decimal(n as nat),
    decreases n,
{
    if n >= 10 {
        push_decimal(out, n / 10);
    }
    out.append(digit_str(n % 10));
    proof {
        if n >= 10 {
            assert(old(out)@ + decimal((n / 10) as nat) + seq![digit_char((n % 10) as int)]
                =~= old(out)@ + decimal(n as nat));
        } else {
            assert(old(out)@ + seq![digit_char((n % 10) as int)] =~= old(out)@ + decimal(
                n as nat,
            ));
        }
    }
}

/// Writes the decimal text of `n` behind what `out` holds.
pub fn push_signed_decimal(out: &mut String, n: i64)
    ensures
        final(out)@ == old(out)@ + signed_decimal(n as int),
{
    if n < 0 {
        proof {
            reveal_strlit("-");
        }
        out.append("-");
        let magnitude: u64 = if n == i64::MIN {
            9223372036854775808u64
        } else {
            (-n) as u64
        };
        push_decimal(out, magnitude);
        assert(old(out)@ + "-"@ + decimal(magnitude as nat) =~= old(out)@ + signed_decimal(
            n as int,
        ));
    } else {
        push_decimal(out, n as u64);
    }
}

/// Calls `String::push` of the standard library, which appends the
/// character to the end of the string.
#[verifier::external_body]
pub(crate) fn push_char(out: &mut String, c: char)
    ensures
        final(out)@ == old(out)@.push(c),
{
    out.push(c);
}

/// The characters of a text.
pub fn chars_of(s: &str) -> (chars: Vec<char>)
    ensures
        chars@ == s@,
{
    let n = s.unicode_len();
    let mut chars: Vec<char> = Vec::new();
    let mut k: usize = 0;
    while k < n
        invariant
            k <= n,
            n == s@.len(),
            chars@ == s@.take(k as int),
        decreases n - k,
    {
        chars.push(s.get_char(k));
        assert(s@.take(k + 1) =~= s@.take(k as int).push(s@[k as int]));
        k = k + 1;
    }
    assert(s@.take(n as int) =~= s@);
    chars
}

/// The text made of the characters from `from` up to `to`.
pub(crate) fn text_of(chars: &Vec<char>, from: usize, to: usize) -> (out: String)
    requires
        from <= to <= chars@.len(),
    ensures
        out@ == chars@.subrange(from as int, to as int),
{
    let mut out = String::new();
    let mut k: usize = from;
    while k < to
        invariant
            from <= k <= to <= chars@.len(),
            out@ == chars@.subrange(from as int, k as int),
        decreases to - k,
    {
        push_char(&mut out, chars[k]);
        assert(chars@.subrange(from as int, k + 1) =~= chars@.subrange(from as int, k as int).push(
            chars@[k as int],
        ));
        k = k + 1;
    }
    out
}

/// White space as the standard library's `char::is_whitespace` has it.
pub open spec fn is_space(c: char) -> bool {
    let u = c as u32;
    ||| 0x9 <= u <= 0xd
    ||| u == 0x20
    ||| u == 0x85
    ||| u == 0xa0
    ||| u == 0x1680
    ||| 0x2000 <= u <= 0x200a
    ||| u == 0x2028
    ||| u == 0x2029
    ||| u == 0x202f
    ||| u == 0x205f
    ||| u == 0x3000
}

/// Whether the character is white space.
pub fn char_is_space(c: char) -> (space: bool)
    ensures
        space == is_space(c),
{
    let u = c as u32;
    (0x9 <= u && u <= 0xd) || u == 0x20 || u == 0x85 || u == 0xa0 || u == 0x1680 || (0x2000 <= u
        && u <= 0x200a) || u == 0x2028 || u == 0x2029 || u == 0x202f || u == 0x205f || u
        == 0x3000
}

/// The first position at or after `from` that holds no white space.
pub open spec fn skip_spaces(s: Seq<char>, from: int) -> int
    decreases s.len() - from,
{
    if 0 <= from < s.len() && is_space(s[from]) {
        skip_spaces(s, from + 1)
    } else {
        from
    }
}

/// The end of the text before `to` once trailing white space is dropped.
pub open spec fn drop_spaces(s: Seq<char>, to: int) -> int
    decreases to,
{
    if 0 < to <= s.len() && is_space(s[to - 1]) {
        drop_spaces(s, to - 1)
    } else {
        to
    }
}

/// The text without leading and trailing white space.
pub open spec fn trimmed(s: Seq<char>) -> Seq<char> {
    let from = skip_spaces(s, 0);
    if from >= s.len() {
        Seq::empty()
    } else {
        s.subrange(from, drop_spaces(s, s.len() as int))
    }
}

/// The bounds of the text between `from` and `to` without the white space
/// at its ends.
pub(crate) fn trim_bounds(chars: &Vec<char>, from: usize, to: usize) -> (bounds: (usize, usize))
    requires
        from <= to <= chars@.len(),
    ensures
        from <= bounds.0 <= bounds.1 <= to,
        chars@.subrange(bounds.0 as int, bounds.1 as int) == trimmed(
            chars@.subrange(from as int, to as int),
        ),
{
    let ghost s = chars@.subrange(from as int, to as int);
    let mut a: usize = from;
    while a < to && char_is_space(chars[a])
        invariant
            from <= a <= to <= chars@.len(),
            s == chars@.subrange(from as int, to as int),
            skip_spaces(s, 0) == skip_spaces(s, a - from),
        decreases to - a,
    {
        assert(s[a - from] == chars@[a as int]);
        a = a + 1;
    }
    proof {
        if a < to {
            assert(s[a - from] == chars@[a as int]);
        }
        assert(skip_spaces(s, 0) == a - from);
    }
    if a == to {
        assert(chars@.subrange(a as int, a as int) =~= Seq::<char>::empty());
        return (a, a);
    }
    let mut b: usize = to;
    while char_is_space(chars[b - 1])
        invariant
            from <= a < b <= to <= chars@.len(),
            s == chars@.subrange(from as int, to as int),
            !is_space(chars@[a as int]),
            drop_spaces(s, s.len() as int) == drop_spaces(s, b - from),
        decreases b,
    {
        assert(s[b - from - 1] == chars@[b - 1]);
        b = b - 1;
    }
    proof {
        assert(s[b - from - 1] == chars@[b - 1]);
        assert(drop_spaces(s, s.len() as int) == b - from);
        assert(chars@.subrange(a as int, b as int) =~= s.subrange(a - from, b - from));
    }
    (a, b)
}

/// The text without leading and trailing white space.
pub fn trim(s: &str) -> (out: String)
    ensures
        out@ == trimmed(s@),
{
    let chars = chars_of(s);
    assert(chars@.subrange(0, chars@.len() as int) =~= chars@);
    let (a, b) = trim_bounds(&chars, 0, chars.len());
    text_of(&chars, a, b)
}

/// The first position at or after `from` that holds `sep`, or the length
/// of the text where there is none.
pub open spec fn find_char(s: Seq<char>, sep: char, from: int) -> int
    decreases s.len() - from,
{
    if 0 <= from < s.len() && s[from] != sep {
        find_char(s, sep, from + 1)
    } else if from > s.len() {
        s.len() as int
    } else {
        from
    }
}

/// Where `sep` first stands at or after `from`.
pub(crate) fn position_of(chars: &Vec<char>, sep: char, from: usize) -> (at: usize)
    requires
        from <= chars@.len(),
    ensures
        from <= at <= chars@.len(),
        at == find_char(chars@, sep, from as int),
{
    let mut k: usize = from;
    while k < chars.len() && chars[k] != sep
        invariant
            from <= k <= chars@.len(),
            find_char(chars@, sep, from as int) == find_char(chars@, sep, k as int),
        decreases chars@.len() - k,
    {
        k = k + 1;
    }
    k
}

/// The character with an upper-case ASCII letter turned into its lower-case
/// form.
pub open spec fn ascii_lower(c: char) -> char {
    if 'A' <= c <= 'Z' {
        ((c as u8) + 32) as u8 as char
    } else {
        c
    }
}

/// The character with a lower-case ASCII letter turned into its upper-case
/// form.
pub open spec fn ascii_upper(c: char) -> char {
    if 'a' <= c <= 'z' {
        ((c as u8) - 32) as u8 as char
    } else {
        c
    }
}

/// The lower-case form of an ASCII letter.
pub fn to_ascii_lower(c: char) -> (lower: char)
    ensures
        lower == ascii_lower(c),
{
    if 'A' <= c && c <= 'Z' {
        ((c as u8) + 32) as char
    } else {
        c
    }
}

/// The upper-case form of an ASCII letter.
pub fn to_ascii_upper(c: char) -> (upper: char)
    ensures
        upper == ascii_upper(c),
{
    if 'a' <= c && c <= 'z' {
        ((c as u8) - 32) as char
    } else {
        c
    }
}

/// The text with its ASCII letters in lower case.
pub open spec fn lowered(s: Seq<char>) -> Seq<char> {
    s.map_values(|c: char| ascii_lower(c))
}

/// The text with its ASCII letters in upper case.
pub open spec fn uppered(s: Seq<char>) -> Seq<char> {
    s.map_values(|c: char| ascii_upper(c))
}

/// Whether two texts are the same but for the case of their ASCII letters.
pub open spec fn same_ignoring_case(a: Seq<char>, b: Seq<char>) -> bool {
    lowered(a) == lowered(b)
}

/// Whether two texts are the same but for the case of ASCII letters.
pub fn eq_ignore_ascii_case(a: &str, b: &str) -> (same: bool)
    ensures
        same == same_ignoring_case(a@, b@),
{
    let x = chars_of(a);
    let y = chars_of(b);
    if x.len() != y.len() {
        assert(lowered(a@).len() != lowered(b@).len());
        return false;
    }
    let mut k: usize = 0;
    while k < x.len()
        invariant
            k <= x.len(),
            x@.len() == y@.len(),
            x@ == a@,
            y@ == b@,
            forall|i: int| 0 <= i < k ==> ascii_lower(x@[i]) == ascii_lower(y@[i]),
        decreases x.len() - k,
    {
        if to_ascii_lower(x[k]) != to_ascii_lower(y[k]) {
            assert(lowered(a@)[k as int] != lowered(b@)[k as int]);
            return false;
        }
        k = k + 1;
    }
    assert(lowered(a@) =~= lowered(b@));
    true
}

/// The text with its ASCII letters in upper case.
pub fn ascii_uppercase(s: &str) -> (out: String)
    ensures
        out@ == uppered(s@),
{
    let chars = chars_of(s);
    let mut out = String::new();
    let mut k: usize = 0;
    while k < chars.len()
        invariant
            k <= chars.len(),
            chars@ == s@,
            out@ == uppered(s@.take(k as int)),
        decreases chars.len() - k,
    {
        push_char(&mut out, to_ascii_upper(chars[k]));
        assert(s@.take(k + 1) =~= s@.take(k as int).push(s@[k as int]));
        assert(uppered(s@.take(k + 1)) =~= uppered(s@.take(k as int)).push(
            ascii_upper(s@[k as int]),
        ));
        k = k + 1;
    }
    assert(s@.take(k as int) =~= s@);
    out
}

/// The text with its ASCII letters in lower case.
pub fn ascii_lowercase(s: &str) -> (out: String)
    ensures
        out@ == lowered(s@),
{
    let chars = chars_of(s);
    let mut out = String::new();
    let mut k: usize = 0;
    while k < chars.len()
        invariant
            k <= chars.len(),
            chars@ == s@,
            out@ == lowered(s@.take(k as int)),
        decreases chars.len() - k,
    {
        push_char(&mut out, to_ascii_lower(chars[k]));
        assert(s@.take(k + 1) =~= s@.take(k as int).push(s@[k as int]));
        assert(lowered(s@.take(k + 1)) =~= lowered(s@.take(k as int)).push(
            ascii_lower(s@[k as int]),
        ));
        k = k + 1;
    }
    assert(s@.take(k as int) =~= s@);
    out
}

/// The first position at or after `from` that holds white space, or the
/// length of the text where there is none.
pub open spec fn word_end(s: Seq<char>, from: int) -> int
    decreases s.len() - from,
{
    if 0 <= from < s.len() && !is_space(s[from]) {
        word_end(s, from + 1)
    } else if from > s.len() {
        s.len() as int
    } else {
        from
    }
}

/// Where the word that starts at `from` ends.
pub(crate) fn end_of_word(chars: &Vec<char>, from: usize) -> (at: usize)
    requires
        from <= chars@.len(),
    ensures
        from <= at <= chars@.len(),
        at == word_end(chars@, from as int),
{
    let mut k: usize = from;
    while k < chars.len() && !char_is_space(chars[k])
        invariant
            from <= k <= chars@.len(),
            word_end(chars@, from as int) == word_end(chars@, k as int),
        decreases chars@.len() - k,
    {
        k = k + 1;
    }
    k
}

/// Where the white space that starts at `from` ends.
pub(crate) fn end_of_spaces(chars: &Vec<char>, from: usize) -> (at: usize)
    requires
        from <= chars@.len(),
    ensures
        from <= at <= chars@.len(),
        at == skip_spaces(chars@, from as int),
{
    let mut k: usize = from;
    while k < chars.len() && char_is_space(chars[k])
        invariant
            from <= k <= chars@.len(),
            skip_spaces(chars@, from as int) == skip_spaces(chars@, k as int),
        decreases chars@.len() - k,
    {
        k = k + 1;
    }
    k
}

/// The two words of a text that holds exactly two, separated and maybe
/// surrounded by white space; nothing for any other text.
pub open spec fn two_words(s: Seq<char>) -> Option<(Seq<char>, Seq<char>)> {
    let a = skip_spaces(s, 0);
    let b = word_end(s, a);
    let c = skip_spaces(s, b);
    let d = word_end(s, c);
    let e = skip_spaces(s, d);
    if a < s.len() && c < s.len() && e >= s.len() {
        Some((s.subrange(a, b), s.subrange(c, d)))
    } else {
        None
    }
}

/// The two words of a text that holds exactly two.
pub fn split_two_words(s: &str) -> (pair: Option<(String, String)>)
    ensures
        match pair {
            Some((first, second)) => two_words(s@) == Some((first@, second@)),
            None => two_words(s@) is None,
        },
{
    let chars = chars_of(s);
    let a = end_of_spaces(&chars, 0);
    let b = end_of_word(&chars, a);
    let c = end_of_spaces(&chars, b);
    let d = end_of_word(&chars, c);
    let e = end_of_spaces(&chars, d);
    if a < chars.len() && c < chars.len() && e >= chars.len() {
        Some((text_of(&chars, a, b), text_of(&chars, c, d)))
    } else {
        None
    }
}

/// What `find_char` finds: the first position from `from` on that holds
/// `sep`, or the end of the text.
pub proof fn lemma_find_char(s: Seq<char>, sep: char, from: int)
    requires
        0 <= from <= s.len(),
    ensures
        from <= find_char(s, sep, from) <= s.len(),
        find_char(s, sep, from) < s.len() ==> s[find_char(s, sep, from)] == sep,
        forall|k: int| from <= k < find_char(s, sep, from) ==> s[k] != sep,
    decreases s.len() - from,
{
    if from < s.len() && s[from] != sep {
        lemma_find_char(s, sep, from + 1);
    }
}

/// What `skip_spaces` finds: the first position from `from` on that holds
/// no white space, or the end of the text.
pub proof fn lemma_skip_spaces(s: Seq<char>, from: int)
    requires
        0 <= from <= s.len(),
    ensures
        from <= skip_spaces(s, from) <= s.len(),
        skip_spaces(s, from) < s.len() ==> !is_space(s[skip_spaces(s, from)]),
        forall|k: int| from <= k < skip_spaces(s, from) ==> is_space(s[k]),
    decreases s.len() - from,
{
    if from < s.len() && is_space(s[from]) {
        lemma_skip_spaces(s, from + 1);
    }
}

/// What `drop_spaces` finds: the end of the text before `to` without the
/// white space that it ends in.
pub proof fn lemma_drop_spaces(s: Seq<char>, to: int)
    requires
        0 <= to <= s.len(),
    ensures
        0 <= drop_spaces(s, to) <= to,
        drop_spaces(s, to) > 0 ==> !is_space(s[drop_spaces(s, to) - 1]),
        forall|k: int| drop_spaces(s, to) <= k < to ==> is_space(s[k]),
    decreases to,
{
    if to > 0 && is_space(s[to - 1]) {
        lemma_drop_spaces(s, to - 1);
    }
}

/// A text is tidy if neither its first nor its last character is white
/// space.
pub open spec fn tidy_ends(s: Seq<char>) -> bool {
    s.len() == 0 || (!is_space(s[0]) && !is_space(s.last()))
}

/// What trimming gives: a stretch of the text, with tidy ends.
pub proof fn lemma_trimmed(s: Seq<char>)
    ensures
        tidy_ends(trimmed(s)),
        exists|a: int, b: int|
            0 <= a <= b <= s.len() && #[trigger] s.subrange(a, b) == trimmed(s),
{
    lemma_skip_spaces(s, 0);
    lemma_drop_spaces(s, s.len() as int);
    let a = skip_spaces(s, 0);
    let b = drop_spaces(s, s.len() as int);
    if a >= s.len() {
        assert(s.subrange(0, 0) =~= trimmed(s));
    } else {
        assert(b > a) by {
            if b <= a {
                assert(is_space(s[a]));
            }
        }
        assert(trimmed(s)[0] == s[a]);
        assert(trimmed(s).last() == s[b - 1]);
        assert(s.subrange(a, b) == trimmed(s));
    }
}

/// Trimming a tidy text with one blank behind it gives the text back.
pub proof fn lemma_trim_tidy_with_blank(c: Seq<char>)
    requires
        tidy_ends(c),
    ensures
        trimmed(c.push(' ')) == c,
{
    let p = c.push(' ');
    lemma_skip_spaces(p, 0);
    lemma_drop_spaces(p, p.len() as int);
    let a = skip_spaces(p, 0);
    let b = drop_spaces(p, p.len() as int);
    assert(is_space(' '));
    if c.len() == 0 {
        assert(p[0] == ' ');
        assert(a == 1);
        assert(trimmed(p) =~= c);
    } else {
        assert(p[0] == c[0]);
        assert(a == 0) by {
            if a > 0 {
                assert(is_space(p[0]));
            }
        }
        assert(p[c.len() as int] == ' ');
        assert(p[c.len() - 1] == c.last());
        assert(b == c.len()) by {
            if b > c.len() {
                assert(!is_space(p[b - 1]));
            }
            if b < c.len() {
                assert(is_space(p[c.len() - 1]));
            }
        }
        assert(trimmed(p) =~= c);
    }
}

} // verus!
