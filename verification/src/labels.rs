//! Role labels of the form "class / specialist".

use crate::text::{
    chars_of, find_char, lemma_find_char, lemma_trim_tidy_with_blank, lemma_trimmed, position_of,
    text_of, tidy_ends, trim_bounds, trimmed,
};
use vstd::prelude::*;
use vstd::string::*;

verus! {

/// The class named by a label: what stands before the first slash, without
/// the white space around it.
pub open spec fn class_of(label: Seq<char>) -> Seq<char> {
    trimmed(label.subrange(0, find_char(label, '/', 0)))
}

/// The specialist named by a label: what stands between the first slash
/// and the next, without the white space around it; none where the label
/// has no slash.
pub open spec fn sp_of(label: Seq<char>) -> Option<Seq<char>> {
    let cut = find_char(label, '/', 0);
    if cut >= label.len() {
        None
    } else {
        Some(trimmed(label.subrange(cut + 1, find_char(label, '/', cut + 1))))
    }
}

/// The label of a class and a specialist.
pub open spec fn label_of(class: Seq<char>, sp: Seq<char>) -> Seq<char> {
    class + seq![' ', '/', ' '] + sp
}

/// The class named by a label.
pub fn class_part(label: &str) -> (class: String)
    ensures
        class@ == class_of(label@),
{
    let chars = chars_of(label);
    let cut = position_of(&chars, '/', 0);
    let (a, b) = trim_bounds(&chars, 0, cut);
    text_of(&chars, a, b)
}

/// The specialist named by a label, if it names one.
pub fn active_sp(label: &str) -> (sp: Option<String>)
    ensures
        match sp {
            Some(text) => sp_of(label@) == Some(text@),
            None => sp_of(label@) is None,
        },
{
    let chars = chars_of(label);
    let cut = position_of(&chars, '/', 0);
    if cut >= chars.len() {
        None
    } else {
        let end = position_of(&chars, '/', cut + 1);
        let (a, b) = trim_bounds(&chars, cut + 1, end);
        Some(text_of(&chars, a, b))
    }
}

/// The label of a class and a specialist.
pub fn compose_label(class: &str, sp: &str) -> (label: String)
    ensures
        label@ == label_of(class@, sp@),
{
    proof {
        reveal_strlit(" / ");
    }
    let mut label = String::from_str(class);
    label.append(" / ");
    label.append(sp);
    assert(label@ =~= label_of(class@, sp@));
    label
}

/// The class of a label has tidy ends and holds no slash.
pub proof fn lemma_class_is_tidy(label: Seq<char>)
    ensures
        tidy_ends(class_of(label)),
        forall|i: int| 0 <= i < class_of(label).len() ==> class_of(label)[i] != '/',
{
    lemma_find_char(label, '/', 0);
    let front = label.subrange(0, find_char(label, '/', 0));
    lemma_trimmed(front);
    let (a, b) = choose|a: int, b: int|
        0 <= a <= b <= front.len() && #[trigger] front.subrange(a, b) == trimmed(front);
    assert forall|i: int| 0 <= i < class_of(label).len() implies class_of(label)[i] != '/' by {
        assert(front.subrange(a, b)[i] == front[a + i]);
        assert(front[a + i] == label[a + i]);
    }
}

/// A label made of a class and a specialist names that class again.
pub proof fn lemma_class_of_label(class: Seq<char>, sp: Seq<char>)
    requires
        tidy_ends(class),
        forall|i: int| 0 <= i < class.len() ==> class[i] != '/',
    ensures
        class_of(label_of(class, sp)) == class,
{
    let x = label_of(class, sp);
    let n = class.len() as int;
    lemma_find_char(x, '/', 0);
    let cut = find_char(x, '/', 0);
    assert(x[n] == ' ');
    assert(x[n + 1] == '/');
    assert forall|k: int| 0 <= k < n implies x[k] != '/' by {
        assert(x[k] == class[k]);
    }
    assert(cut == n + 1) by {
        if cut > n + 1 {
            assert(x[n + 1] != '/');
        }
        if cut < n + 1 {
            assert(x[cut] == '/');
        }
    }
    assert(x.subrange(0, cut) =~= class.push(' '));
    lemma_trim_tidy_with_blank(class);
}

/// Making `sp` the specialist of a label a second time changes nothing.
pub proof fn law_relabel_is_idempotent(label: Seq<char>, sp: Seq<char>)
    ensures
        label_of(class_of(label_of(class_of(label), sp)), sp) == label_of(class_of(label), sp),
{
    lemma_class_is_tidy(label);
    lemma_class_of_label(class_of(label), sp);
}

} // verus!
