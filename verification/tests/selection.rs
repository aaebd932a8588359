use raid_roster::admission::JoinSelection;
use raid_roster::selection::{
    addable_sps, lists_text, pick_class, pick_sp, selection_text, sp_choices, sp_list, sp_name,
    sp_num_ok, LAST_SP,
};

fn texts(list: &[&str]) -> Vec<String> {
    list.iter().map(|s| String::from(*s)).collect()
}

#[test]
fn classes_have_their_specialists() {
    assert_eq!(LAST_SP, 11);
    assert_eq!(sp_list(true), vec![1, 2, 3, 4, 9, 10, 11]);
    assert_eq!(sp_list(false), vec![1, 2, 3, 4, 5, 6, 7, 8, 9, 10, 11]);
    assert_eq!(sp_name(1), "SP1");
    assert_eq!(sp_name(11), "SP11");
}

#[test]
fn specialists_are_checked_against_the_class() {
    for n in 1..=11 {
        assert!(sp_num_ok(false, &format!("SP{n}")));
        assert_eq!(sp_num_ok(true, &format!("SP{n}")), !(5..=8).contains(&n));
    }
    assert!(sp_num_ok(false, "  sp7 "));
    assert!(sp_num_ok(false, "Sp+7"));
    assert!(sp_num_ok(false, "SP007"));
    assert!(sp_num_ok(false, "SP00000000000000000000011"));
    assert!(!sp_num_ok(false, "SP0"));
    assert!(!sp_num_ok(false, "SP12"));
    assert!(!sp_num_ok(false, "SP-1"));
    assert!(!sp_num_ok(false, "SP"));
    assert!(!sp_num_ok(false, "SP+"));
    assert!(!sp_num_ok(false, "SP 7"));
    assert!(!sp_num_ok(false, "SP7a"));
    assert!(!sp_num_ok(false, "S7"));
    assert!(!sp_num_ok(false, "7"));
    assert!(!sp_num_ok(false, ""));
    assert!(!sp_num_ok(false, "SP99999999999999999999"));
    assert!(!sp_num_ok(false, "SP4294967297"));
}

#[test]
fn picking_a_class_drops_a_specialist_it_lacks() {
    let mut sel = JoinSelection { class: None, sp: Some(String::from("SP6")), main: true };
    pick_class(&mut sel, String::from("MAG"));
    assert_eq!(sel.class.as_deref(), Some("MAG"));
    assert_eq!(sel.sp.as_deref(), Some("SP6"));
    assert!(sel.main);
    pick_class(&mut sel, String::from("MSW"));
    assert_eq!(sel.class.as_deref(), Some("MSW"));
    assert_eq!(sel.sp, None);
    pick_sp(&mut sel, String::from("SP9"));
    assert_eq!(sel.sp.as_deref(), Some("SP9"));
    pick_class(&mut sel, String::from("msw"));
    assert_eq!(sel.sp.as_deref(), Some("SP9"));
    pick_sp(&mut sel, String::from("SP5"));
    pick_class(&mut sel, String::from("Msw"));
    assert_eq!(sel.sp.as_deref(), Some("SP5"));
    pick_sp(&mut sel, String::from("junk"));
    pick_class(&mut sel, String::from("ARCH"));
    assert_eq!(sel.sp, None);
}

#[test]
fn the_dialogue_shows_the_picks() {
    let mut sel = JoinSelection { class: None, sp: None, main: false };
    assert_eq!(selection_text(&sel), "Pick your class and SP:\nSelected: **\u{2014}** / **\u{2014}**");
    pick_class(&mut sel, String::from("MAG"));
    assert_eq!(selection_text(&sel), "Pick your class and SP:\nSelected: **MAG** / **\u{2014}**");
    pick_sp(&mut sel, String::from("SP2"));
    assert_eq!(selection_text(&sel), "Pick your class and SP:\nSelected: **MAG** / **SP2**");
}

#[test]
fn specialists_that_a_row_knows_cannot_be_added() {
    assert_eq!(addable_sps("MSW / SP1", &vec![]), vec![2, 3, 4, 9, 10, 11]);
    assert_eq!(addable_sps("msw / sp1", &texts(&[" sp9 ", "SP11"])), vec![2, 3, 4, 10]);
    assert_eq!(addable_sps("MAG / SP5", &texts(&["SP5", "SP6"])), vec![1, 2, 3, 4, 7, 8, 9, 10, 11]);
    assert_eq!(addable_sps("MAG", &vec![]), vec![1, 2, 3, 4, 5, 6, 7, 8, 9, 10, 11]);
    assert_eq!(
        addable_sps("MSW / SP1", &texts(&["SP2", "SP3", "SP4", "SP9", "SP10", "SP11"])),
        Vec::<u8>::new()
    );
}

#[test]
fn the_active_specialist_comes_first_among_the_choices() {
    assert_eq!(sp_choices("MSW / SP1", &texts(&["SP2", "sp1", "SP3", "Sp2"])), texts(&["SP1", "SP2", "SP3"]));
    assert_eq!(sp_choices("MSW", &texts(&["SP2"])), texts(&["SP1", "SP2"]));
    assert_eq!(sp_choices("MSW / sp4 ", &vec![]), texts(&["sp4"]));
    assert!(lists_text(&texts(&["a", "b"]), &String::from("b")));
    assert!(!lists_text(&texts(&["a", "b"]), &String::from("B")));
}
