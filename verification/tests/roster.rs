use raid_roster::models::{RaidParticipant, RowFilter};
use raid_roster::roster::{has_id, Roster, StoreError};

fn row(id: u128, user_id: i64, is_main: bool, is_alt: bool, joined_at: i64) -> RaidParticipant {
    RaidParticipant {
        id,
        user_id,
        joined_as: String::from("ARCH / SP3"),
        is_main,
        is_alt,
        joined_at,
        tag_suffix: String::from(" [-c90]"),
        extra_sps: Vec::new(),
    }
}

#[test]
fn new_roster_is_empty() {
    let roster = Roster::new();
    assert_eq!(roster.len(), 0);
    assert_eq!(roster.count_mains(), 0);
    assert_eq!(roster.count_alt_mains(), 0);
}

#[test]
fn primary_registration_is_an_upsert() {
    let mut roster = Roster::new();
    assert_eq!(roster.insert_or_replace_main(row(1, 7, true, false, 10)), Ok(0));
    let mut again = row(2, 7, false, false, 99);
    again.joined_as = String::from("MAG / SP2");
    again.tag_suffix = String::new();
    assert_eq!(roster.insert_or_replace_main(again), Ok(0));
    assert_eq!(roster.len(), 1);
    let kept = &roster.rows()[0];
    assert_eq!(kept.id, 1);
    assert_eq!(kept.joined_at, 10);
    assert!(kept.is_main);
    assert_eq!(kept.joined_as, "MAG / SP2");
    assert_eq!(kept.tag_suffix, "");
}

#[test]
fn duplicate_row_id_is_refused() {
    let mut roster = Roster::new();
    assert_eq!(roster.insert_or_replace_main(row(1, 7, true, false, 10)), Ok(0));
    assert_eq!(roster.insert_or_replace_main(row(1, 8, true, false, 11)), Err(StoreError::DuplicateId));
    assert_eq!(roster.insert_alt(row(1, 7, false, true, 12)), Err(StoreError::DuplicateId));
    assert_eq!(roster.len(), 1);
}

#[test]
fn rows_of_the_wrong_kind_are_refused() {
    let mut roster = Roster::new();
    assert_eq!(roster.insert_or_replace_main(row(1, 7, true, true, 10)), Err(StoreError::WrongKind));
    assert_eq!(roster.insert_alt(row(1, 7, true, false, 10)), Err(StoreError::WrongKind));
    assert_eq!(roster.len(), 0);
}

#[test]
fn rosters_are_made_from_rows_that_fit_together() {
    let roster = Roster::from_rows(vec![row(1, 7, true, false, 10), row(2, 7, false, true, 11), row(3, 7, false, true, 12)]).unwrap();
    assert_eq!(roster.len(), 3);
    assert_eq!(roster.rows()[1].id, 2);
    assert!(Roster::from_rows(vec![]).is_some());
    assert!(Roster::from_rows(vec![row(1, 7, true, false, 10), row(1, 8, true, false, 11)]).is_none());
    assert!(Roster::from_rows(vec![row(1, 7, true, false, 10), row(2, 7, false, false, 11)]).is_none());
    assert!(Roster::from_rows(vec![row(1, 7, true, true, 10), row(2, 7, false, true, 11)]).is_some());
}

#[test]
fn a_user_may_hold_several_alts() {
    let mut roster = Roster::new();
    assert_eq!(roster.insert_or_replace_main(row(1, 7, true, false, 10)), Ok(0));
    assert_eq!(roster.insert_alt(row(2, 7, false, true, 11)), Ok(1));
    assert_eq!(roster.insert_alt(row(3, 7, true, true, 12)), Ok(2));
    assert_eq!(roster.insert_alt(row(3, 7, false, true, 99)), Ok(2));
    assert_eq!(roster.insert_alt(row(3, 8, false, true, 99)), Err(StoreError::DuplicateId));
    assert_eq!(roster.len(), 3);
    assert!(roster.rows()[2].is_main);
    assert_eq!(roster.alt_count_for_user(7), 2);
    assert_eq!(roster.alt_count_for_user(8), 0);
    assert_eq!(roster.count_mains(), 2);
    assert_eq!(roster.count_alt_mains(), 1);
    assert_eq!(roster.count_matching(RowFilter::User(7)), 3);
    assert_eq!(roster.count_matching(RowFilter::Row(3)), 1);
}

#[test]
fn user_has_main_looks_at_the_primary_row() {
    let mut roster = Roster::new();
    roster.insert_or_replace_main(row(1, 7, false, false, 10)).unwrap();
    roster.insert_alt(row(2, 7, true, true, 11)).unwrap();
    roster.insert_or_replace_main(row(3, 8, true, false, 12)).unwrap();
    assert!(!roster.user_has_main(7));
    assert!(roster.user_has_main(8));
    assert!(!roster.user_has_main(9));
    assert_eq!(roster.find_primary(7), Some(0));
    assert_eq!(roster.find_primary(9), None);
    assert_eq!(roster.find_row(3), Some(2));
    assert_eq!(roster.find_row(4), None);
}

#[test]
fn removing_a_participant_takes_every_row_of_the_user() {
    let mut roster = Roster::new();
    roster.insert_or_replace_main(row(1, 7, true, false, 10)).unwrap();
    roster.insert_or_replace_main(row(2, 8, true, false, 11)).unwrap();
    roster.insert_alt(row(3, 7, false, true, 12)).unwrap();
    assert_eq!(roster.remove_participant(7), 2);
    assert_eq!(roster.len(), 1);
    assert_eq!(roster.rows()[0].id, 2);
    assert_eq!(roster.remove_participant(7), 0);
}

#[test]
fn removing_alts_keeps_the_primary_row() {
    let mut roster = Roster::new();
    roster.insert_or_replace_main(row(1, 7, true, false, 10)).unwrap();
    roster.insert_alt(row(2, 7, false, true, 11)).unwrap();
    roster.insert_alt(row(3, 8, false, true, 12)).unwrap();
    assert_eq!(roster.remove_user_alts(7), 1);
    let ids: Vec<u128> = roster.rows().iter().map(|r| r.id).collect();
    assert_eq!(ids, vec![1, 3]);
}

#[test]
fn removing_by_id_takes_one_row_or_none() {
    let mut roster = Roster::new();
    roster.insert_or_replace_main(row(1, 7, true, false, 10)).unwrap();
    roster.insert_alt(row(2, 7, false, true, 11)).unwrap();
    assert_eq!(roster.remove_participant_by_id(2), 1);
    assert_eq!(roster.remove_participant_by_id(2), 0);
    assert_eq!(roster.remove_matching(RowFilter::Row(1)), 1);
    assert_eq!(roster.len(), 0);
}

#[test]
fn seats_change_by_row_id() {
    let mut roster = Roster::new();
    roster.insert_or_replace_main(row(1, 7, false, false, 10)).unwrap();
    roster.insert_or_replace_main(row(2, 8, true, false, 11)).unwrap();
    assert!(roster.promote_row(1));
    assert!(!roster.promote_row(1));
    assert!(!roster.promote_row(5));
    assert_eq!(roster.count_mains(), 2);
    assert!(roster.move_to_reserve(2));
    assert!(!roster.move_to_reserve(2));
    assert_eq!(roster.count_mains(), 1);
    roster.apply_promotions(&vec![2, 9]);
    assert_eq!(roster.count_mains(), 2);
}

#[test]
fn specialists_of_the_primary_row_can_change() {
    let mut roster = Roster::new();
    roster.insert_or_replace_main(row(1, 7, false, false, 10)).unwrap();
    assert!(roster.set_active_sp(7, "SP9"));
    assert_eq!(roster.rows()[0].joined_as, "ARCH / SP9");
    assert!(roster.append_extra_sp(7, String::from("SP2")));
    assert_eq!(roster.rows()[0].extra_sps, vec![String::from("SP2")]);
    assert!(roster.append_extra_sp(7, String::from("sp2")));
    assert_eq!(roster.rows()[0].extra_sps, vec![String::from("SP2")]);
    assert!(roster.set_active_sp(7, "SP9"));
    assert_eq!(roster.rows()[0].joined_as, "ARCH / SP9");
    assert!(!roster.set_active_sp(8, "SP1"));
    assert!(!roster.append_extra_sp(8, String::from("SP1")));
}

#[test]
fn has_id_finds_listed_ids() {
    assert!(has_id(&vec![3, 5], 5));
    assert!(!has_id(&vec![3, 5], 4));
    assert!(!has_id(&vec![], 4));
}

#[test]
fn row_filters_choose_rows() {
    let r = row(4, 7, false, true, 1);
    assert!(RowFilter::User(7).test(&r));
    assert!(!RowFilter::User(8).test(&r));
    assert!(RowFilter::UserAlts(7).test(&r));
    assert!(RowFilter::Row(4).test(&r));
    assert!(!RowFilter::Row(5).test(&r));
    assert!(r.is_reserve());
    let copy = r.clone();
    assert_eq!(copy.id, 4);
    assert_eq!(copy.joined_as, "ARCH / SP3");
}
