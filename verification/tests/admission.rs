use raid_roster::admission::{
    confirm_join, owner_cancel, owner_kick, owner_move_to_reserve, owner_promote, JoinDecision,
    JoinRefusal, JoinSelection, OwnerOutcome,
};
use raid_roster::models::{CapacityConfig, Raid, RaidParticipant};
use raid_roster::queue::{apply_event, RaidEvent};
use raid_roster::roles::{
    classify_members, holds_role_in, holds_role_named, level_role, lists_role, tag_for,
    LevelRole, Member, Role,
};
use raid_roster::roster::Roster;

fn role(id: u64, name: &str) -> Role {
    Role { id, name: Some(String::from(name)) }
}

fn row(id: u128, user_id: i64, is_main: bool, is_alt: bool, joined_at: i64) -> RaidParticipant {
    RaidParticipant {
        id,
        user_id,
        joined_as: String::from("MSW / SP1"),
        is_main,
        is_alt,
        joined_at,
        tag_suffix: String::new(),
        extra_sps: Vec::new(),
    }
}

fn raid(max_mains: u32, allow_alts: bool, max_alts: u32, until: Option<i64>, roles: Vec<u64>) -> Raid {
    Raid {
        id: 900,
        guild_id: 11,
        channel_id: 12,
        message_id: 13,
        scheduled_for: 1_000_000,
        created_by: 1,
        owner_id: 1,
        description: String::new(),
        is_active: true,
        raid_name: String::from("Arma"),
        capacity: CapacityConfig::new(max_mains, allow_alts, max_alts, until, roles).unwrap(),
    }
}

fn picked(main: bool) -> JoinSelection {
    JoinSelection { class: Some(String::from("MAG")), sp: Some(String::from("SP2")), main }
}

fn refusal(d: JoinDecision) -> Option<JoinRefusal> {
    match d {
        JoinDecision::Refuse(r) => Some(r),
        JoinDecision::Publish(_) => None,
    }
}

fn join_of(d: JoinDecision) -> (i64, String, bool, String, bool) {
    match d {
        JoinDecision::Publish(RaidEvent::Join { raid_id, guild_id, user_id, joined_as, main_now, tag_suffix, is_alt }) => {
            assert_eq!(raid_id, 900);
            assert_eq!(guild_id, 11);
            (user_id, joined_as, main_now, tag_suffix, is_alt)
        }
        _ => panic!("no join published"),
    }
}

#[test]
fn class_and_specialist_must_both_be_chosen() {
    let r = raid(2, true, 1, None, vec![]);
    let roster = Roster::new();
    let roles = vec![role(1, "c90")];
    let mut sel = picked(true);
    sel.sp = None;
    assert_eq!(refusal(confirm_join(&sel, &r, &roster, 5, &roles, "reserve", "Alt_allow", 0)), Some(JoinRefusal::ChooseBoth));
    let mut sel = picked(true);
    sel.class = None;
    assert_eq!(refusal(confirm_join(&sel, &r, &roster, 5, &roles, "reserve", "Alt_allow", 0)), Some(JoinRefusal::ChooseBoth));
}

#[test]
fn a_cancelled_raid_takes_nobody() {
    let mut r = raid(2, true, 1, None, vec![]);
    r.is_active = false;
    let roles = vec![role(1, "c90")];
    assert_eq!(
        refusal(confirm_join(&picked(true), &r, &Roster::new(), 5, &roles, "reserve", "Alt_allow", 0)),
        Some(JoinRefusal::Cancelled)
    );
}

#[test]
fn a_level_role_is_needed() {
    let r = raid(2, true, 1, None, vec![]);
    let roles = vec![role(1, "c91"), Role { id: 2, name: None }];
    assert_eq!(
        refusal(confirm_join(&picked(true), &r, &Roster::new(), 5, &roles, "reserve", "Alt_allow", 0)),
        Some(JoinRefusal::MissingLevelRole)
    );
}

#[test]
fn a_join_asks_for_a_free_seat() {
    let r = raid(2, true, 1, None, vec![]);
    let roles = vec![role(7, "other"), role(1, "C1-89"), role(2, "c90")];
    let got = join_of(confirm_join(&picked(true), &r, &Roster::new(), 5, &roles, "reserve", "Alt_allow", 0));
    assert_eq!(got, (5, String::from("MAG / SP2"), true, String::from(" [-c90]"), false));
    let roles = vec![role(2, "c90"), role(1, "c1-89")];
    let got = join_of(confirm_join(&picked(true), &r, &Roster::new(), 5, &roles, "reserve", "Alt_allow", 0));
    assert_eq!(got, (5, String::from("MAG / SP2"), true, String::new(), false));
}

#[test]
fn a_full_raid_sends_the_joiner_to_reserve() {
    let r = raid(1, true, 1, None, vec![]);
    let mut roster = Roster::new();
    roster.insert_or_replace_main(row(1, 9, true, false, 1)).unwrap();
    let roles = vec![role(2, "c90")];
    let got = join_of(confirm_join(&picked(true), &r, &roster, 5, &roles, "reserve", "Alt_allow", 0));
    assert!(!got.2);
}

#[test]
fn the_reserve_role_holds_a_user_back() {
    let r = raid(2, true, 1, None, vec![]);
    let roles = vec![role(2, "c90"), role(3, "Rezerwa")];
    let got = join_of(confirm_join(&picked(true), &r, &Roster::new(), 5, &roles, "rezerwa", "Alt_allow", 0));
    assert!(!got.2);
    let got = join_of(confirm_join(&picked(true), &r, &Roster::new(), 5, &roles, "reserve", "Alt_allow", 0));
    assert!(got.2);
}

#[test]
fn the_priority_window_holds_others_back() {
    let r = raid(2, true, 1, Some(100), vec![77]);
    let plain = vec![role(2, "c90")];
    let prio = vec![role(2, "c90"), role(77, "Maraton")];
    assert!(!join_of(confirm_join(&picked(true), &r, &Roster::new(), 5, &plain, "reserve", "Alt_allow", 99)).2);
    assert!(join_of(confirm_join(&picked(true), &r, &Roster::new(), 5, &prio, "reserve", "Alt_allow", 99)).2);
    assert!(join_of(confirm_join(&picked(true), &r, &Roster::new(), 5, &plain, "reserve", "Alt_allow", 100)).2);
}

#[test]
fn an_alt_needs_a_main_seat_first() {
    let r = raid(3, true, 1, None, vec![]);
    let roles = vec![role(2, "c90"), role(3, "alt_allow")];
    let mut roster = Roster::new();
    assert_eq!(
        refusal(confirm_join(&picked(false), &r, &roster, 5, &roles, "reserve", "Alt_allow", 0)),
        Some(JoinRefusal::MainFirst)
    );
    roster.insert_or_replace_main(row(1, 5, false, false, 1)).unwrap();
    assert_eq!(
        refusal(confirm_join(&picked(false), &r, &roster, 5, &roles, "reserve", "Alt_allow", 0)),
        Some(JoinRefusal::MainFirst)
    );
    roster.promote_row(1);
    let got = join_of(confirm_join(&picked(false), &r, &roster, 5, &roles, "reserve", "Alt_allow", 0));
    assert_eq!(got, (5, String::from("MAG / SP2"), true, String::new(), true));
}

#[test]
fn an_alt_needs_the_role_the_setting_and_room() {
    let roles = vec![role(2, "c90"), role(3, "alt_allow")];
    let mut roster = Roster::new();
    roster.insert_or_replace_main(row(1, 5, true, false, 1)).unwrap();
    let r = raid(3, true, 1, None, vec![]);
    assert_eq!(
        refusal(confirm_join(&picked(false), &r, &roster, 5, &vec![role(2, "c90")], "reserve", "Alt_allow", 0)),
        Some(JoinRefusal::AltRoleMissing)
    );
    let off = raid(3, false, 1, None, vec![]);
    assert_eq!(
        refusal(confirm_join(&picked(false), &off, &roster, 5, &roles, "reserve", "Alt_allow", 0)),
        Some(JoinRefusal::AltsDisabled)
    );
    roster.insert_alt(row(2, 5, false, true, 2)).unwrap();
    assert_eq!(
        refusal(confirm_join(&picked(false), &r, &roster, 5, &roles, "reserve", "Alt_allow", 0)),
        Some(JoinRefusal::AltLimit)
    );
    let none = raid(3, true, 0, None, vec![]);
    assert_eq!(
        refusal(confirm_join(&picked(false), &none, &roster, 5, &roles, "reserve", "Alt_allow", 0)),
        Some(JoinRefusal::AltLimit)
    );
}

#[test]
fn only_the_owner_promotes_and_only_into_free_seats() {
    let r = raid(1, true, 1, None, vec![]);
    let mut roster = Roster::new();
    roster.insert_or_replace_main(row(1, 5, false, false, 1)).unwrap();
    roster.insert_or_replace_main(row(2, 6, false, false, 2)).unwrap();
    assert_eq!(owner_promote(&r, &mut roster, 2, 1), OwnerOutcome::NotOwner);
    assert_eq!(roster.count_mains(), 0);
    assert_eq!(owner_promote(&r, &mut roster, 1, 99), OwnerOutcome::Done { changed: false });
    assert_eq!(owner_promote(&r, &mut roster, 1, 2), OwnerOutcome::Done { changed: true });
    assert_eq!(owner_promote(&r, &mut roster, 1, 1), OwnerOutcome::Full);
    assert_eq!(roster.count_mains(), 1);
    assert_eq!(owner_move_to_reserve(&r, &mut roster, 3, 2), OwnerOutcome::NotOwner);
    assert_eq!(owner_move_to_reserve(&r, &mut roster, 1, 2), OwnerOutcome::Done { changed: true });
    assert_eq!(owner_move_to_reserve(&r, &mut roster, 1, 2), OwnerOutcome::Done { changed: false });
    assert_eq!(roster.count_mains(), 0);
}

#[test]
fn a_kick_frees_a_seat_for_the_next_in_line() {
    let r = raid(1, true, 1, None, vec![]);
    let mut roster = Roster::new();
    roster.insert_or_replace_main(row(1, 5, true, false, 1)).unwrap();
    roster.insert_or_replace_main(row(2, 6, false, false, 2)).unwrap();
    roster.insert_or_replace_main(row(3, 7, false, false, 3)).unwrap();
    assert_eq!(owner_kick(&r, &mut roster, 9, 1, &vec![], &vec![], 0), None);
    assert_eq!(roster.len(), 3);
    assert_eq!(owner_kick(&r, &mut roster, 1, 1, &vec![6], &vec![], 0), Some(vec![3]));
    assert_eq!(roster.len(), 2);
    assert_eq!(owner_kick(&r, &mut roster, 1, 1, &vec![], &vec![], 0), Some(vec![]));
}

#[test]
fn only_the_owner_cancels() {
    let mut r = raid(1, true, 1, None, vec![]);
    assert!(!owner_cancel(&mut r, 2));
    assert!(r.is_active);
    assert!(owner_cancel(&mut r, 1));
    assert!(!r.is_active);
    assert!(r.is_owner(1));
    r.transfer(8);
    assert!(r.is_owner(8));
}

#[test]
fn roles_are_found_by_name_and_by_id() {
    let roles = vec![role(1, "Reserve"), Role { id: 2, name: None }, role(3, "c90")];
    assert!(holds_role_named(&roles, "reserve"));
    assert!(!holds_role_named(&roles, "reserv"));
    assert!(!holds_role_named(&roles, ""));
    assert!(holds_role_in(&roles, &vec![9, 2]));
    assert!(!holds_role_in(&roles, &vec![]));
    assert!(!holds_role_in(&roles, &vec![4]));
    assert!(lists_role(&vec![4, 5], 5));
    assert!(!lists_role(&vec![4, 5], 6));
    assert_eq!(level_role(&roles), Some(LevelRole::At90));
    assert_eq!(level_role(&vec![role(1, "C1-89"), role(3, "c90")]), Some(LevelRole::Below90));
    assert_eq!(level_role(&vec![]), None);
    assert_eq!(tag_for(LevelRole::Below90), " [-c90]");
    assert_eq!(tag_for(LevelRole::At90), "");
}

#[test]
fn members_are_sorted_into_excluded_and_priority() {
    let members = vec![
        Member { user_id: 1, roles: vec![role(10, "reserve")] },
        Member { user_id: 2, roles: vec![role(20, "Maraton")] },
        Member { user_id: 3, roles: vec![role(10, "RESERVE"), role(20, "Maraton"), role(30, "x")] },
        Member { user_id: 4, roles: vec![] },
        Member { user_id: 1, roles: vec![role(10, "reserve")] },
    ];
    let (excluded, priority) = classify_members(&members, "Reserve", &vec![20, 21]);
    assert_eq!(excluded, vec![1, 3, 1]);
    assert_eq!(priority, vec![2, 3]);
    let (excluded, priority) = classify_members(&members, "none", &vec![]);
    assert!(excluded.is_empty());
    assert!(priority.is_empty());
}

fn seats(roster: &Roster) -> Vec<(i64, bool, bool)> {
    roster.rows().iter().map(|r| (r.user_id, r.is_alt, r.is_main)).collect()
}

fn request(
    raid: &Raid,
    roster: &mut Roster,
    user: i64,
    main: bool,
    roles: &Vec<Role>,
    row_id: u128,
    now: i64,
) -> Option<JoinRefusal> {
    match confirm_join(&picked(main), raid, roster, user, roles, "reserve", "Alt_allow", now) {
        JoinDecision::Refuse(why) => Some(why),
        JoinDecision::Publish(event) => {
            let done = apply_event(roster, &raid.capacity, event, row_id, now, &vec![], &vec![]);
            assert!(done.ack.ok);
            None
        }
    }
}

#[test]
fn joins_fill_the_seats_and_the_line_moves_up() {
    // Two main seats, one of them open to an alt.
    let r = raid(2, true, 1, None, vec![]);
    let roles = vec![role(2, "c90"), role(3, "Alt_allow")];
    let mut roster = Roster::new();
    let (a, b, c) = (100, 200, 300);

    assert_eq!(request(&r, &mut roster, a, true, &roles, 1, 10), None);
    assert_eq!(seats(&roster), vec![(a, false, true)]);
    // An alt without a primary slot is turned down.
    assert_eq!(request(&r, &mut roster, b, false, &roles, 2, 11), Some(JoinRefusal::MainFirst));
    assert_eq!(request(&r, &mut roster, a, false, &roles, 3, 12), None);
    assert_eq!(seats(&roster), vec![(a, false, true), (a, true, true)]);
    // The seats are taken: the next entrant waits.
    assert_eq!(request(&r, &mut roster, c, true, &roles, 4, 13), None);
    assert_eq!(seats(&roster), vec![(a, false, true), (a, true, true), (c, false, false)]);
    // A second alt is beyond what the raid allows a user.
    assert_eq!(request(&r, &mut roster, a, false, &roles, 5, 14), Some(JoinRefusal::AltLimit));

    // A gives up the primary slot: the seat goes to C.
    assert_eq!(owner_kick(&r, &mut roster, 1, 1, &vec![], &vec![], 15), Some(vec![4]));
    assert_eq!(seats(&roster), vec![(a, true, true), (c, false, true)]);
}
