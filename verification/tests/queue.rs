use raid_roster::models::{CapacityConfig, RaidParticipant};
use raid_roster::queue::{
    apply_event, apply_event_with_fresh_id, handle_add_sp, handle_change_sp, handle_join,
    handle_leave_all, handle_leave_alts, is_seat_open, AckPayload, RaidEvent,
};
use raid_roster::roster::Roster;

fn row(id: u128, user_id: i64, is_main: bool, is_alt: bool, joined_at: i64) -> RaidParticipant {
    RaidParticipant {
        id,
        user_id,
        joined_as: String::from("MSW / SP1"),
        is_main,
        is_alt,
        joined_at,
        tag_suffix: String::new(),
        extra_sps: Vec::new(),
    }
}

fn config(max_mains: u32, max_alt_mains: u32, until: Option<i64>) -> CapacityConfig {
    CapacityConfig::new(max_mains, true, max_alt_mains, until, Vec::new()).unwrap()
}

fn join(roster: &mut Roster, cfg: &CapacityConfig, user: i64, main_now: bool, is_alt: bool, id: u128, now: i64) -> AckPayload {
    handle_join(
        roster,
        cfg,
        user,
        String::from("MAG / SP4"),
        main_now,
        String::new(),
        is_alt,
        id,
        now,
        &vec![],
        &vec![],
    )
    .ack
}

fn seats(roster: &Roster) -> Vec<(i64, bool, bool)> {
    roster.rows().iter().map(|r| (r.user_id, r.is_alt, r.is_main)).collect()
}

const OK: AckPayload = AckPayload { ok: true, removed_main: None, removed_alts: None };
const FAILED: AckPayload = AckPayload { ok: false, removed_main: None, removed_alts: None };

#[test]
fn join_stores_the_row_and_runs_the_engine() {
    let mut roster = Roster::new();
    let cfg = config(1, 0, None);
    let done = handle_join(
        &mut roster,
        &cfg,
        5,
        String::from("MAG / SP4"),
        false,
        String::from(" [-c90]"),
        false,
        77,
        1234,
        &vec![],
        &vec![],
    );
    assert_eq!(done.ack, OK);
    assert_eq!(done.stored, Some(0));
    assert_eq!(done.promoted, vec![77]);
    let r = &roster.rows()[0];
    assert_eq!((r.id, r.user_id, r.is_main, r.is_alt, r.joined_at), (77, 5, true, false, 1234));
    assert_eq!(r.joined_as, "MAG / SP4");
    assert_eq!(r.tag_suffix, " [-c90]");
}

#[test]
fn join_applied_twice_keeps_one_primary_row() {
    let mut roster = Roster::new();
    let cfg = config(1, 0, None);
    assert_eq!(join(&mut roster, &cfg, 1, true, false, 10, 100), OK);
    assert_eq!(join(&mut roster, &cfg, 2, true, false, 11, 101), OK);
    let once = seats(&roster);
    assert_eq!(join(&mut roster, &cfg, 2, true, false, 12, 102), OK);
    assert_eq!(seats(&roster), once);
    assert_eq!(once, vec![(1, false, true), (2, false, false)]);
    assert_eq!(join(&mut roster, &cfg, 1, false, false, 13, 103), OK);
    assert_eq!(seats(&roster), once);
    assert_eq!(roster.rows()[0].id, 10);
}

#[test]
fn with_one_seat_the_first_join_in_the_log_wins() {
    let cfg = config(1, 0, None);
    for _run in 0..3 {
        let mut roster = Roster::new();
        for (k, user) in [31i64, 32, 33, 34].iter().enumerate() {
            // Every requester saw a free seat and asks for it.
            let id = 100 - k as u128;
            assert_eq!(join(&mut roster, &cfg, *user, true, false, id, 50), OK);
        }
        assert_eq!(
            seats(&roster),
            vec![(31, false, true), (32, false, false), (33, false, false), (34, false, false)]
        );
    }
}

#[test]
fn with_one_seat_an_excluded_first_joiner_does_not_win() {
    let cfg = config(1, 0, None);
    let mut roster = Roster::new();
    for (k, user) in [31i64, 32, 33].iter().enumerate() {
        let done = handle_join(
            &mut roster,
            &cfg,
            *user,
            String::from("MAG / SP4"),
            k % 2 == 0,
            String::new(),
            false,
            k as u128,
            50,
            &vec![31],
            &vec![],
        );
        assert!(done.ack.ok);
    }
    assert_eq!(seats(&roster), vec![(31, false, false), (32, false, true), (33, false, false)]);
}

#[test]
fn join_with_a_used_row_id_fails_and_changes_nothing() {
    let mut roster = Roster::new();
    let cfg = config(3, 1, None);
    assert_eq!(join(&mut roster, &cfg, 1, true, false, 10, 100), OK);
    let done = handle_join(
        &mut roster,
        &cfg,
        2,
        String::from("MAG / SP4"),
        true,
        String::new(),
        false,
        10,
        101,
        &vec![],
        &vec![],
    );
    assert_eq!(done.ack, FAILED);
    assert_eq!(done.stored, None);
    assert!(done.promoted.is_empty());
    assert_eq!(roster.len(), 1);
}

#[test]
fn alt_join_takes_a_seat_within_the_alt_quota() {
    let mut roster = Roster::new();
    let cfg = config(3, 1, None);
    assert_eq!(join(&mut roster, &cfg, 1, true, false, 10, 100), OK);
    assert_eq!(join(&mut roster, &cfg, 1, true, true, 11, 101), OK);
    assert_eq!(join(&mut roster, &cfg, 1, true, true, 12, 102), OK);
    assert_eq!(seats(&roster), vec![(1, false, true), (1, true, true), (1, true, false)]);
}

#[test]
fn seat_is_open_only_within_capacity_and_rules() {
    let mut roster = Roster::new();
    roster.insert_or_replace_main(row(1, 1, true, false, 1)).unwrap();
    let cfg = config(2, 0, Some(100));
    assert!(!is_seat_open(&roster, &cfg, 9, true, &vec![], &vec![9], 5));
    assert!(is_seat_open(&roster, &cfg, 9, false, &vec![], &vec![9], 5));
    assert!(!is_seat_open(&roster, &cfg, 9, false, &vec![9], &vec![9], 5));
    assert!(!is_seat_open(&roster, &cfg, 9, false, &vec![], &vec![], 5));
    assert!(is_seat_open(&roster, &cfg, 9, false, &vec![], &vec![], 100));
    assert!(!is_seat_open(&roster, &config(1, 0, None), 9, false, &vec![], &vec![], 5));
}

#[test]
fn leave_all_reports_what_went_and_promotes() {
    let mut roster = Roster::new();
    roster.insert_or_replace_main(row(1, 1, true, false, 1)).unwrap();
    roster.insert_alt(row(2, 1, false, true, 2)).unwrap();
    roster.insert_alt(row(3, 1, false, true, 3)).unwrap();
    roster.insert_or_replace_main(row(4, 2, false, false, 4)).unwrap();
    let cfg = config(1, 0, None);
    let done = handle_leave_all(&mut roster, &cfg, 1, 9, &vec![], &vec![]);
    assert_eq!(done.ack, AckPayload { ok: true, removed_main: Some(1), removed_alts: Some(2) });
    assert_eq!(done.promoted, vec![4]);
    assert_eq!(seats(&roster), vec![(2, false, true)]);
    let again = handle_leave_all(&mut roster, &cfg, 1, 10, &vec![], &vec![]);
    assert_eq!(again.ack, AckPayload { ok: true, removed_main: Some(0), removed_alts: Some(0) });
    assert!(again.promoted.is_empty());
}

#[test]
fn leave_alts_frees_alt_seats() {
    let mut roster = Roster::new();
    roster.insert_or_replace_main(row(1, 1, true, false, 1)).unwrap();
    roster.insert_alt(row(2, 1, true, true, 2)).unwrap();
    roster.insert_or_replace_main(row(3, 2, false, false, 3)).unwrap();
    let cfg = config(2, 1, None);
    let done = handle_leave_alts(&mut roster, &cfg, 1, 9, &vec![], &vec![]);
    assert_eq!(done.ack, AckPayload { ok: true, removed_main: None, removed_alts: Some(1) });
    assert_eq!(done.promoted, vec![3]);
    assert_eq!(seats(&roster), vec![(1, false, true), (2, false, true)]);
}

#[test]
fn add_sp_reports_success_even_without_a_row() {
    let mut roster = Roster::new();
    assert_eq!(handle_add_sp(&mut roster, 1, String::from("SP3")).ack, OK);
    roster.insert_or_replace_main(row(1, 1, true, false, 1)).unwrap();
    assert_eq!(handle_add_sp(&mut roster, 1, String::from("SP3")).ack, OK);
    assert_eq!(roster.rows()[0].extra_sps, vec![String::from("SP3")]);
}

#[test]
fn change_sp_needs_a_primary_row() {
    let mut roster = Roster::new();
    assert_eq!(handle_change_sp(&mut roster, 1, String::from("SP3")).ack, FAILED);
    roster.insert_or_replace_main(row(1, 1, true, false, 1)).unwrap();
    assert_eq!(handle_change_sp(&mut roster, 1, String::from("SP3")).ack, OK);
    assert_eq!(roster.rows()[0].joined_as, "MSW / SP3");
}

#[test]
fn events_dispatch_by_kind() {
    let mut roster = Roster::new();
    let cfg = config(2, 1, None);
    let e = RaidEvent::Join {
        raid_id: 1,
        guild_id: 2,
        user_id: 3,
        joined_as: String::from("SWORD / SP7"),
        main_now: true,
        tag_suffix: String::new(),
        is_alt: false,
    };
    assert_eq!(apply_event(&mut roster, &cfg, e, 50, 1, &vec![], &vec![]).ack, OK);
    let e = RaidEvent::AddSp { raid_id: 1, guild_id: 2, user_id: 3, sp: String::from("SP1") };
    assert_eq!(apply_event(&mut roster, &cfg, e, 51, 2, &vec![], &vec![]).ack, OK);
    let e = RaidEvent::ChangeSp { raid_id: 1, guild_id: 2, user_id: 4, sp: String::from("SP1") };
    assert_eq!(apply_event(&mut roster, &cfg, e, 52, 3, &vec![], &vec![]).ack, FAILED);
    let e = RaidEvent::LeaveAlts { raid_id: 1, guild_id: 2, user_id: 3 };
    assert_eq!(
        apply_event(&mut roster, &cfg, e, 53, 4, &vec![], &vec![]).ack,
        AckPayload { ok: true, removed_main: None, removed_alts: Some(0) }
    );
    let e = RaidEvent::LeaveAll { raid_id: 1, guild_id: 2, user_id: 3 };
    assert_eq!(
        apply_event(&mut roster, &cfg, e, 54, 5, &vec![], &vec![]).ack,
        AckPayload { ok: true, removed_main: Some(1), removed_alts: Some(0) }
    );
    assert_eq!(roster.len(), 0);
}

#[test]
fn fresh_row_ids_differ() {
    let mut roster = Roster::new();
    let cfg = config(5, 1, None);
    let mut ids = Vec::new();
    for user in 1..4 {
        let e = RaidEvent::Join {
            raid_id: 1,
            guild_id: 2,
            user_id: user,
            joined_as: String::from("SWORD / SP7"),
            main_now: true,
            tag_suffix: String::new(),
            is_alt: false,
        };
        let (done, id) = apply_event_with_fresh_id(&mut roster, &cfg, e, user, &vec![], &vec![]);
        assert!(done.ack.ok);
        ids.push(id);
    }
    assert_eq!(roster.len(), 3);
    assert_ne!(ids[0], ids[1]);
    assert_ne!(ids[1], ids[2]);
    assert_eq!(roster.rows()[2].id, ids[2]);
}

#[test]
fn missing_ack_counts_as_removed() {
    assert!(AckPayload::removed_any(&None));
    assert!(!AckPayload::removed_any(&Some(OK)));
    assert!(!AckPayload::removed_any(&Some(AckPayload { ok: true, removed_main: Some(0), removed_alts: Some(0) })));
    assert!(AckPayload::removed_any(&Some(AckPayload { ok: true, removed_main: None, removed_alts: Some(2) })));
    assert!(AckPayload::removed_any(&Some(AckPayload { ok: true, removed_main: Some(u64::MAX), removed_alts: Some(u64::MAX) })));
}

#[test]
fn an_alt_join_delivered_twice_adds_one_row() {
    let mut roster = Roster::new();
    let cfg = config(3, 2, None);
    assert_eq!(join(&mut roster, &cfg, 1, true, false, 10, 100), OK);
    assert_eq!(join(&mut roster, &cfg, 1, true, true, 11, 101), OK);
    let once = seats(&roster);
    assert_eq!(join(&mut roster, &cfg, 1, true, true, 11, 101), OK);
    assert_eq!(seats(&roster), once);
    assert_eq!(once, vec![(1, false, true), (1, true, true)]);
    // Another user cannot take the identifier over.
    assert_eq!(join(&mut roster, &cfg, 2, true, true, 11, 102), FAILED);
    // A second alt of the same user comes with an identifier of its own.
    assert_eq!(join(&mut roster, &cfg, 1, true, true, 12, 103), OK);
    assert_eq!(roster.len(), 3);
}

#[test]
fn events_delivered_twice_change_nothing_the_second_time() {
    let cfg = config(2, 1, None);
    let mut roster = Roster::new();
    roster.insert_or_replace_main(row(1, 1, true, false, 1)).unwrap();
    roster.insert_alt(row(2, 1, true, true, 2)).unwrap();
    roster.insert_or_replace_main(row(3, 2, false, false, 3)).unwrap();
    roster.insert_or_replace_main(row(4, 3, false, false, 4)).unwrap();
    let snapshot = |r: &Roster| -> Vec<(u128, bool, String, Vec<String>)> {
        r.rows().iter().map(|p| (p.id, p.is_main, p.joined_as.clone(), p.extra_sps.clone())).collect()
    };
    let events: Vec<fn() -> RaidEvent> = vec![
        || RaidEvent::AddSp { raid_id: 1, guild_id: 2, user_id: 2, sp: String::from("SP5") },
        || RaidEvent::AddSp { raid_id: 1, guild_id: 2, user_id: 2, sp: String::from("sp5") },
        || RaidEvent::ChangeSp { raid_id: 1, guild_id: 2, user_id: 2, sp: String::from("SP7") },
        || RaidEvent::LeaveAlts { raid_id: 1, guild_id: 2, user_id: 1 },
        || RaidEvent::LeaveAll { raid_id: 1, guild_id: 2, user_id: 1 },
    ];
    for make in events {
        apply_event(&mut roster, &cfg, make(), 50, 9, &vec![], &vec![]);
        let once = snapshot(&roster);
        apply_event(&mut roster, &cfg, make(), 50, 9, &vec![], &vec![]);
        assert_eq!(snapshot(&roster), once);
    }
    assert_eq!(
        snapshot(&roster),
        vec![
            (3, true, String::from("MSW / SP7"), vec![String::from("SP5")]),
            (4, true, String::from("MSW / SP1"), vec![]),
        ]
    );
}
