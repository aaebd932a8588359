use raid_roster::embeds::{
    capacity_text, human_time_left, render_empty_slots, render_reserves, render_slots,
    shown_rows,
};
use raid_roster::emoji::{class_abbr, decorate_joined_as, emoji_name, emoji_tag, Emoji};
use raid_roster::models::RaidParticipant;
use raid_roster::ordering::sorted_keys;
use raid_roster::roster::Roster;

fn row(id: u128, user_id: i64, label: &str, is_main: bool, is_alt: bool, joined_at: i64, tag: &str) -> RaidParticipant {
    RaidParticipant {
        id,
        user_id,
        joined_as: String::from(label),
        is_main,
        is_alt,
        joined_at,
        tag_suffix: String::from(tag),
        extra_sps: Vec::new(),
    }
}

fn roster_of(rows: Vec<RaidParticipant>) -> Roster {
    let mut roster = Roster::new();
    for r in rows {
        let stored = if r.is_alt { roster.insert_alt(r) } else { roster.insert_or_replace_main(r) };
        assert!(stored.is_ok());
    }
    roster
}

fn emojis() -> Vec<Emoji> {
    vec![
        Emoji { name: String::from("MSW_SP1"), id: 111 },
        Emoji { name: String::from("mag_sp2"), id: 222 },
        Emoji { name: String::from("MAG_SP2"), id: 333 },
    ]
}

const SEC: i64 = 1_000_000;

#[test]
fn empty_slots_are_numbered_from_one() {
    assert_eq!(render_empty_slots(0), "");
    assert_eq!(render_empty_slots(-4), "");
    assert_eq!(render_empty_slots(1), "1. [Empty]");
    assert_eq!(render_empty_slots(3), "1. [Empty]\n2. [Empty]\n3. [Empty]");
    assert_eq!(render_empty_slots(12).lines().count(), 12);
    assert!(render_empty_slots(12).ends_with("\n12. [Empty]"));
}

#[test]
fn time_left_shows_at_most_two_units() {
    assert_eq!(human_time_left(0, 0), "now");
    assert_eq!(human_time_left(0, 5 * SEC), "now");
    assert_eq!(human_time_left(SEC - 1, 0), "now");
    assert_eq!(human_time_left(SEC, 0), "<1m");
    assert_eq!(human_time_left(59 * SEC, 0), "<1m");
    assert_eq!(human_time_left(60 * SEC, 0), "1m");
    assert_eq!(human_time_left(3600 * SEC, 0), "1h");
    assert_eq!(human_time_left(3660 * SEC, 0), "1h 1m");
    assert_eq!(human_time_left(86400 * SEC, 0), "1d");
    assert_eq!(human_time_left((86400 + 3600 * 5 + 60 * 7) * SEC, 0), "1d 5h");
    assert_eq!(human_time_left((2 * 86400 + 60 * 7 + 3) * SEC, 0), "2d 7m");
    assert_eq!(human_time_left(100 * SEC, 40 * SEC), "1m");
    assert_eq!(human_time_left(i64::MAX, i64::MIN), "213503982d 8h");
}

#[test]
fn keys_are_sorted_one_number_after_the_other() {
    assert_eq!(
        sorted_keys(vec![(1, 5, 0), (0, 9, 1), (0, 9, 0), (0, -3, 7), (1, 5, 0)]),
        vec![(0, -3, 7), (0, 9, 0), (0, 9, 1), (1, 5, 0), (1, 5, 0)]
    );
    assert_eq!(sorted_keys(vec![]), vec![]);
}

#[test]
fn mains_are_shown_primaries_first_in_arrival_order() {
    let roster = roster_of(vec![
        row(1, 10, "MSW / SP1", true, true, 1, ""),
        row(2, 20, "MAG / SP2", true, false, 9, ""),
        row(3, 30, "ARCH / SP3", false, false, 2, ""),
        row(4, 40, "SWORD / SP4", true, false, 3, ""),
        row(5, 50, "SWORD / SP4", true, false, 3, ""),
    ]);
    assert_eq!(shown_rows(&roster, true), vec![3, 4, 1, 0]);
    assert_eq!(shown_rows(&roster, false), vec![2]);
}

#[test]
fn slots_show_entrants_then_empty_lines() {
    let roster = roster_of(vec![
        row(1, 10, "MSW / SP1", true, true, 1, ""),
        row(2, 20, "MAG / SP2", true, false, 9, " [-c90]"),
        row(3, 30, "ARCH / SP3", false, false, 2, ""),
    ]);
    let list = emojis();
    assert_eq!(
        render_slots(&roster, Some(&list), 3),
        "1. <:mag_sp2:222> MAG / SP2 <@20> [-c90]\n2. <:MSW_SP1:111> MSW / SP1 <@10> (ALT)\n3. [Empty]"
    );
    assert_eq!(render_slots(&roster, None, 1), "1. MAG / SP2 <@20> [-c90]");
    assert_eq!(render_slots(&roster, None, 0), "1. MAG / SP2 <@20> [-c90]");
    assert_eq!(render_slots(&Roster::new(), None, -5), "1. [Empty]");
}

#[test]
fn capacity_counts_filled_slots() {
    assert_eq!(capacity_text(3, 12, true, 1), "3/12 (alts allowed: yes, max_alts: 1)");
    assert_eq!(capacity_text(14, 12, false, 0), "12/12 (alts allowed: no, max_alts: 0)");
    assert_eq!(capacity_text(2, 0, false, -1), "1/0 (alts allowed: no, max_alts: -1)");
    assert_eq!(capacity_text(0, -3, true, 1), "0/-3 (alts allowed: yes, max_alts: 1)");
}

#[test]
fn reserves_are_listed_up_to_ten() {
    assert_eq!(render_reserves(&Roster::new(), None), None);
    let roster = roster_of(vec![
        row(1, 10, "MSW / SP1", false, true, 1, ""),
        row(2, 20, "MAG / SP9", false, false, 9, " [-c90]"),
        row(3, 30, "ARCH / SP3", true, false, 2, ""),
    ]);
    assert_eq!(
        render_reserves(&roster, None),
        Some(String::from("\u{2022} MAG / SP9 <@20> [-c90]\n\u{2022} MSW / SP1 <@10> (ALT)"))
    );
    let many = roster_of((0..13).map(|k| row(k as u128, -k, "A / B", false, false, k, "")).collect());
    let text = render_reserves(&many, None).unwrap();
    assert_eq!(text.lines().count(), 11);
    assert!(text.starts_with("\u{2022} A / B <@0>\n\u{2022} A / B <@-1>\n"));
    assert!(text.ends_with("\u{2022} A / B <@-9>\n... and 3 more"));
}

#[test]
fn emojis_are_found_by_name_whatever_the_case() {
    let list = emojis();
    assert_eq!(emoji_tag(&list, "msw_sp1"), Some(String::from("<:MSW_SP1:111>")));
    assert_eq!(emoji_tag(&list, "MAG_SP2"), Some(String::from("<:mag_sp2:222>")));
    assert_eq!(emoji_tag(&list, "MAG_SP3"), None);
    assert_eq!(emoji_tag(&vec![], "x"), None);
}

#[test]
fn labels_have_emoji_names() {
    assert_eq!(class_abbr("Warrior"), "MSW");
    assert_eq!(class_abbr("msw"), "MSW");
    assert_eq!(class_abbr("ARCHER"), "ARCH");
    assert_eq!(class_abbr("arch"), "ARCH");
    assert_eq!(class_abbr("swordsman"), "SWORD");
    assert_eq!(class_abbr("Sword"), "SWORD");
    assert_eq!(class_abbr("mage"), "MAG");
    assert_eq!(class_abbr("MAG"), "MAG");
    assert_eq!(class_abbr("monk"), "MONK");
    assert_eq!(emoji_name("warrior / sp1"), Some(String::from("MSW_SP1")));
    assert_eq!(emoji_name(" Monk/ sp11 "), Some(String::from("MONK_SP11")));
    assert_eq!(emoji_name("MSW"), None);
    assert_eq!(emoji_name("a/b/c"), None);
    assert_eq!(emoji_name("/"), Some(String::from("_")));
}

#[test]
fn labels_are_decorated_where_the_guild_has_the_emoji() {
    let list = emojis();
    assert_eq!(decorate_joined_as(Some(&list), "Warrior / sp1"), "<:MSW_SP1:111> Warrior / sp1");
    assert_eq!(decorate_joined_as(Some(&list), "Warrior / sp2"), "Warrior / sp2");
    assert_eq!(decorate_joined_as(Some(&list), "Warrior"), "Warrior");
    assert_eq!(decorate_joined_as(None, "Warrior / sp1"), "Warrior / sp1");
}
