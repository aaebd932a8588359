use raid_roster::channels::{
    channel_name, contains_text, emoji_and_slug, emoji_for, find_category, hyphenate,
    hyphenate_blanks, to_lowercase, Channel,
};
use raid_roster::messages::{
    fallback_name, mention_channel, mention_user, notification_message, option_label,
    reminder_message, sign_off_notice, sign_off_post, status_word,
};
use raid_roster::paging::{page_slice, page_window, turn_page, PageWindow, PAGE_SIZE};
use raid_roster::raid_list::{render_all_raids_list, ListedRaid};
use raid_roster::weekly::{days_until_weekday, string_to_weekday};

#[test]
fn raid_names_become_slugs_with_an_emoji() {
    assert_eq!(emoji_and_slug("ArmaV2"), ("\u{1f9be}", String::from("armav2")));
    assert_eq!(emoji_and_slug("Arma"), ("\u{1f916}", String::from("arma")));
    assert_eq!(emoji_and_slug("Pollutus"), ("\u{1f9a0}", String::from("pollutus")));
    assert_eq!(emoji_and_slug("Azgobas"), ("\u{1f409}", String::from("azgobas")));
    assert_eq!(emoji_and_slug("Valehir"), ("\u{1f480}", String::from("valehir")));
    assert_eq!(emoji_and_slug("Alzanor"), ("\u{1f976}", String::from("alzanor")));
    assert_eq!(emoji_and_slug("Sky_Tower"), ("\u{1f5fc}", String::from("sky-tower")));
    assert_eq!(emoji_and_slug("Sky Tower"), ("\u{1f5fc}", String::from("sky-tower")));
    assert_eq!(emoji_and_slug("Hc_A8-A6"), ("\u{1f525}", String::from("hc-a8-a6")));
    assert_eq!(emoji_and_slug("HC "), ("\u{1f525}", String::from("hc-")));
    assert_eq!(emoji_and_slug("hc"), ("\u{1f3f7}\u{fe0f}", String::from("hc")));
    assert_eq!(emoji_and_slug("\u{141}\u{d3}D\u{179}"), ("\u{1f3f7}\u{fe0f}", String::from("\u{142}\u{f3}d\u{17a}")));
    assert_eq!(emoji_for(&String::from("arma")), "\u{1f916}");
    assert_eq!(hyphenate("a_b c-d"), "a-b-c-d");
    assert_eq!(hyphenate_blanks("a_b c  d"), "a_b-c--d");
    assert_eq!(to_lowercase("\u{130}A"), "i\u{307}a");
}

#[test]
fn channels_are_named_after_raid_and_time() {
    assert_eq!(channel_name("\u{1f916}", "arma", "31-01", "20_30"), "\u{1f916}-arma-31-01 at 20_30");
}

#[test]
fn texts_are_searched_for_words() {
    assert!(contains_text("raids on tuesday evening", "tuesday"));
    assert!(contains_text("tuesday", "tuesday"));
    assert!(contains_text("abc", ""));
    assert!(contains_text("", ""));
    assert!(!contains_text("tuesda", "tuesday"));
    assert!(!contains_text("", "a"));
    assert!(contains_text("aab", "ab"));
    assert!(!contains_text("Tuesday", "tuesday"));
}

#[test]
fn the_category_of_a_day_is_the_first_that_names_it() {
    let ch = |id: u64, name: &str, is_category: bool| Channel { id, name: String::from(name), is_category };
    let channels = vec![
        ch(1, "tuesday-chat", false),
        ch(2, "MONDAY raids", true),
        ch(3, "Raids TUESDAY", true),
        ch(4, "tuesday again", true),
    ];
    assert_eq!(find_category(&channels, "tuesday"), Some(3));
    assert_eq!(find_category(&channels, "monday"), Some(2));
    assert_eq!(find_category(&channels, "friday"), None);
    assert_eq!(find_category(&vec![], "friday"), None);
}

#[test]
fn users_and_channels_are_mentioned_by_number() {
    assert_eq!(mention_user(42), "<@42>");
    assert_eq!(mention_user(-1), "<@18446744073709551615>");
    assert_eq!(mention_channel(7), "<#7>");
    assert_eq!(fallback_name(9), "user 9");
    assert_eq!(status_word(true), "MAIN");
    assert_eq!(status_word(false), "RESERVE");
}

#[test]
fn messages_have_their_wording() {
    assert_eq!(
        reminder_message("Arma", "2025-01-31 20:30 CET", 77, true),
        "\u{23f0} Reminder: **Arma** starts at **2025-01-31 20:30 CET**.\nChannel: <#77>\nYour status: **MAIN**"
    );
    assert_eq!(
        notification_message("Arma", "2025-01-31 20:30 CET", 77, false),
        "\u{1f4e3} Notification: **Arma** at **2025-01-31 20:30 CET**.\nChannel: <#77>\nYour status: **RESERVE**"
    );
    assert_eq!(
        sign_off_notice(5, "Arma", 77, "1h 5m"),
        "Heads up: user <@5> signed off from raid \"Arma\".\nChannel: <#77>\nStarts in: 1h 5m"
    );
    assert_eq!(sign_off_post(-5, "now"), "<@-5> signed off. Raid starts in now.");
    assert_eq!(option_label("MSW / SP1", "Ala", false, None), "MSW / SP1 Ala");
    assert_eq!(option_label("MSW / SP1", "Ala", true, None), "MSW / SP1 Ala (ALT)");
    assert_eq!(option_label("MSW / SP1", "Ala", true, Some(true)), "MSW / SP1 Ala [MAIN] (ALT)");
    assert_eq!(option_label("MSW / SP1", "Ala", false, Some(false)), "MSW / SP1 Ala [RES]");
}

#[test]
fn lists_are_shown_in_pages_of_25() {
    assert_eq!(PAGE_SIZE, 25);
    assert_eq!(page_window(0, 0, 0, 0), PageWindow { page: 0, pages: 1, start: 0, end: 1 });
    assert_eq!(page_window(3, 10, 25, 0), PageWindow { page: 0, pages: 1, start: 0, end: 25 });
    assert_eq!(page_window(26, 10, 25, 0), PageWindow { page: 0, pages: 2, start: 0, end: 25 });
    assert_eq!(page_window(26, 10, 25, 1), PageWindow { page: 1, pages: 2, start: 25, end: 26 });
    assert_eq!(page_window(26, 10, 25, 9), PageWindow { page: 1, pages: 2, start: 25, end: 26 });
    assert_eq!(page_window(1, 60, 2, 1), PageWindow { page: 1, pages: 3, start: 25, end: 50 });
    let w = page_window(usize::MAX, 0, 0, usize::MAX);
    assert_eq!(w.end, usize::MAX);
    assert_eq!(w.page, w.pages - 1);
    let w = page_window(1, 60, 2, 1);
    assert_eq!(page_slice(60, &w), (25, 50));
    assert_eq!(page_slice(30, &w), (25, 30));
    assert_eq!(page_slice(2, &w), (2, 2));
    assert_eq!(page_slice(9, &PageWindow { page: 0, pages: 1, start: 5, end: 3 }), (5, 5));
    assert_eq!(turn_page(0, false), 0);
    assert_eq!(turn_page(3, false), 2);
    assert_eq!(turn_page(3, true), 4);
    assert_eq!(turn_page(usize::MAX, true), usize::MAX);
}

#[test]
fn the_list_of_raids_has_a_line_for_each() {
    assert_eq!(render_all_raids_list(&vec![]), "Brak aktywnych rajd\u{f3}w.");
    let raids = vec![
        ListedRaid {
            raid_name: String::from("Arma"),
            created_by: 5,
            filled: 3,
            max_players: 12,
            when_local: String::from("2025-01-31 20:30"),
            channel_id: 77,
        },
        ListedRaid {
            raid_name: String::from("Pollutus"),
            created_by: 6,
            filled: 0,
            max_players: 8,
            when_local: String::from("2025-02-01 18:00"),
            channel_id: 78,
        },
    ];
    assert_eq!(
        render_all_raids_list(&raids),
        "Aktualne rajdy:\n\u{2022} Arma \u{2014} <@5> \u{2014} 3/12 \u{2014} 2025-01-31 20:30 \u{2014} <#77>\n\u{2022} Pollutus \u{2014} <@6> \u{2014} 0/8 \u{2014} 2025-02-01 18:00 \u{2014} <#78>\n"
    );
}

#[test]
fn weekdays_have_numbers_and_distances() {
    assert_eq!(string_to_weekday("Monday"), Some(1));
    assert_eq!(string_to_weekday("TUESDAY"), Some(2));
    assert_eq!(string_to_weekday("wednesday"), Some(3));
    assert_eq!(string_to_weekday("thursday"), Some(4));
    assert_eq!(string_to_weekday("friday"), Some(5));
    assert_eq!(string_to_weekday("saturday"), Some(6));
    assert_eq!(string_to_weekday("sunday"), Some(7));
    assert_eq!(string_to_weekday("sun"), None);
    assert_eq!(days_until_weekday(3, 3), Some(0));
    assert_eq!(days_until_weekday(3, 5), Some(2));
    assert_eq!(days_until_weekday(5, 3), Some(5));
    assert_eq!(days_until_weekday(7, 1), Some(1));
    assert_eq!(days_until_weekday(0, 1), None);
    assert_eq!(days_until_weekday(1, 8), None);
}
