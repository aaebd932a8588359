use raid_roster::names::{best_name, cache_get, cache_put, NameCache, NAME_TTL};

#[test]
fn an_empty_cache_knows_nobody() {
    let cache = NameCache::new();
    assert_eq!(cache_get(&cache, 1, 0), None);
}

#[test]
fn a_name_is_good_for_half_an_hour() {
    assert_eq!(NAME_TTL, 30 * 60 * 1_000_000);
    let mut cache = NameCache::new();
    cache_put(&mut cache, 7, String::from("Ala"), 1_000);
    assert_eq!(cache_get(&cache, 7, 1_000), Some(String::from("Ala")));
    assert_eq!(cache_get(&cache, 7, 1_000 + NAME_TTL - 1), Some(String::from("Ala")));
    assert_eq!(cache_get(&cache, 7, 1_000 + NAME_TTL), None);
    assert_eq!(cache_get(&cache, 7, 0), Some(String::from("Ala")));
    assert_eq!(cache_get(&cache, 8, 1_000), None);
}

#[test]
fn a_newer_name_replaces_the_older() {
    let mut cache = NameCache::new();
    cache_put(&mut cache, 7, String::from("Ala"), 0);
    cache_put(&mut cache, 8, String::from("Ola"), 0);
    cache_put(&mut cache, 7, String::from("Ela"), NAME_TTL);
    assert_eq!(cache_get(&cache, 7, NAME_TTL + 5), Some(String::from("Ela")));
    assert_eq!(cache_get(&cache, 8, 5), Some(String::from("Ola")));
    assert_eq!(cache_get(&cache, 8, i64::MAX), None);
    assert_eq!(cache_get(&cache, 8, i64::MIN), Some(String::from("Ola")));
}

#[test]
fn the_nickname_comes_before_the_other_names() {
    let s = |t: &str| Some(String::from(t));
    assert_eq!(best_name(s("nick"), s("global"), String::from("user")), "nick");
    assert_eq!(best_name(s(""), s("global"), String::from("user")), "global");
    assert_eq!(best_name(None, s("global"), String::from("user")), "global");
    assert_eq!(best_name(None, s(""), String::from("user")), "user");
    assert_eq!(best_name(None, None, String::from("user")), "user");
    assert_eq!(best_name(s(""), None, String::new()), "");
}
