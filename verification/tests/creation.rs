use raid_roster::creation::{
    parse_list_unique, plan_raid, resolve_roles, CreateRefusal, RaidRequest,
};
use raid_roster::ownership::{
    handle_transfer, owner_candidates, owner_change_confirm, TransferRefusal, MENU_LIMIT,
};
use raid_roster::models::{CapacityConfig, Raid};
use raid_roster::role_admin::{
    handle_role_add, wanted_role_name, RoleChange, RoleRefusal, ORGANISER_ROLE_NAME,
};
use raid_roster::roles::{find_role_named, Member, Role};
use raid_roster::schedule::HOUR;

fn role(id: u64, name: &str) -> Role {
    Role { id, name: Some(String::from(name)) }
}

fn texts(list: &[&str]) -> Vec<String> {
    list.iter().map(|s| String::from(*s)).collect()
}

fn guild() -> Vec<Role> {
    vec![role(1, "Maraton"), role(2, "Elite"), role(3, "elite"), role(4, "raid_organiser"), role(5, "rezerwa")]
}

fn raid(owner: i64, active: bool) -> Raid {
    Raid {
        id: 1,
        guild_id: 2,
        channel_id: 3,
        message_id: 4,
        scheduled_for: 5,
        created_by: owner,
        owner_id: owner,
        description: String::new(),
        is_active: active,
        raid_name: String::from("Arma"),
        capacity: CapacityConfig::new(12, true, 1, None, vec![]).unwrap(),
    }
}

#[test]
fn lists_of_names_are_split_tidied_and_made_unique() {
    assert_eq!(parse_list_unique("Maraton, Elite ,maraton,, ELITE,x"), texts(&["Maraton", "Elite", "x"]));
    assert_eq!(parse_list_unique(""), Vec::<String>::new());
    assert_eq!(parse_list_unique(" , ,"), Vec::<String>::new());
    assert_eq!(parse_list_unique("one"), texts(&["one"]));
    assert_eq!(parse_list_unique("a b,c"), texts(&["a b", "c"]));
}

#[test]
fn role_names_resolve_to_the_first_role_of_that_name() {
    let g = guild();
    assert_eq!(resolve_roles(&texts(&["elite", "nothing", "MARATON", "Elite"]), &g), vec![2, 1, 2]);
    assert_eq!(resolve_roles(&vec![], &g), Vec::<u64>::new());
    assert_eq!(find_role_named(&g, "ELITE"), Some(2));
    assert_eq!(find_role_named(&g, "none"), None);
}

#[test]
fn a_request_has_defaults() {
    let r = RaidRequest::new();
    assert_eq!(r.raid_name, "arma_v2");
    assert_eq!(r.raid_date, "");
    assert_eq!(r.max_players, 12);
    assert!(r.allow_alts);
    assert_eq!(r.max_alts, 1);
    assert!(!r.priority);
    assert!(r.priority_roles.is_empty());
    assert_eq!(r.priority_hours, None);
    assert_eq!(r.description, "");
}

#[test]
fn a_raid_without_priority_gets_its_seats() {
    let g = guild();
    let author = vec![];
    let mut r = RaidRequest::new();
    r.priority_hours = Some(3);
    let cfg = plan_raid(&r, Some(100), Some((&g, &author))).ok().unwrap();
    assert_eq!(cfg.max_mains(), 12);
    assert_eq!(cfg.max_alt_mains(), 1);
    assert!(cfg.allow_alts());
    assert_eq!(cfg.priority_window_until(), None);
    assert!(cfg.priority_eligible_ids().is_empty());
}

#[test]
fn a_raid_with_priority_gets_a_window_and_roles() {
    let g = guild();
    let author = vec![role(3, "elite"), role(1, "Maraton")];
    let mut r = RaidRequest::new();
    r.priority = true;
    r.priority_hours = Some(3);
    let cfg = plan_raid(&r, Some(10 * HOUR), Some((&g, &author))).ok().unwrap();
    assert_eq!(cfg.priority_window_until(), Some(7 * HOUR));
    assert_eq!(cfg.priority_eligible_ids(), &vec![1]);
    r.priority_roles = texts(&["Elite", "Ghost"]);
    r.priority_hours = None;
    let author = vec![role(2, "Elite")];
    let cfg = plan_raid(&r, Some(10 * HOUR), Some((&g, &author))).ok().unwrap();
    assert_eq!(cfg.priority_window_until(), None);
    assert_eq!(cfg.priority_eligible_ids(), &vec![2]);
}

#[test]
fn creation_is_refused_for_each_reason() {
    let g = guild();
    let author = vec![role(1, "Maraton")];
    let why = |r: &RaidRequest, at: Option<i64>, guild: Option<(&Vec<Role>, &Vec<Role>)>| plan_raid(r, at, guild).err();
    let mut r = RaidRequest::new();
    assert_eq!(why(&r, None, Some((&g, &author))), Some(CreateRefusal::InvalidDate));
    assert_eq!(why(&r, None, None), Some(CreateRefusal::InvalidDate));
    assert_eq!(why(&r, Some(1), None), Some(CreateRefusal::UseInServer));
    r.priority = true;
    assert_eq!(why(&r, Some(1), None), Some(CreateRefusal::UseInServer));
    r.priority_roles = texts(&["Ghost"]);
    assert_eq!(why(&r, Some(1), Some((&g, &author))), Some(CreateRefusal::PriorityRolesNotFound));
    r.priority_roles = texts(&["Elite"]);
    assert_eq!(why(&r, Some(1), Some((&g, &author))), Some(CreateRefusal::AuthorLacksPriority));
    r.priority = false;
    r.max_alts = 13;
    assert_eq!(why(&r, Some(1), Some((&g, &author))), Some(CreateRefusal::InvalidCapacity));
    r.max_alts = -1;
    assert_eq!(why(&r, Some(1), Some((&g, &author))), Some(CreateRefusal::InvalidCapacity));
    r.max_alts = 0;
    r.max_players = -1;
    assert_eq!(why(&r, Some(1), Some((&g, &author))), Some(CreateRefusal::InvalidCapacity));
    r.max_players = 1 << 31;
    assert_eq!(why(&r, Some(1), Some((&g, &author))), Some(CreateRefusal::InvalidCapacity));
    r.max_players = 0;
    assert!(plan_raid(&r, Some(1), Some((&g, &author))).is_ok());
}

#[test]
fn roles_change_at_an_organisers_command() {
    let g = guild();
    let organiser = vec![role(4, "Raid_Organiser")];
    assert_eq!(ORGANISER_ROLE_NAME, "raid_organiser");
    assert_eq!(handle_role_add(true, true, &organiser, &g, "add", "Maraton", "rezerwa"), Ok(RoleChange::Add(1)));
    assert_eq!(handle_role_add(true, true, &organiser, &g, "REMOVE", "elite", "rezerwa"), Ok(RoleChange::Remove(2)));
    assert_eq!(handle_role_add(true, true, &organiser, &g, "Add", "Reserve", "rezerwa"), Ok(RoleChange::Add(5)));
    assert_eq!(wanted_role_name("RESERVE", "rezerwa"), "rezerwa");
    assert_eq!(wanted_role_name("c90", "rezerwa"), "c90");
}

#[test]
fn role_changes_are_refused_for_each_reason() {
    let g = guild();
    let organiser = vec![role(4, "raid_organiser")];
    let nobody = vec![role(1, "Maraton")];
    assert_eq!(handle_role_add(false, false, &nobody, &g, "x", "y", "z"), Err(RoleRefusal::UseInServer));
    assert_eq!(handle_role_add(true, false, &nobody, &g, "x", "y", "z"), Err(RoleRefusal::MissingUser));
    assert_eq!(handle_role_add(true, true, &nobody, &g, "add", "Maraton", "z"), Err(RoleRefusal::NotOrganiser));
    assert_eq!(handle_role_add(true, true, &organiser, &g, "add", "c90", "z"), Err(RoleRefusal::RoleNotFound));
    assert_eq!(handle_role_add(true, true, &organiser, &g, "add", "reserve", "reserve"), Err(RoleRefusal::RoleNotFound));
    assert_eq!(handle_role_add(true, true, &organiser, &g, "toggle", "Maraton", "z"), Err(RoleRefusal::BadAction));
}

#[test]
fn candidates_for_ownership_are_organisers_by_rising_id() {
    let organiser = || vec![role(4, "raid_organiser")];
    let members = vec![
        Member { user_id: 50, roles: organiser() },
        Member { user_id: 7, roles: organiser() },
        Member { user_id: 9, roles: vec![role(1, "Maraton")] },
        Member { user_id: 30, roles: organiser() },
        Member { user_id: 8, roles: vec![role(1, "x"), role(4, "raid_organiser")] },
    ];
    assert_eq!(owner_candidates(&members, 4, 30), vec![7, 8, 50]);
    assert_eq!(owner_candidates(&members, 1, 30), vec![8, 9]);
    assert_eq!(owner_candidates(&members, 1, 9), vec![8]);
    assert_eq!(owner_candidates(&members, 99, 30), Vec::<u64>::new());
    assert_eq!(MENU_LIMIT, 25);
    let many: Vec<Member> = (0..40).rev().map(|k| Member { user_id: k, roles: organiser() }).collect();
    assert_eq!(owner_candidates(&many, 4, 3), vec![0, 1, 2, 4, 5, 6, 7, 8, 9, 10, 11, 12, 13, 14, 15, 16, 17, 18, 19, 20, 21, 22, 23, 24, 25]);
}

#[test]
fn a_raid_changes_hands() {
    let mut r = raid(10, true);
    assert_eq!(owner_change_confirm(&mut r, 10, Some(20), Some(true)), Ok(20));
    assert_eq!(r.owner_id, 20);
    assert_eq!(owner_change_confirm(&mut r, 20, Some(30), None), Ok(30));
    assert_eq!(r.owner_id, 30);
    assert!(handle_transfer(&mut r, 30, Some(40)));
    assert_eq!(r.owner_id, 40);
    assert!(!handle_transfer(&mut r, 30, Some(50)));
    assert!(!handle_transfer(&mut r, 40, None));
    assert_eq!(r.owner_id, 40);
}

#[test]
fn a_transfer_is_refused_for_each_reason() {
    let mut r = raid(10, true);
    assert_eq!(owner_change_confirm(&mut r, 11, Some(20), Some(true)), Err(TransferRefusal::NotOwner));
    assert_eq!(owner_change_confirm(&mut r, 10, None, None), Err(TransferRefusal::NothingPicked));
    assert_eq!(owner_change_confirm(&mut r, 10, Some(10), Some(true)), Err(TransferRefusal::AlreadyOwner));
    assert_eq!(owner_change_confirm(&mut r, 10, Some(20), Some(false)), Err(TransferRefusal::RoleLost));
    assert_eq!(r.owner_id, 10);
    let mut gone = raid(10, false);
    assert_eq!(owner_change_confirm(&mut gone, 10, Some(20), Some(true)), Err(TransferRefusal::Cancelled));
    assert_eq!(gone.owner_id, 10);
}
