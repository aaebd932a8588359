use raid_roster::components::{
    component_action, component_id, confirm_label, next_close, CloseStep, ComponentAction,
};
use raid_roster::ids::{
    fresh_id, parse_component_id, push_uuid, read_uuid, row_id_for, split_component_id,
    uuid_string, with_raid,
};

const RAID: u128 = 0x550e8400_e29b_41d4_a716_446655440000;
const RAID_TEXT: &str = "550e8400-e29b-41d4-a716-446655440000";

fn parts(a: &str, b: &str, c: &str) -> Option<(String, String, String)> {
    Some((String::from(a), String::from(b), String::from(c)))
}

#[test]
fn identifiers_are_written_in_groups_of_hex_digits() {
    assert_eq!(uuid_string(RAID), RAID_TEXT);
    assert_eq!(uuid_string(0), "00000000-0000-0000-0000-000000000000");
    assert_eq!(uuid_string(u128::MAX), "ffffffff-ffff-ffff-ffff-ffffffffffff");
    assert_eq!(uuid_string(0xabcdef), "00000000-0000-0000-0000-000000abcdef");
    let mut s = String::from("r:l:");
    push_uuid(&mut s, 1);
    assert_eq!(s, "r:l:00000000-0000-0000-0000-000000000001");
    assert_eq!(uuid_string(RAID), uuid::Uuid::from_u128(RAID).to_string());
}

#[test]
fn identifiers_are_read_from_text() {
    assert_eq!(read_uuid(RAID_TEXT), Some(RAID));
    assert_eq!(read_uuid("550E8400E29B41D4A716446655440000"), Some(RAID));
    assert_eq!(read_uuid("00000000-0000-0000-0000-000000000000"), Some(0));
    assert_eq!(read_uuid("not-a-uuid"), None);
    assert_eq!(read_uuid(""), None);
    assert_eq!(read_uuid(&uuid_string(u128::MAX)), Some(u128::MAX));
}

#[test]
fn fresh_identifiers_are_random() {
    let a = fresh_id();
    let b = fresh_id();
    assert_ne!(a, b);
    assert_eq!(uuid::Uuid::from_u128(a).get_version_num(), 4);
    for id in [a, b] {
        assert_ne!(id, 0);
        assert_eq!((id >> 76) & 0xf, 4);
        assert_eq!((id >> 62) & 0x3, 2);
        assert_eq!(uuid_string(id).chars().nth(14), Some('4'));
    }
    assert_eq!(row_id_for(RAID_TEXT), RAID);
    assert_ne!(row_id_for("no identifier"), row_id_for("no identifier"));
}

#[test]
fn component_ids_split_into_parts() {
    assert_eq!(split_component_id("r:j:m:abc"), parts("j", "m", "abc"));
    assert_eq!(split_component_id("j:a:abc"), parts("j", "a", "abc"));
    assert_eq!(split_component_id("r:l:abc"), parts("l", "", "abc"));
    assert_eq!(split_component_id("r:chc:"), parts("chc", "", ""));
    for kind in ["l", "la", "mg", "pc", "ps", "ok", "pr", "mr", "kk", "cx", "not", "cho", "chp", "chc"] {
        assert_eq!(split_component_id(&format!("r:{kind}:x")), parts(kind, "", "x"));
        assert_eq!(split_component_id(&format!("{kind}:x")), parts(kind, "", "x"));
    }
    assert_eq!(split_component_id("r:j:x:abc"), None);
    assert_eq!(split_component_id("r:l:m:abc"), None);
    assert_eq!(split_component_id("r:zz:abc"), None);
    assert_eq!(split_component_id("r:cl:abc"), None);
    assert_eq!(split_component_id("r:j:m:a:b"), None);
    assert_eq!(split_component_id("r:l"), None);
    assert_eq!(split_component_id("l"), None);
    assert_eq!(split_component_id(""), None);
    assert_eq!(split_component_id("r:"), None);
    assert_eq!(split_component_id("r:r:l:abc"), None);
}

#[test]
fn component_ids_name_a_raid() {
    assert_eq!(
        parse_component_id(&format!("r:j:m:{RAID_TEXT}")),
        Some((String::from("j"), String::from("m"), RAID))
    );
    assert_eq!(
        parse_component_id(&format!("kk:{RAID_TEXT}")),
        Some((String::from("kk"), String::new(), RAID))
    );
    assert_eq!(parse_component_id("r:kk:nope"), None);
    assert_eq!(parse_component_id(&format!("r:xx:{RAID_TEXT}")), None);
    assert_eq!(with_raid(parts("l", "", "x"), Some(5)), Some((String::from("l"), String::new(), 5)));
    assert_eq!(with_raid(parts("l", "", "x"), None), None);
    assert_eq!(with_raid(None, Some(5)), None);
}

#[test]
fn component_ids_are_built_as_they_are_read() {
    assert_eq!(component_id("j", "m", RAID), format!("r:j:m:{RAID_TEXT}"));
    assert_eq!(component_id("l", "", RAID), format!("r:l:{RAID_TEXT}"));
    assert_eq!(
        parse_component_id(&component_id("j", "a", RAID)),
        Some((String::from("j"), String::from("a"), RAID))
    );
    assert_eq!(confirm_label(true), "Confirm (Main)");
    assert_eq!(confirm_label(false), "Confirm (Alt)");
}

#[test]
fn components_stand_for_actions() {
    assert_eq!(component_action("j", "m"), Some(ComponentAction::ShowJoinMenu { main: true }));
    assert_eq!(component_action("j", "a"), Some(ComponentAction::ShowJoinMenu { main: false }));
    assert_eq!(component_action("pc", ""), Some(ComponentAction::SavePick { is_class: true }));
    assert_eq!(component_action("ps", ""), Some(ComponentAction::SavePick { is_class: false }));
    assert_eq!(component_action("ok", ""), Some(ComponentAction::ConfirmJoin));
    assert_eq!(component_action("l", ""), Some(ComponentAction::LeaveAll));
    assert_eq!(component_action("la", ""), Some(ComponentAction::LeaveAlts));
    assert_eq!(component_action("mg", ""), Some(ComponentAction::OwnerManage));
    assert_eq!(component_action("mgp", "prev"), Some(ComponentAction::OwnerManagePage { forward: false }));
    assert_eq!(component_action("mgp", "next"), Some(ComponentAction::OwnerManagePage { forward: true }));
    assert_eq!(component_action("pr", ""), Some(ComponentAction::OwnerPromote));
    assert_eq!(component_action("mr", ""), Some(ComponentAction::OwnerMoveToReserve));
    assert_eq!(component_action("kk", ""), Some(ComponentAction::OwnerKick));
    assert_eq!(component_action("cx", ""), Some(ComponentAction::OwnerCancel));
    assert_eq!(component_action("cl", ""), Some(ComponentAction::Close));
    assert_eq!(component_action("not", ""), Some(ComponentAction::NotifyNow));
    assert_eq!(component_action("cho", ""), Some(ComponentAction::OwnerChangeStart));
    assert_eq!(component_action("chp", ""), Some(ComponentAction::OwnerChangePick));
    assert_eq!(component_action("chc", ""), Some(ComponentAction::OwnerChangeConfirm));
    assert_eq!(component_action("asp", ""), Some(ComponentAction::AddSpStart));
    assert_eq!(component_action("aspick", ""), Some(ComponentAction::AddSpPick));
    assert_eq!(component_action("csp", ""), Some(ComponentAction::ChangeSpStart));
    assert_eq!(component_action("cspick", ""), Some(ComponentAction::ChangeSpPick));
    assert_eq!(component_action("j", ""), None);
    assert_eq!(component_action("l", "m"), None);
    assert_eq!(component_action("mgp", ""), None);
    assert_eq!(component_action("x", ""), None);
}

#[test]
fn closing_a_message_tries_each_way_once() {
    assert_eq!(next_close(CloseStep::Acknowledge, false), CloseStep::Finished);
    assert_eq!(next_close(CloseStep::Acknowledge, true), CloseStep::DeleteResponse);
    assert_eq!(next_close(CloseStep::DeleteResponse, true), CloseStep::Finished);
    assert_eq!(next_close(CloseStep::DeleteResponse, false), CloseStep::DeleteFollowup);
    assert_eq!(next_close(CloseStep::DeleteFollowup, true), CloseStep::Finished);
    assert_eq!(next_close(CloseStep::DeleteFollowup, false), CloseStep::LeaveNote);
    assert_eq!(next_close(CloseStep::LeaveNote, false), CloseStep::Finished);
    assert_eq!(next_close(CloseStep::Finished, true), CloseStep::Finished);
}
