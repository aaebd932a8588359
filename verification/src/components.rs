//! The buttons and menus of a raid: what each stands for and how it is
//! named.

use crate::ids::{push_uuid, uuid_text};
use vstd::prelude::*;
use vstd::string::*;

verus! {

/// What a button or a menu asks for.
#[derive(Clone, Copy, Debug, PartialEq, Eq, Structural)]
pub enum ComponentAction {
    /// Open the join dialogue, for the primary slot or for an alt.
    ShowJoinMenu { main: bool },
    /// Record a pick in the join dialogue: a class, or else a specialist.
    SavePick { is_class: bool },
    ConfirmJoin,
    LeaveAll,
    LeaveAlts,
    OwnerManage,
    /// Turn the page of the owner's lists.
    OwnerManagePage { forward: bool },
    OwnerPromote,
    OwnerMoveToReserve,
    OwnerKick,
    OwnerCancel,
    Close,
    NotifyNow,
    OwnerChangeStart,
    OwnerChangePick,
    OwnerChangeConfirm,
    AddSpStart,
    AddSpPick,
    ChangeSpStart,
    ChangeSpPick,
}

/// What the action and its object stand for; nothing for a pair that no
/// button or menu carries.
pub open spec fn action_of(kind: Seq<char>, which: Seq<char>) -> Option<ComponentAction> {
    if kind == "j"@ && which == "m"@ {
        Some(ComponentAction::ShowJoinMenu { main: true })
    } else if kind == "j"@ && which == "a"@ {
        Some(ComponentAction::ShowJoinMenu { main: false })
    } else if kind == "mgp"@ && which == "prev"@ {
        Some(ComponentAction::OwnerManagePage { forward: false })
    } else if kind == "mgp"@ && which == "next"@ {
        Some(ComponentAction::OwnerManagePage { forward: true })
    } else if which != ""@ {
        None
    } else if kind == "pc"@ {
        Some(ComponentAction::SavePick { is_class: true })
    } else if kind == "ps"@ {
        Some(ComponentAction::SavePick { is_class: false })
    } else if kind == "ok"@ {
        Some(ComponentAction::ConfirmJoin)
    } else if kind == "l"@ {
        Some(ComponentAction::LeaveAll)
    } else if kind == "la"@ {
        Some(ComponentAction::LeaveAlts)
    } else if kind == "mg"@ {
        Some(ComponentAction::OwnerManage)
    } else if kind == "pr"@ {
        Some(ComponentAction::OwnerPromote)
    } else if kind == "mr"@ {
        Some(ComponentAction::OwnerMoveToReserve)
    } else if kind == "kk"@ {
        Some(ComponentAction::OwnerKick)
    } else if kind == "cx"@ {
        Some(ComponentAction::OwnerCancel)
    } else if kind == "cl"@ {
        Some(ComponentAction::Close)
    } else if kind == "not"@ {
        Some(ComponentAction::NotifyNow)
    } else if kind == "cho"@ {
        Some(ComponentAction::OwnerChangeStart)
    } else if kind == "chp"@ {
        Some(ComponentAction::OwnerChangePick)
    } else if kind == "chc"@ {
        Some(ComponentAction::OwnerChangeConfirm)
    } else if kind == "asp"@ {
        Some(ComponentAction::AddSpStart)
    } else if kind == "aspick"@ {
        Some(ComponentAction::AddSpPick)
    } else if kind == "csp"@ {
        Some(ComponentAction::ChangeSpStart)
    } else if kind == "cspick"@ {
        Some(ComponentAction::ChangeSpPick)
    } else {
        None
    }
}

fn same(text: &str, lit: &str) -> (eq: bool)
    ensures
        eq == (text@ == lit@),
{
    let a = String::from_str(text);
    let b = String::from_str(lit);
    a == b
}

/// What a component with the action and the object asks for.
pub fn component_action(kind: &str, which: &str) -> (action: Option<ComponentAction>)
    ensures
        action == action_of(kind@, which@),
{
    if same(kind, "j") && same(which, "m") {
        Some(ComponentAction::ShowJoinMenu { main: true })
    } else if same(kind, "j") && same(which, "a") {
        Some(ComponentAction::ShowJoinMenu { main: false })
    } else if same(kind, "mgp") && same(which, "prev") {
        Some(ComponentAction::OwnerManagePage { forward: false })
    } else if same(kind, "mgp") && same(which, "next") {
        Some(ComponentAction::OwnerManagePage { forward: true })
    } else if !same(which, "") {
        None
    } else if same(kind, "pc") {
        Some(ComponentAction::SavePick { is_class: true })
    } else if same(kind, "ps") {
        Some(ComponentAction::SavePick { is_class: false })
    } else if same(kind, "ok") {
        Some(ComponentAction::ConfirmJoin)
    } else if same(kind, "l") {
        Some(ComponentAction::LeaveAll)
    } else if same(kind, "la") {
        Some(ComponentAction::LeaveAlts)
    } else if same(kind, "mg") {
        Some(ComponentAction::OwnerManage)
    } else if same(kind, "pr") {
        Some(ComponentAction::OwnerPromote)
    } else if same(kind, "mr") {
        Some(ComponentAction::OwnerMoveToReserve)
    } else if same(kind, "kk") {
        Some(ComponentAction::OwnerKick)
    } else if same(kind, "cx") {
        Some(ComponentAction::OwnerCancel)
    } else if same(kind, "cl") {
        Some(ComponentAction::Close)
    } else if same(kind, "not") {
        Some(ComponentAction::NotifyNow)
    } else if same(kind, "cho") {
        Some(ComponentAction::OwnerChangeStart)
    } else if same(kind, "chp") {
        Some(ComponentAction::OwnerChangePick)
    } else if same(kind, "chc") {
        Some(ComponentAction::OwnerChangeConfirm)
    } else if same(kind, "asp") {
        Some(ComponentAction::AddSpStart)
    } else if same(kind, "aspick") {
        Some(ComponentAction::AddSpPick)
    } else if same(kind, "csp") {
        Some(ComponentAction::ChangeSpStart)
    } else if same(kind, "cspick") {
        Some(ComponentAction::ChangeSpPick)
    } else {
        None
    }
}

/// The identifier of a component: `r:`, the action, its object where it has
/// one, and the raid, with colons between them.
pub open spec fn component_id_of(kind: Seq<char>, which: Seq<char>, raid_id: u128) -> Seq<char> {
    if which.len() == 0 {
        "r:"@ + kind + ":"@ + uuid_text(raid_id)
    } else {
        "r:"@ + kind + ":"@ + which + ":"@ + uuid_text(raid_id)
    }
}

/// The identifier of a component of a raid.
pub fn component_id(kind: &str, which: &str, raid_id: u128) -> (id: String)
    ensures
        id@ == component_id_of(kind@, which@, raid_id),
{
    let mut id = String::from_str("r:");
    id.append(kind);
    id.append(":");
    if which.unicode_len() > 0 {
        id.append(which);
        id.append(":");
    }
    push_uuid(&mut id, raid_id);
    id
}

/// The label of the button that confirms a join.
pub fn confirm_label(main: bool) -> (label: &'static str)
    ensures
        label@ == if main {
            "Confirm (Main)"@
        } else {
            "Confirm (Alt)"@
        },
{
    if main {
        "Confirm (Main)"
    } else {
        "Confirm (Alt)"
    }
}

/// A step in closing a private message.
#[derive(Clone, Copy, Debug, PartialEq, Eq, Structural)]
pub enum CloseStep {
    /// Blank the message and take its components away.
    Acknowledge,
    /// Delete the response.
    DeleteResponse,
    /// Delete the message as a follow-up.
    DeleteFollowup,
    /// Leave a short note that says "Closed.".
    LeaveNote,
    /// Nothing more to do.
    Finished,
}

/// The step that follows one that succeeded or failed: each way of
/// deleting is tried once, and a note is left where none worked.
pub open spec fn spec_next_close(done: CloseStep, ok: bool) -> CloseStep {
    match done {
        CloseStep::Acknowledge => if ok {
            CloseStep::DeleteResponse
        } else {
            CloseStep::Finished
        },
        CloseStep::DeleteResponse => if ok {
            CloseStep::Finished
        } else {
            CloseStep::DeleteFollowup
        },
        CloseStep::DeleteFollowup => if ok {
            CloseStep::Finished
        } else {
            CloseStep::LeaveNote
        },
        CloseStep::LeaveNote => CloseStep::Finished,
        CloseStep::Finished => CloseStep::Finished,
    }
}

/// The step that follows one that succeeded or failed.
pub fn next_close(done: CloseStep, ok: bool) -> (next: CloseStep)
    ensures
        next == spec_next_close(done, ok),
{
    match done {
        CloseStep::Acknowledge => if ok {
            CloseStep::DeleteResponse
        } else {
            CloseStep::Finished
        },
        CloseStep::DeleteResponse => if ok {
            CloseStep::Finished
        } else {
            CloseStep::DeleteFollowup
        },
        CloseStep::DeleteFollowup => if ok {
            CloseStep::Finished
        } else {
            CloseStep::LeaveNote
        },
        CloseStep::LeaveNote => CloseStep::Finished,
        CloseStep::Finished => CloseStep::Finished,
    }
}

} // verus!
