//! Giving and taking roles at an organiser's command.

use crate::roles::{find_role_named, first_named_role, has_role_named, holds_role_named, Role};
use crate::text::{eq_ignore_ascii_case, same_ignoring_case};
use vstd::prelude::*;
use vstd::string::*;

verus! {

/// Name of the role that lets a user organise raids.
pub const ORGANISER_ROLE_NAME: &'static str = "raid_organiser";

/// What to do with a role.
#[derive(Clone, Copy, Debug, PartialEq, Eq, Structural)]
pub enum RoleChange {
    Add(u64),
    Remove(u64),
}

/// Why a role is not changed.
#[derive(Clone, Copy, Debug, PartialEq, Eq, Structural)]
pub enum RoleRefusal {
    /// The command was used outside a guild.
    UseInServer,
    /// No user was named.
    MissingUser,
    /// The requester is no organiser.
    NotOrganiser,
    /// The guild has no role of that name.
    RoleNotFound,
    /// The action is neither `add` nor `remove`.
    BadAction,
}

/// The name of the role that is meant: the reserve role goes by the name
/// that the deployment gives it.
pub open spec fn wanted_role(choice: Seq<char>, reserve_role: Seq<char>) -> Seq<char> {
    if same_ignoring_case(choice, "reserve"@) {
        reserve_role
    } else {
        choice
    }
}

/// The name of the role that a choice stands for.
pub fn wanted_role_name(choice: &str, reserve_role_name: &str) -> (name: String)
    ensures
        name@ == wanted_role(choice@, reserve_role_name@),
{
    if eq_ignore_ascii_case(choice, "reserve") {
        String::from_str(reserve_role_name)
    } else {
        String::from_str(choice)
    }
}

/// What a request to change a role comes to. The checks come in this
/// order, and the first that fails decides.
pub open spec fn role_verdict(
    in_guild: bool,
    user_named: bool,
    requester_roles: Seq<Role>,
    guild_roles: Seq<Role>,
    action: Seq<char>,
    choice: Seq<char>,
    reserve_role: Seq<char>,
) -> Result<RoleChange, RoleRefusal> {
    if !in_guild {
        Err(RoleRefusal::UseInServer)
    } else if !user_named {
        Err(RoleRefusal::MissingUser)
    } else if !has_role_named(requester_roles, "raid_organiser"@) {
        Err(RoleRefusal::NotOrganiser)
    } else {
        match first_named_role(guild_roles, wanted_role(choice, reserve_role)) {
            None => Err(RoleRefusal::RoleNotFound),
            Some(role) => if same_ignoring_case(action, "add"@) {
                Ok(RoleChange::Add(role.id))
            } else if same_ignoring_case(action, "remove"@) {
                Ok(RoleChange::Remove(role.id))
            } else {
                Err(RoleRefusal::BadAction)
            },
        }
    }
}

/// Decides a request to give a role to a user or to take it away.
pub fn handle_role_add(
    in_guild: bool,
    user_named: bool,
    requester_roles: &Vec<Role>,
    guild_roles: &Vec<Role>,
    action: &str,
    role_choice: &str,
    reserve_role_name: &str,
) -> (verdict: Result<RoleChange, RoleRefusal>)
    ensures
        verdict == role_verdict(
            in_guild,
            user_named,
            requester_roles@,
            guild_roles@,
            action@,
            role_choice@,
            reserve_role_name@,
        ),
{
    if !in_guild {
        return Err(RoleRefusal::UseInServer);
    }
    if !user_named {
        return Err(RoleRefusal::MissingUser);
    }
    if !holds_role_named(requester_roles, ORGANISER_ROLE_NAME) {
        return Err(RoleRefusal::NotOrganiser);
    }
    let wanted = wanted_role_name(role_choice, reserve_role_name);
    let role_id = match find_role_named(guild_roles, wanted.as_str()) {
        Some(id) => id,
        None => {
            return Err(RoleRefusal::RoleNotFound);
        },
    };
    if eq_ignore_ascii_case(action, "add") {
        Ok(RoleChange::Add(role_id))
    } else if eq_ignore_ascii_case(action, "remove") {
        Ok(RoleChange::Remove(role_id))
    } else {
        Err(RoleRefusal::BadAction)
    }
}

} // verus!
