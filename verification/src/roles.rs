//! Role membership: which users are held on reserve and which have
//! priority.

use crate::text::{eq_ignore_ascii_case, same_ignoring_case};
use vstd::prelude::*;
use vstd::string::*;

verus! {

/// A role of a guild as a member holds it. The name is missing where the
/// guild's list of roles does not know the identifier.
pub struct Role {
    pub id: u64,
    pub name: Option<String>,
}

/// A user and the roles that the user holds, in the order in which the
/// guild reports them.
pub struct Member {
    pub user_id: i64,
    pub roles: Vec<Role>,
}

/// The role carries the name, but for the case of ASCII letters.
pub open spec fn role_named(role: Role, name: Seq<char>) -> bool {
    match role.name {
        Some(n) => same_ignoring_case(n@, name),
        None => false,
    }
}

/// Some role carries the name.
pub open spec fn has_role_named(roles: Seq<Role>, name: Seq<char>) -> bool {
    exists|i: int| 0 <= i < roles.len() && role_named(#[trigger] roles[i], name)
}

/// Some role is among the listed identifiers.
pub open spec fn has_role_in(roles: Seq<Role>, ids: Seq<u64>) -> bool {
    exists|i: int| 0 <= i < roles.len() && ids.contains((#[trigger] roles[i]).id)
}

/// Whether the role carries the name.
pub fn is_role_named(role: &Role, name: &str) -> (named: bool)
    ensures
        named == role_named(*role, name@),
{
    match &role.name {
        Some(n) => eq_ignore_ascii_case(n.as_str(), name),
        None => false,
    }
}

/// Whether some role carries the name.
pub fn holds_role_named(roles: &Vec<Role>, name: &str) -> (held: bool)
    ensures
        held == has_role_named(roles@, name@),
{
    let mut k: usize = 0;
    while k < roles.len()
        invariant
            k <= roles.len(),
            forall|i: int| 0 <= i < k ==> !role_named(#[trigger] roles@[i], name@),
        decreases roles.len() - k,
    {
        if is_role_named(&roles[k], name) {
            return true;
        }
        k = k + 1;
    }
    false
}

/// Whether the identifier is listed.
pub fn lists_role(ids: &Vec<u64>, id: u64) -> (found: bool)
    ensures
        found == ids@.contains(id),
{
    let mut k: usize = 0;
    while k < ids.len()
        invariant
            k <= ids.len(),
            forall|j: int| 0 <= j < k ==> ids@[j] != id,
        decreases ids.len() - k,
    {
        if ids[k] == id {
            return true;
        }
        k = k + 1;
    }
    false
}

/// Whether some role is among the listed identifiers.
pub fn holds_role_in(roles: &Vec<Role>, ids: &Vec<u64>) -> (held: bool)
    ensures
        held == has_role_in(roles@, ids@),
{
    let mut k: usize = 0;
    while k < roles.len()
        invariant
            k <= roles.len(),
            forall|i: int| 0 <= i < k ==> !ids@.contains((#[trigger] roles@[i]).id),
        decreases roles.len() - k,
    {
        if lists_role(ids, roles[k].id) {
            return true;
        }
        k = k + 1;
    }
    false
}

/// The level role that admits a user to raids.
#[derive(Clone, Copy, Debug, PartialEq, Eq, Structural)]
pub enum LevelRole {
    /// The role `c1-89`.
    Below90,
    /// The role `c90`.
    At90,
}

/// Whether the role is a level role, and which.
pub open spec fn level_of(role: Role) -> Option<LevelRole> {
    if role_named(role, "c1-89"@) {
        Some(LevelRole::Below90)
    } else if role_named(role, "c90"@) {
        Some(LevelRole::At90)
    } else {
        None
    }
}

/// The first level role among the roles, if there is one.
pub open spec fn first_level_role(roles: Seq<Role>) -> Option<LevelRole>
    decreases roles.len(),
{
    if roles.len() == 0 {
        None
    } else {
        match level_of(roles[0]) {
            Some(level) => Some(level),
            None => first_level_role(roles.drop_first()),
        }
    }
}

/// The first level role among the roles.
pub fn level_role(roles: &Vec<Role>) -> (level: Option<LevelRole>)
    ensures
        level == first_level_role(roles@),
{
    let mut k: usize = 0;
    assert(roles@.skip(0) =~= roles@);
    while k < roles.len()
        invariant
            k <= roles.len(),
            first_level_role(roles@) == first_level_role(roles@.skip(k as int)),
        decreases roles.len() - k,
    {
        let ghost rest = roles@.skip(k as int);
        assert(rest[0] == roles@[k as int]);
        assert(rest.drop_first() =~= roles@.skip(k + 1));
        if is_role_named(&roles[k], "c1-89") {
            return Some(LevelRole::Below90);
        }
        if is_role_named(&roles[k], "c90") {
            return Some(LevelRole::At90);
        }
        k = k + 1;
    }
    assert(roles@.skip(k as int).len() == 0);
    None
}

/// The tag shown after the name of a user with the given level role.
pub fn tag_for(level: LevelRole) -> (tag: String)
    ensures
        tag@ == match level {
            LevelRole::Below90 => " [-c90]"@,
            LevelRole::At90 => ""@,
        },
{
    match level {
        LevelRole::Below90 => String::from_str(" [-c90]"),
        LevelRole::At90 => String::from_str(""),
    }
}

/// The users among the members who hold the reserve role, in the order of
/// the members: they must never hold a main seat.
pub open spec fn excluded_users(members: Seq<Member>, reserve_role: Seq<char>) -> Seq<i64>
    decreases members.len(),
{
    if members.len() == 0 {
        Seq::empty()
    } else {
        let earlier = excluded_users(members.drop_last(), reserve_role);
        if has_role_named(members.last().roles@, reserve_role) {
            earlier.push(members.last().user_id)
        } else {
            earlier
        }
    }
}

/// The users among the members who hold one of the priority roles, in the
/// order of the members.
pub open spec fn priority_users(members: Seq<Member>, priority_roles: Seq<u64>) -> Seq<i64>
    decreases members.len(),
{
    if members.len() == 0 {
        Seq::empty()
    } else {
        let earlier = priority_users(members.drop_last(), priority_roles);
        if has_role_in(members.last().roles@, priority_roles) {
            earlier.push(members.last().user_id)
        } else {
            earlier
        }
    }
}

/// A user is listed as excluded exactly if some member entry of the user
/// holds the reserve role.
pub proof fn law_excluded_hold_the_reserve_role(
    members: Seq<Member>,
    reserve_role: Seq<char>,
    user_id: i64,
)
    ensures
        excluded_users(members, reserve_role).contains(user_id) <==> exists|i: int|
            0 <= i < members.len() && (#[trigger] members[i]).user_id == user_id
                && has_role_named(members[i].roles@, reserve_role),
    decreases members.len(),
{
    if members.len() > 0 {
        let front = members.drop_last();
        let earlier = excluded_users(front, reserve_role);
        law_excluded_hold_the_reserve_role(front, reserve_role, user_id);
        let all = excluded_users(members, reserve_role);
        if all.contains(user_id) {
            let k = choose|k: int| 0 <= k < all.len() && all[k] == user_id;
            if k < earlier.len() {
                assert(earlier[k] == user_id);
                let i = choose|i: int|
                    0 <= i < front.len() && (#[trigger] front[i]).user_id == user_id
                        && has_role_named(front[i].roles@, reserve_role);
                assert(members[i] == front[i]);
            } else {
                assert(members[members.len() - 1].user_id == user_id);
            }
        }
        if exists|i: int|
            0 <= i < members.len() && (#[trigger] members[i]).user_id == user_id
                && has_role_named(members[i].roles@, reserve_role) {
            let i = choose|i: int|
                0 <= i < members.len() && (#[trigger] members[i]).user_id == user_id
                    && has_role_named(members[i].roles@, reserve_role);
            if i < front.len() {
                assert(front[i] == members[i]);
                let k = choose|k: int| 0 <= k < earlier.len() && earlier[k] == user_id;
                assert(all[k] == user_id);
            } else {
                assert(all[all.len() - 1] == user_id);
            }
        }
    }
}

/// Works out, from the roles of the members, who is excluded from main
/// seats and who has priority.
pub fn classify_members(
    members: &Vec<Member>,
    reserve_role_name: &str,
    priority_role_ids: &Vec<u64>,
) -> (lists: (Vec<i64>, Vec<i64>))
    ensures
        lists.0@ == excluded_users(members@, reserve_role_name@),
        lists.1@ == priority_users(members@, priority_role_ids@),
{
    let mut exclude_ids: Vec<i64> = Vec::new();
    let mut priority_user_ids: Vec<i64> = Vec::new();
    let mut k: usize = 0;
    assert(members@.take(0) =~= Seq::<Member>::empty());
    while k < members.len()
        invariant
            k <= members.len(),
            exclude_ids@ == excluded_users(members@.take(k as int), reserve_role_name@),
            priority_user_ids@ == priority_users(members@.take(k as int), priority_role_ids@),
        decreases members.len() - k,
    {
        let ghost upto = members@.take(k + 1);
        assert(upto.last() == members@[k as int]);
        assert(upto.drop_last() =~= members@.take(k as int));
        let member = &members[k];
        if holds_role_named(&member.roles, reserve_role_name) {
            exclude_ids.push(member.user_id);
        }
        if holds_role_in(&member.roles, priority_role_ids) {
            priority_user_ids.push(member.user_id);
        }
        k = k + 1;
    }
    assert(members@.take(k as int) =~= members@);
    (exclude_ids, priority_user_ids)
}

/// The first role that carries the name, but for the case of ASCII
/// letters.
pub open spec fn first_named_role(roles: Seq<Role>, name: Seq<char>) -> Option<Role>
    decreases roles.len(),
{
    if roles.len() == 0 {
        None
    } else if role_named(roles[0], name) {
        Some(roles[0])
    } else {
        first_named_role(roles.drop_first(), name)
    }
}

/// The identifier of the first role that carries the name.
pub fn find_role_named(roles: &Vec<Role>, name: &str) -> (id: Option<u64>)
    ensures
        match id {
            Some(i) => first_named_role(roles@, name@) matches Some(r) && r.id == i,
            None => first_named_role(roles@, name@) is None,
        },
{
    let mut k: usize = 0;
    assert(roles@.skip(0) =~= roles@);
    while k < roles.len()
        invariant
            k <= roles.len(),
            first_named_role(roles@, name@) == first_named_role(roles@.skip(k as int), name@),
        decreases roles.len() - k,
    {
        let ghost rest = roles@.skip(k as int);
        assert(rest[0] == roles@[k as int]);
        assert(rest.drop_first() =~= roles@.skip(k + 1));
        if is_role_named(&roles[k], name) {
            return Some(roles[k].id);
        }
        k = k + 1;
    }
    assert(roles@.skip(k as int).len() == 0);
    None
}

} // verus!
