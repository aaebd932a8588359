//! What is decided when a raid is created.

use crate::models::{lists_ignoring_case, lists_name, texts, CapacityConfig, CapacityView};
use crate::roles::{find_role_named, first_named_role, has_role_in, holds_role_in, Role};
use crate::schedule::{priority_deadline, spec_priority_deadline};
use crate::selection::{with_all_new, with_new};
use crate::text::{
    chars_of, eq_ignore_ascii_case, find_char, position_of, same_ignoring_case, text_of,
    trim_bounds, trimmed,
};
use vstd::prelude::*;
use vstd::string::*;

verus! {

/// The parts of a text between the separators, from `from` on.
pub open spec fn pieces_from(s: Seq<char>, sep: char, from: int) -> Seq<Seq<char>>
    decreases s.len() - from,
{
    if from < 0 || from > s.len() {
        Seq::empty()
    } else {
        let end = find_char(s, sep, from);
        if end >= s.len() || end < from {
            seq![s.subrange(from, s.len() as int)]
        } else {
            seq![s.subrange(from, end)] + pieces_from(s, sep, end + 1)
        }
    }
}

/// The names with the white space around each taken off, and without the
/// empty ones.
pub open spec fn tidy(names: Seq<Seq<char>>) -> Seq<Seq<char>> {
    names.map_values(|n: Seq<char>| trimmed(n)).filter(|n: Seq<char>| n.len() > 0)
}

/// The names in a list that is separated by commas: each without the white
/// space around it, none empty, and each once whatever its case, the first
/// spelling kept.
pub open spec fn unique_names(list: Seq<char>) -> Seq<Seq<char>> {
    with_all_new(Seq::empty(), tidy(pieces_from(list, ',', 0)))
}

proof fn lemma_with_all_new_push(names: Seq<Seq<char>>, more: Seq<Seq<char>>, one: Seq<char>)
    ensures
        with_all_new(names, more.push(one)) == with_new(with_all_new(names, more), one),
{
    assert(more.push(one).drop_last() =~= more);
}

/// Reads a list of names separated by commas.
pub fn parse_list_unique(list: &str) -> (names: Vec<String>)
    ensures
        texts(names@) == unique_names(list@),
{
    let chars = chars_of(list);
    let mut names: Vec<String> = Vec::new();
    let mut from: usize = 0;
    let ghost mut seen: Seq<Seq<char>> = Seq::empty();
    let ghost keep = |n: Seq<char>| n.len() > 0;
    let ghost trim_it = |n: Seq<char>| trimmed(n);
    proof {
        assert(texts(names@) =~= Seq::<Seq<char>>::empty());
        assert(seen.map_values(trim_it).filter(keep) =~= Seq::<Seq<char>>::empty()) by {
            seen.map_values(trim_it).lemma_filter_len(keep);
        }
        assert(seen + pieces_from(list@, ',', 0) =~= pieces_from(list@, ',', 0));
    }
    loop
        invariant_except_break
            seen + pieces_from(list@, ',', from as int) == pieces_from(list@, ',', 0),
        invariant
            from <= chars@.len(),
            chars@ == list@,
            keep == (|n: Seq<char>| n.len() > 0),
            trim_it == (|n: Seq<char>| trimmed(n)),
            texts(names@) == with_all_new(Seq::empty(), seen.map_values(trim_it).filter(keep)),
        ensures
            texts(names@) == unique_names(list@),
        decreases chars@.len() - from,
    {
        let end = position_of(&chars, ',', from);
        let (a, b) = trim_bounds(&chars, from, end);
        let piece = text_of(&chars, a, b);
        let ghost raw = list@.subrange(from as int, end as int);
        let ghost before_seen = seen;
        proof {
            seen = seen.push(raw);
            assert(seen.map_values(trim_it) =~= before_seen.map_values(trim_it).push(
                trimmed(raw),
            ));
            before_seen.map_values(trim_it).lemma_filter_push(trimmed(raw), keep);
        }
        if b > a {
            if !lists_ignoring_case(&names, piece.as_str()) {
                let ghost before = texts(names@);
                names.push(piece);
                assert(texts(names@) =~= before.push(trimmed(raw)));
            }
            proof {
                lemma_with_all_new_push(
                    Seq::empty(),
                    before_seen.map_values(trim_it).filter(keep),
                    trimmed(raw),
                );
            }
        }
        if end >= chars.len() {
            proof {
                assert(pieces_from(list@, ',', from as int) =~= seq![raw]);
                assert(seen =~= pieces_from(list@, ',', 0));
            }
            break ;
        }
        proof {
            assert(pieces_from(list@, ',', from as int) =~= seq![raw] + pieces_from(
                list@,
                ',',
                end + 1,
            ));
            assert(seen + pieces_from(list@, ',', end + 1) =~= pieces_from(list@, ',', 0));
        }
        from = end + 1;
    }
    names
}

/// The roles of the guild that the names stand for, one for each name that
/// the guild knows, in the order of the names.
pub open spec fn resolved(names: Seq<Seq<char>>, guild_roles: Seq<Role>) -> Seq<u64>
    decreases names.len(),
{
    if names.len() == 0 {
        Seq::empty()
    } else {
        let earlier = resolved(names.drop_last(), guild_roles);
        match first_named_role(guild_roles, names.last()) {
            Some(role) => earlier.push(role.id),
            None => earlier,
        }
    }
}

/// Looks the names up among the roles of the guild.
pub fn resolve_roles(names: &Vec<String>, guild_roles: &Vec<Role>) -> (ids: Vec<u64>)
    ensures
        ids@ == resolved(texts(names@), guild_roles@),
{
    let mut ids: Vec<u64> = Vec::new();
    let ghost all = texts(names@);
    let mut k: usize = 0;
    assert(all.take(0) =~= Seq::<Seq<char>>::empty());
    while k < names.len()
        invariant
            k <= names.len(),
            all == texts(names@),
            ids@ == resolved(all.take(k as int), guild_roles@),
        decreases names.len() - k,
    {
        let ghost upto = all.take(k + 1);
        assert(upto.last() == names@[k as int]@);
        assert(upto.drop_last() =~= all.take(k as int));
        match find_role_named(guild_roles, names[k].as_str()) {
            Some(id) => ids.push(id),
            None => {},
        }
        k = k + 1;
    }
    assert(all.take(k as int) =~= all);
    ids
}

/// Why a raid is not created.
#[derive(Clone, Copy, Debug, PartialEq, Eq, Structural)]
pub enum CreateRefusal {
    /// The date is not of the form `HH:MM YYYY-MM-DD`.
    InvalidDate,
    /// The guild knows none of the priority roles by name.
    PriorityRolesNotFound,
    /// The author holds none of the priority roles.
    AuthorLacksPriority,
    /// The command was used outside a guild.
    UseInServer,
    /// The seats are negative or too many, or the alt sub-quota exceeds the
    /// main seats.
    InvalidCapacity,
}

/// What a user asks for when creating a raid.
pub struct RaidRequest {
    pub raid_name: String,
    pub raid_date: String,
    pub max_players: i64,
    pub allow_alts: bool,
    pub max_alts: i64,
    pub priority: bool,
    pub priority_roles: Vec<String>,
    pub priority_hours: Option<i64>,
    pub description: String,
}

impl RaidRequest {
    /// The request with the settings that hold where the user gives none.
    pub fn new() -> (request: RaidRequest)
        ensures
            request.raid_name@ == "arma_v2"@,
            request.raid_date@ == ""@,
            request.max_players == 12,
            request.allow_alts,
            request.max_alts == 1,
            !request.priority,
            request.priority_roles@.len() == 0,
            request.priority_hours is None,
            request.description@ == ""@,
    {
        RaidRequest {
            raid_name: String::from_str("arma_v2"),
            raid_date: String::from_str(""),
            max_players: 12,
            allow_alts: true,
            max_alts: 1,
            priority: false,
            priority_roles: Vec::new(),
            priority_hours: None,
            description: String::from_str(""),
        }
    }
}

/// The names of the priority roles of a request: those given, and
/// `Maraton` where none is given.
pub open spec fn priority_names(given: Seq<Seq<char>>) -> Seq<Seq<char>> {
    if given.len() == 0 {
        seq!["Maraton"@]
    } else {
        given
    }
}

/// Whether the seats can be had: neither number is negative or beyond 32
/// bits, and the alts get no more than there are main seats.
pub open spec fn seats_valid(max_players: i64, max_alts: i64) -> bool {
    0 <= max_alts <= max_players <= i32::MAX
}

/// The roles that a guild knows and those that the author of a command
/// holds.
pub struct GuildRoles {
    pub known: Seq<Role>,
    pub held: Seq<Role>,
}

/// The roles of the guild in which a command was used, if it was used in
/// one.
pub open spec fn guild_roles_of(guild: Option<(&Vec<Role>, &Vec<Role>)>) -> Option<GuildRoles> {
    match guild {
        Some((known, held)) => Some(GuildRoles { known: known@, held: held@ }),
        None => None,
    }
}

/// What creating a raid comes to: the refusal, or the capacity settings of
/// the new raid. `scheduled_for` is what the date was read as, and
/// `guild_roles` and `author_roles` are there where the command was used
/// in a guild.
pub open spec fn creation_verdict(
    request: RaidRequest,
    scheduled_for: Option<i64>,
    guild: Option<GuildRoles>,
) -> Result<CapacityView, CreateRefusal> {
    let names = priority_names(texts(request.priority_roles@));
    if scheduled_for is None {
        Err(CreateRefusal::InvalidDate)
    } else if request.priority && guild is Some && resolved(names, guild->0.known).len() == 0 {
        Err(CreateRefusal::PriorityRolesNotFound)
    } else if request.priority && guild is Some && !has_role_in(
        guild->0.held,
        resolved(names, guild->0.known),
    ) {
        Err(CreateRefusal::AuthorLacksPriority)
    } else if guild is None {
        Err(CreateRefusal::UseInServer)
    } else if !seats_valid(request.max_players, request.max_alts) {
        Err(CreateRefusal::InvalidCapacity)
    } else {
        Ok(
            CapacityView {
                max_mains: request.max_players as nat,
                allow_alts: request.allow_alts,
                max_alt_mains: request.max_alts as nat,
                priority_window_until: if request.priority {
                    match request.priority_hours {
                        Some(hours) => Some(spec_priority_deadline(scheduled_for->0, hours)),
                        None => None,
                    }
                } else {
                    None
                },
                priority_eligible_ids: if request.priority {
                    resolved(names, guild->0.known)
                } else {
                    Seq::empty()
                },
            },
        )
    }
}

/// Decides the creation of a raid.
pub fn plan_raid(
    request: &RaidRequest,
    scheduled_for: Option<i64>,
    guild: Option<(&Vec<Role>, &Vec<Role>)>,
) -> (plan: Result<CapacityConfig, CreateRefusal>)
    ensures
        match plan {
            Ok(config) => creation_verdict(*request, scheduled_for, guild_roles_of(guild))
                == Ok::<CapacityView, CreateRefusal>(config@),
            Err(why) => creation_verdict(*request, scheduled_for, guild_roles_of(guild))
                == Err::<CapacityView, CreateRefusal>(why),
        },
{
    let start = match scheduled_for {
        Some(at) => at,
        None => {
            return Err(CreateRefusal::InvalidDate);
        },
    };
    let mut role_ids: Vec<u64> = Vec::new();
    let mut until: Option<i64> = None;
    if request.priority {
        match guild {
            Some((guild_roles, author_roles)) => {
                let ids = if request.priority_roles.len() == 0 {
                    let mut names: Vec<String> = Vec::new();
                    names.push(String::from_str("Maraton"));
                    assert(texts(names@) =~= seq!["Maraton"@]);
                    resolve_roles(&names, guild_roles)
                } else {
                    resolve_roles(&request.priority_roles, guild_roles)
                };
                if ids.len() == 0 {
                    return Err(CreateRefusal::PriorityRolesNotFound);
                }
                if !holds_role_in(author_roles, &ids) {
                    return Err(CreateRefusal::AuthorLacksPriority);
                }
                role_ids = ids;
                until = match request.priority_hours {
                    Some(hours) => Some(priority_deadline(start, hours)),
                    None => None,
                };
            },
            None => {},
        }
    }
    if guild.is_none() {
        return Err(CreateRefusal::UseInServer);
    }
    if request.max_alts < 0 || request.max_alts > request.max_players || request.max_players
        > 0x7fff_ffff {
        return Err(CreateRefusal::InvalidCapacity);
    }
    match CapacityConfig::new(
        request.max_players as u32,
        request.allow_alts,
        request.max_alts as u32,
        until,
        role_ids,
    ) {
        Some(config) => Ok(config),
        None => Err(CreateRefusal::InvalidCapacity),
    }
}

} // verus!
