//! A cache of display names. A name is good for half an hour after it was
//! learned; an older one counts as missing.

use vstd::prelude::*;

verus! {

/// Makes `dashmap::DashMap` known as a type whose inside is not looked
/// into: what a map holds is spoken of through `cached_names` alone.
#[verifier::external_type_specification]
#[verifier::external_body]
#[verifier::reject_recursive_types(K)]
#[verifier::reject_recursive_types(V)]
#[verifier::reject_recursive_types(S)]
pub struct ExDashMap<K, V, S>(dashmap::DashMap<K, V, S>);

/// The map behind the cache: from a user to the name and the time at which
/// it was learned.
pub type NameMap = dashmap::DashMap<u64, (String, i64)>;

/// What the map holds: for each user the name and the time at which it was
/// learned.
pub uninterp spec fn cached_names(map: NameMap) -> Map<u64, (Seq<char>, i64)>;

/// A cache without names.
pub open spec fn no_names() -> Map<u64, (Seq<char>, i64)> {
    Map::empty()
}

/// How long a name is good for, in microseconds.
pub const NAME_TTL: i64 = 1_800_000_000;

/// Calls `DashMap::new`, which makes a map without entries.
#[verifier::external_body]
fn empty_map() -> (made: NameMap)
    ensures
        cached_names(made) == no_names(),
{
    dashmap::DashMap::new()
}

/// Calls `DashMap::get` and copies the entry out: the entry under the key
/// comes back, and nothing where the map has none.
#[verifier::external_body]
fn lookup(map: &NameMap, user_id: u64) -> (hit: Option<
    (String, i64),
>)
    ensures
        match hit {
            Some((name, at)) => cached_names(*map).contains_key(user_id) && cached_names(
                *map,
            )[user_id] == (name@, at),
            None => !cached_names(*map).contains_key(user_id),
        },
{
    match map.get(&user_id) {
        Some(entry) => Some(entry.value().clone()),
        None => None,
    }
}

/// Calls `DashMap::insert`: the entry under the key is set, replacing one
/// that was there, and the other entries stay.
#[verifier::external_body]
fn store(map: &mut NameMap, user_id: u64, name: String, at: i64)
    ensures
        cached_names(*final(map)) == cached_names(*old(map)).insert(user_id, (name@, at)),
{
    map.insert(user_id, (name, at));
}

/// The cache of display names.
pub struct NameCache {
    map: NameMap,
}

impl View for NameCache {
    type V = Map<u64, (Seq<char>, i64)>;

    closed spec fn view(&self) -> Map<u64, (Seq<char>, i64)> {
        cached_names(self.map)
    }
}

/// The name that the cache gives for the user at `now`: the one it holds,
/// if it was learned less than half an hour ago.
pub open spec fn fresh_name(names: Map<u64, (Seq<char>, i64)>, user_id: u64, now: i64) -> Option<
    Seq<char>,
> {
    if names.contains_key(user_id) && now - names[user_id].1 < NAME_TTL {
        Some(names[user_id].0)
    } else {
        None
    }
}

impl NameCache {
    /// A cache without names.
    pub fn new() -> (cache: NameCache)
        ensures
            cache@ == no_names(),
    {
        NameCache { map: empty_map() }
    }
}

/// The cached name of the user, unless it is missing or stale.
pub fn cache_get(cache: &NameCache, user_id: u64, now: i64) -> (name: Option<String>)
    ensures
        match name {
            Some(n) => fresh_name(cache@, user_id, now) == Some(n@),
            None => fresh_name(cache@, user_id, now) is None,
        },
{
    match lookup(&cache.map, user_id) {
        Some((name, at)) => {
            if (now as i128) - (at as i128) < NAME_TTL as i128 {
                Some(name)
            } else {
                None
            }
        },
        None => None,
    }
}

/// Remembers the name of the user as learned at `now`.
pub fn cache_put(cache: &mut NameCache, user_id: u64, name: String, now: i64)
    ensures
        final(cache)@ == old(cache)@.insert(user_id, (name@, now)),
{
    store(&mut cache.map, user_id, name, now);
}

/// A name that was just remembered is given out for the next half hour,
/// and no longer.
pub proof fn law_name_expires(
    names: Map<u64, (Seq<char>, i64)>,
    user_id: u64,
    name: Seq<char>,
    learned: i64,
    now: i64,
)
    ensures
        fresh_name(names.insert(user_id, (name, learned)), user_id, now) == if now - learned
            < NAME_TTL {
            Some(name)
        } else {
            None
        },
{
}

/// The name to show for a member: the nickname in the guild, else the
/// global display name, else the user name; a name that is empty counts as
/// missing.
pub open spec fn best_name_of(
    nick: Option<Seq<char>>,
    global_name: Option<Seq<char>>,
    user_name: Seq<char>,
) -> Seq<char> {
    match nick {
        Some(n) if n.len() > 0 => n,
        _ => match global_name {
            Some(g) if g.len() > 0 => g,
            _ => user_name,
        },
    }
}

/// The text of a name that may be missing.
pub open spec fn name_text(name: Option<String>) -> Option<Seq<char>> {
    match name {
        Some(n) => Some(n@),
        None => None,
    }
}

/// The name to show for a member.
pub fn best_name(nick: Option<String>, global_name: Option<String>, user_name: String) -> (name:
    String)
    ensures
        name@ == best_name_of(name_text(nick), name_text(global_name), user_name@),
{
    match nick {
        Some(n) => {
            if n.as_str().unicode_len() > 0 {
                return n;
            }
        },
        None => {},
    }
    match global_name {
        Some(g) => {
            if g.as_str().unicode_len() > 0 {
                return g;
            }
        },
        None => {},
    }
    user_name
}

} // verus!
