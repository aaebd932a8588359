//! Raids, the rows of their rosters, and their capacity settings.

use crate::text::{eq_ignore_ascii_case, same_ignoring_case};
use vstd::prelude::*;
use vstd::string::*;

verus! {

/// One registration of a user for a raid: the user's primary slot, or one
/// of the user's alternate-character slots.
pub struct RaidParticipant {
    /// Row identifier, unique within a roster.
    pub id: u128,
    pub user_id: i64,
    /// Free-text role label chosen by the user, as "class / specialist".
    pub joined_as: String,
    /// Whether the row holds a main seat; a row that does not is a reserve.
    pub is_main: bool,
    /// Whether the row is an alternate-character slot.
    pub is_alt: bool,
    /// Reading of the store's clock when the row was created.
    pub joined_at: i64,
    /// Decorative tag shown after the user's name.
    pub tag_suffix: String,
    /// Further specialists that the user can bring, besides the one in the
    /// label.
    pub extra_sps: Vec<String>,
}

/// The mathematical value of a [`RaidParticipant`].
pub struct ParticipantView {
    pub id: u128,
    pub user_id: i64,
    pub joined_as: Seq<char>,
    pub is_main: bool,
    pub is_alt: bool,
    pub joined_at: i64,
    pub tag_suffix: Seq<char>,
    pub extra_sps: Seq<Seq<char>>,
}

impl View for RaidParticipant {
    type V = ParticipantView;

    open spec fn view(&self) -> ParticipantView {
        ParticipantView {
            id: self.id,
            user_id: self.user_id,
            joined_as: self.joined_as@,
            is_main: self.is_main,
            is_alt: self.is_alt,
            joined_at: self.joined_at,
            tag_suffix: self.tag_suffix@,
            extra_sps: texts(self.extra_sps@),
        }
    }
}

impl ParticipantView {
    /// The same row holding a main seat.
    pub open spec fn seated(self) -> ParticipantView {
        ParticipantView { is_main: true, ..self }
    }

    /// The same row on reserve.
    pub open spec fn benched(self) -> ParticipantView {
        ParticipantView { is_main: false, ..self }
    }

    pub open spec fn is_reserve(self) -> bool {
        !self.is_main
    }
}

/// The texts of a list of strings.
pub open spec fn texts(list: Seq<String>) -> Seq<Seq<char>> {
    list.map_values(|s: String| s@)
}

/// Copies a list of strings.
pub fn clone_texts(list: &Vec<String>) -> (copy: Vec<String>)
    ensures
        texts(copy@) == texts(list@),
{
    let mut copy: Vec<String> = Vec::new();
    let mut k: usize = 0;
    while k < list.len()
        invariant
            k <= list.len(),
            copy@.len() == k,
            forall|i: int| 0 <= i < k ==> (#[trigger] copy@[i])@ == list@[i]@,
        decreases list.len() - k,
    {
        copy.push(list[k].clone());
        k = k + 1;
    }
    assert(texts(copy@) =~= texts(list@));
    copy
}

impl Clone for RaidParticipant {
    fn clone(&self) -> (copy: RaidParticipant)
        ensures
            copy@ == self@,
    {
        RaidParticipant {
            id: self.id,
            user_id: self.user_id,
            joined_as: self.joined_as.clone(),
            is_main: self.is_main,
            is_alt: self.is_alt,
            joined_at: self.joined_at,
            tag_suffix: self.tag_suffix.clone(),
            extra_sps: clone_texts(&self.extra_sps),
        }
    }
}

impl RaidParticipant {
    /// A reserve is an entrant without a main seat.
    pub fn is_reserve(&self) -> (reserve: bool)
        ensures
            reserve == self@.is_reserve(),
    {
        !self.is_main
    }
}

/// The mathematical value of a [`CapacityConfig`].
pub struct CapacityView {
    pub max_mains: nat,
    pub allow_alts: bool,
    pub max_alt_mains: nat,
    pub priority_window_until: Option<i64>,
    pub priority_eligible_ids: Seq<u64>,
}

impl CapacityView {
    /// The alt sub-quota never exceeds the number of main seats.
    pub open spec fn wf(self) -> bool {
        self.max_alt_mains <= self.max_mains
    }

    /// Whether the priority window is open at `now`.
    pub open spec fn window_open(self, now: i64) -> bool {
        match self.priority_window_until {
            Some(until) => now < until,
            None => false,
        }
    }
}

/// Capacity settings of one raid.
pub struct CapacityConfig {
    max_mains: u32,
    allow_alts: bool,
    max_alt_mains: u32,
    priority_window_until: Option<i64>,
    priority_eligible_ids: Vec<u64>,
}

impl View for CapacityConfig {
    type V = CapacityView;

    closed spec fn view(&self) -> CapacityView {
        CapacityView {
            max_mains: self.max_mains as nat,
            allow_alts: self.allow_alts,
            max_alt_mains: self.max_alt_mains as nat,
            priority_window_until: self.priority_window_until,
            priority_eligible_ids: self.priority_eligible_ids@,
        }
    }
}

impl CapacityConfig {
    #[verifier::type_invariant]
    spec fn inv(self) -> bool {
        self.max_alt_mains <= self.max_mains
    }

    /// Builds a configuration; refuses an alt sub-quota larger than the
    /// number of main seats.
    pub fn new(
        max_mains: u32,
        allow_alts: bool,
        max_alt_mains: u32,
        priority_window_until: Option<i64>,
        priority_eligible_ids: Vec<u64>,
    ) -> (made: Option<CapacityConfig>)
        ensures
            made is Some <==> max_alt_mains <= max_mains,
            made is Some ==> made->0@ == (CapacityView {
                max_mains: max_mains as nat,
                allow_alts,
                max_alt_mains: max_alt_mains as nat,
                priority_window_until,
                priority_eligible_ids: priority_eligible_ids@,
            }),
    {
        if max_alt_mains <= max_mains {
            Some(
                CapacityConfig {
                    max_mains,
                    allow_alts,
                    max_alt_mains,
                    priority_window_until,
                    priority_eligible_ids,
                },
            )
        } else {
            None
        }
    }

    /// Number of main seats.
    pub fn max_mains(&self) -> (n: u32)
        ensures
            n == self@.max_mains,
            self@.wf(),
    {
        proof {
            use_type_invariant(self);
        }
        self.max_mains
    }

    /// Whether alt slots may be registered.
    pub fn allow_alts(&self) -> (allowed: bool)
        ensures
            allowed == self@.allow_alts,
    {
        self.allow_alts
    }

    /// How many of the main seats alt rows may hold.
    pub fn max_alt_mains(&self) -> (n: u32)
        ensures
            n == self@.max_alt_mains,
            self@.wf(),
    {
        proof {
            use_type_invariant(self);
        }
        self.max_alt_mains
    }

    /// When the priority window ends, if the raid has one.
    pub fn priority_window_until(&self) -> (until: Option<i64>)
        ensures
            until == self@.priority_window_until,
    {
        self.priority_window_until
    }

    /// The roles that give priority while the window is open.
    pub fn priority_eligible_ids(&self) -> (ids: &Vec<u64>)
        ensures
            ids@ == self@.priority_eligible_ids,
    {
        &self.priority_eligible_ids
    }

    /// Whether the priority window is open at `now`.
    pub fn window_open(&self, now: i64) -> (open: bool)
        ensures
            open == self@.window_open(now),
    {
        match self.priority_window_until {
            Some(until) => now < until,
            None => false,
        }
    }
}

/// The mathematical values of a run of rows.
pub open spec fn views(rows: Seq<RaidParticipant>) -> Seq<ParticipantView> {
    rows.map_values(|e: RaidParticipant| e@)
}

/// No two rows share an identifier.
pub open spec fn distinct_ids(rows: Seq<ParticipantView>) -> bool {
    forall|i: int, j: int| 0 <= i < j < rows.len() ==> rows[i].id != rows[j].id
}

/// No user has two primary (non-alt) rows.
pub open spec fn one_primary_per_user(rows: Seq<ParticipantView>) -> bool {
    forall|i: int, j: int|
        0 <= i < j < rows.len() && !rows[i].is_alt && !rows[j].is_alt ==> rows[i].user_id
            != rows[j].user_id
}

/// What holds of the rows of every roster.
pub open spec fn roster_wf(rows: Seq<ParticipantView>) -> bool {
    &&& distinct_ids(rows)
    &&& one_primary_per_user(rows)
}

/// Holds of a row with a main seat.
pub open spec fn holds_main() -> spec_fn(ParticipantView) -> bool {
    |e: ParticipantView| e.is_main
}

/// Holds of an alt row with a main seat.
pub open spec fn holds_alt_main() -> spec_fn(ParticipantView) -> bool {
    |e: ParticipantView| e.is_main && e.is_alt
}

/// A choice of rows: all rows of a user, the alt rows of a user, or the row
/// with a given identifier.
#[derive(Clone, Copy)]
pub enum RowFilter {
    User(i64),
    UserAlts(i64),
    Row(u128),
}

impl RowFilter {
    /// Whether the filter chooses the row.
    pub open spec fn matches(self, e: ParticipantView) -> bool {
        match self {
            RowFilter::User(user_id) => e.user_id == user_id,
            RowFilter::UserAlts(user_id) => e.user_id == user_id && e.is_alt,
            RowFilter::Row(id) => e.id == id,
        }
    }

    /// Holds of the rows that the filter chooses.
    pub open spec fn chosen(self) -> spec_fn(ParticipantView) -> bool {
        |e: ParticipantView| self.matches(e)
    }

    /// Holds of the rows that the filter leaves.
    pub open spec fn left(self) -> spec_fn(ParticipantView) -> bool {
        |e: ParticipantView| !self.matches(e)
    }

    /// Whether the filter chooses the row.
    pub fn test(&self, row: &RaidParticipant) -> (hit: bool)
        ensures
            hit == self.matches(row@),
    {
        match self {
            RowFilter::User(user_id) => row.user_id == *user_id,
            RowFilter::UserAlts(user_id) => row.user_id == *user_id && row.is_alt,
            RowFilter::Row(id) => row.id == *id,
        }
    }
}

/// Number of rows that hold a main seat.
pub open spec fn main_count(rows: Seq<ParticipantView>) -> nat {
    crate::counting::count_where(rows, holds_main())
}

/// Number of alt rows that hold a main seat.
pub open spec fn alt_main_count(rows: Seq<ParticipantView>) -> nat {
    crate::counting::count_where(rows, holds_alt_main())
}

/// Number of alt rows of one user.
pub open spec fn user_alt_count(rows: Seq<ParticipantView>, user_id: i64) -> nat {
    crate::counting::count_where(rows, RowFilter::UserAlts(user_id).chosen())
}

/// Number of rows of one user.
pub open spec fn user_row_count(rows: Seq<ParticipantView>, user_id: i64) -> nat {
    crate::counting::count_where(rows, RowFilter::User(user_id).chosen())
}

/// Row `i` is the primary row of the user.
pub open spec fn primary_at(rows: Seq<ParticipantView>, i: int, user_id: i64) -> bool {
    0 <= i < rows.len() && rows[i].user_id == user_id && !rows[i].is_alt
}

/// Whether the user has a primary row.
pub open spec fn has_primary(rows: Seq<ParticipantView>, user_id: i64) -> bool {
    exists|i: int| primary_at(rows, i, user_id)
}

/// Where the user's primary row stands.
pub open spec fn primary_index(rows: Seq<ParticipantView>, user_id: i64) -> int {
    choose|i: int| primary_at(rows, i, user_id)
}

/// Whether the user's primary row holds a main seat.
pub open spec fn has_primary_main(rows: Seq<ParticipantView>, user_id: i64) -> bool {
    exists|i: int| primary_at(rows, i, user_id) && rows[i].is_main
}

/// Whether some row carries the identifier.
pub open spec fn id_in_use(rows: Seq<ParticipantView>, id: u128) -> bool {
    exists|i: int| 0 <= i < rows.len() && (#[trigger] rows[i]).id == id
}

/// The rows after a primary registration: the user's primary row is
/// rewritten in place where there is one, keeping its identifier, its seat
/// and its time of arrival; otherwise a new row is added behind the others.
pub open spec fn with_primary(rows: Seq<ParticipantView>, row: ParticipantView) -> Seq<
    ParticipantView,
> {
    if has_primary(rows, row.user_id) {
        let i = primary_index(rows, row.user_id);
        rows.update(
            i,
            ParticipantView { joined_as: row.joined_as, tag_suffix: row.tag_suffix, ..rows[i] },
        )
    } else {
        rows.push(row)
    }
}

/// The rows after the row with the identifier was moved to reserve.
pub open spec fn without_seat(rows: Seq<ParticipantView>, id: u128) -> Seq<ParticipantView> {
    rows.map_values(
        |e: ParticipantView|
            if e.id == id {
                e.benched()
            } else {
                e
            },
    )
}

/// The rows after the row with the identifier was given a main seat.
pub open spec fn with_seat(rows: Seq<ParticipantView>, id: u128) -> Seq<ParticipantView> {
    rows.map_values(
        |e: ParticipantView|
            if e.id == id {
                e.seated()
            } else {
                e
            },
    )
}

/// The rows after the user's primary row took `sp` as the specialist of its
/// label; unchanged where the user has no primary row.
pub open spec fn with_active_sp(rows: Seq<ParticipantView>, user_id: i64, sp: Seq<char>) -> Seq<
    ParticipantView,
> {
    if has_primary(rows, user_id) {
        let i = primary_index(rows, user_id);
        rows.update(
            i,
            ParticipantView {
                joined_as: crate::labels::label_of(crate::labels::class_of(rows[i].joined_as), sp),
                ..rows[i]
            },
        )
    } else {
        rows
    }
}

/// Whether the name is among the names, whatever the case of its ASCII
/// letters.
pub open spec fn lists_name(names: Seq<Seq<char>>, name: Seq<char>) -> bool {
    exists|i: int| 0 <= i < names.len() && same_ignoring_case(#[trigger] names[i], name)
}

/// Whether the name is among the names, whatever the case of its ASCII
/// letters.
pub fn lists_ignoring_case(names: &Vec<String>, name: &str) -> (found: bool)
    ensures
        found == lists_name(texts(names@), name@),
{
    let mut k: usize = 0;
    while k < names.len()
        invariant
            k <= names.len(),
            forall|i: int|
                0 <= i < k ==> !same_ignoring_case(#[trigger] texts(names@)[i], name@),
        decreases names.len() - k,
    {
        assert(texts(names@)[k as int] == names@[k as int]@);
        if eq_ignore_ascii_case(names[k].as_str(), name) {
            return true;
        }
        k = k + 1;
    }
    false
}

/// The rows after `sp` was added to the further specialists of the user's
/// primary row. Nothing changes where the user has no primary row, or the
/// row lists the specialist already: adding it again adds nothing.
pub open spec fn with_extra_sp(rows: Seq<ParticipantView>, user_id: i64, sp: Seq<char>) -> Seq<
    ParticipantView,
> {
    if has_primary(rows, user_id) && !lists_name(
        rows[primary_index(rows, user_id)].extra_sps,
        sp,
    ) {
        let i = primary_index(rows, user_id);
        rows.update(i, ParticipantView { extra_sps: rows[i].extra_sps.push(sp), ..rows[i] })
    } else {
        rows
    }
}

/// Whether the alt row is stored already: a row carries its identifier and
/// is an alt row of the same user.
pub open spec fn alt_stored(rows: Seq<ParticipantView>, row: ParticipantView) -> bool {
    exists|i: int|
        0 <= i < rows.len() && (#[trigger] rows[i]).id == row.id && rows[i].user_id
            == row.user_id && rows[i].is_alt
}

/// The rows after an alt registration: the row stands behind the others,
/// unless its identifier is in use already, in which case nothing changes.
pub open spec fn with_alt(rows: Seq<ParticipantView>, row: ParticipantView) -> Seq<
    ParticipantView,
> {
    if id_in_use(rows, row.id) {
        rows
    } else {
        rows.push(row)
    }
}

/// A raid: the parent of a roster, with its schedule, its owner and its
/// capacity settings.
pub struct Raid {
    pub id: u128,
    pub guild_id: i64,
    pub channel_id: i64,
    pub message_id: i64,
    /// When the raid starts.
    pub scheduled_for: i64,
    pub created_by: i64,
    pub owner_id: i64,
    pub description: String,
    /// Cleared when the raid is cancelled or its channel is gone.
    pub is_active: bool,
    pub raid_name: String,
    pub capacity: CapacityConfig,
}

impl Raid {
    /// Whether the user owns the raid.
    pub fn is_owner(&self, user_id: i64) -> (owner: bool)
        ensures
            owner == (self.owner_id == user_id),
    {
        self.owner_id == user_id
    }

    /// Cancels the raid. Timers that fire later find it inactive.
    pub fn cancel(&mut self)
        ensures
            !final(self).is_active,
            final(self).id == old(self).id,
            final(self).guild_id == old(self).guild_id,
            final(self).channel_id == old(self).channel_id,
            final(self).message_id == old(self).message_id,
            final(self).scheduled_for == old(self).scheduled_for,
            final(self).created_by == old(self).created_by,
            final(self).owner_id == old(self).owner_id,
            final(self).description == old(self).description,
            final(self).raid_name == old(self).raid_name,
            final(self).capacity == old(self).capacity,
    {
        self.is_active = false;
    }

    /// Hands the raid to a new owner.
    pub fn transfer(&mut self, new_owner: i64)
        ensures
            final(self).owner_id == new_owner,
            final(self).id == old(self).id,
            final(self).guild_id == old(self).guild_id,
            final(self).channel_id == old(self).channel_id,
            final(self).message_id == old(self).message_id,
            final(self).scheduled_for == old(self).scheduled_for,
            final(self).created_by == old(self).created_by,
            final(self).is_active == old(self).is_active,
            final(self).description == old(self).description,
            final(self).raid_name == old(self).raid_name,
            final(self).capacity == old(self).capacity,
    {
        self.owner_id = new_owner;
    }
}

} // verus!
