//! The entrants of one raid, kept in the order in which their rows were
//! created.

use crate::counting::{count_where, lemma_count_empty, lemma_count_push, lemma_count_take_next};
use crate::labels::{class_part, compose_label};
use crate::models::{
    alt_main_count, alt_stored, has_primary, has_primary_main, holds_alt_main, holds_main,
    id_in_use, lists_ignoring_case, main_count, primary_at, primary_index, roster_wf, texts,
    user_alt_count, user_row_count, views, with_active_sp, with_alt, with_extra_sp, with_primary,
    with_seat, without_seat, ParticipantView, RaidParticipant, RowFilter,
};
use crate::promotion::promoted;
use vstd::prelude::*;
use vstd::string::*;

verus! {

/// Why the store refused a row.
#[derive(Clone, Copy, Debug, PartialEq, Eq, Structural)]
pub enum StoreError {
    /// A row with the same identifier exists.
    DuplicateId,
    /// An alt row was offered as a primary registration, or a primary row
    /// as an alt.
    WrongKind,
}

/// The rows of one raid. No two rows share an identifier and no user has
/// more than one primary row; a user may have several alt rows.
pub struct Roster {
    rows: Vec<RaidParticipant>,
}

impl View for Roster {
    type V = Seq<ParticipantView>;

    closed spec fn view(&self) -> Seq<ParticipantView> {
        views(self.rows@)
    }
}

impl Roster {
    #[verifier::type_invariant]
    spec fn inv(self) -> bool {
        roster_wf(views(self.rows@))
    }

    /// A roster without rows.
    pub fn new() -> (roster: Roster)
        ensures
            roster@ == Seq::<ParticipantView>::empty(),
    {
        let roster = Roster { rows: Vec::new() };
        assert(roster@ =~= Seq::<ParticipantView>::empty());
        roster
    }

    /// The roster of the given rows, in their order; nothing where two
    /// rows share an identifier or a user has two primary rows.
    pub fn from_rows(rows: Vec<RaidParticipant>) -> (made: Option<Roster>)
        ensures
            made is Some <==> roster_wf(views(rows@)),
            made is Some ==> made->0@ == views(rows@),
    {
        let ghost all = views(rows@);
        let mut k: usize = 0;
        while k < rows.len()
            invariant
                k <= rows.len(),
                all == views(rows@),
                roster_wf(all.take(k as int)),
            decreases rows.len() - k,
        {
            let mut j: usize = 0;
            while j < k
                invariant
                    j <= k < rows.len(),
                    all == views(rows@),
                    forall|i: int|
                        0 <= i < j ==> all[i].id != all[k as int].id && !(all[i].user_id
                            == all[k as int].user_id && !all[i].is_alt && !all[k as int].is_alt),
                decreases k - j,
            {
                assert(all[j as int] == rows@[j as int]@);
                assert(all[k as int] == rows@[k as int]@);
                let clash = rows[j].id == rows[k].id || (rows[j].user_id == rows[k].user_id
                    && !rows[j].is_alt && !rows[k].is_alt);
                if clash {
                    return None;
                }
                j = j + 1;
            }
            proof {
                let upto = all.take(k + 1);
                assert forall|a: int, b: int| 0 <= a < b < upto.len() implies upto[a].id
                    != upto[b].id by {
                    if b < k {
                        assert(all.take(k as int)[a].id != all.take(k as int)[b].id);
                    }
                }
                assert forall|a: int, b: int|
                    0 <= a < b < upto.len() && !upto[a].is_alt
                        && !upto[b].is_alt implies upto[a].user_id != upto[b].user_id by {
                    if b < k {
                        assert(all.take(k as int)[a].user_id != all.take(k as int)[b].user_id);
                    }
                }
            }
            k = k + 1;
        }
        assert(all.take(k as int) =~= all);
        Some(Roster { rows })
    }

    /// Moves the rows out, leaving the roster empty until they are put back.
    fn take_rows(&mut self) -> (rows: Vec<RaidParticipant>)
        ensures
            views(rows@) == old(self)@,
            roster_wf(old(self)@),
            final(self)@ == Seq::<ParticipantView>::empty(),
    {
        proof {
            use_type_invariant(&*self);
        }
        let mut rows: Vec<RaidParticipant> = Vec::new();
        assert(views(rows@) =~= Seq::<ParticipantView>::empty());
        core::mem::swap(&mut self.rows, &mut rows);
        rows
    }

    /// The rows in creation order.
    pub fn rows(&self) -> (rows: &Vec<RaidParticipant>)
        ensures
            views(rows@) == self@,
            roster_wf(self@),
    {
        proof {
            use_type_invariant(self);
        }
        &self.rows
    }

    /// Number of rows.
    pub fn len(&self) -> (n: usize)
        ensures
            n == self@.len(),
    {
        self.rows.len()
    }

    /// Number of rows that hold a main seat.
    pub fn count_mains(&self) -> (n: usize)
        ensures
            n == main_count(self@),
    {
        let mut n: usize = 0;
        let mut k: usize = 0;
        proof {
            lemma_count_empty(holds_main());
            assert(self@.take(0) =~= Seq::<ParticipantView>::empty());
        }
        while k < self.rows.len()
            invariant
                k <= self.rows.len(),
                self@ == views(self.rows@),
                n == count_where(self@.take(k as int), holds_main()),
                n <= k,
            decreases self.rows.len() - k,
        {
            proof {
                lemma_count_take_next(self@, k as int, holds_main());
                assert(self@[k as int] == self.rows@[k as int]@);
            }
            if self.rows[k].is_main {
                n = n + 1;
            }
            k = k + 1;
        }
        assert(self@.take(k as int) =~= self@);
        n
    }

    /// Number of alt rows that hold a main seat.
    pub fn count_alt_mains(&self) -> (n: usize)
        ensures
            n == alt_main_count(self@),
    {
        let mut n: usize = 0;
        let mut k: usize = 0;
        proof {
            lemma_count_empty(holds_alt_main());
            assert(self@.take(0) =~= Seq::<ParticipantView>::empty());
        }
        while k < self.rows.len()
            invariant
                k <= self.rows.len(),
                self@ == views(self.rows@),
                n == count_where(self@.take(k as int), holds_alt_main()),
                n <= k,
            decreases self.rows.len() - k,
        {
            proof {
                lemma_count_take_next(self@, k as int, holds_alt_main());
                assert(self@[k as int] == self.rows@[k as int]@);
            }
            if self.rows[k].is_main && self.rows[k].is_alt {
                n = n + 1;
            }
            k = k + 1;
        }
        assert(self@.take(k as int) =~= self@);
        n
    }

    /// Number of rows that the filter chooses.
    pub fn count_matching(&self, which: RowFilter) -> (n: usize)
        ensures
            n == count_where(self@, which.chosen()),
    {
        let mut n: usize = 0;
        let mut k: usize = 0;
        proof {
            lemma_count_empty(which.chosen());
            assert(self@.take(0) =~= Seq::<ParticipantView>::empty());
        }
        while k < self.rows.len()
            invariant
                k <= self.rows.len(),
                self@ == views(self.rows@),
                n == count_where(self@.take(k as int), which.chosen()),
                n <= k,
            decreases self.rows.len() - k,
        {
            proof {
                lemma_count_take_next(self@, k as int, which.chosen());
                assert(self@[k as int] == self.rows@[k as int]@);
            }
            if which.test(&self.rows[k]) {
                n = n + 1;
            }
            k = k + 1;
        }
        assert(self@.take(k as int) =~= self@);
        n
    }

    /// Number of alt rows of the user.
    pub fn alt_count_for_user(&self, user_id: i64) -> (n: usize)
        ensures
            n == user_alt_count(self@, user_id),
    {
        self.count_matching(RowFilter::UserAlts(user_id))
    }

    /// Where the user's primary row stands, if the user has one.
    pub fn find_primary(&self, user_id: i64) -> (found: Option<usize>)
        ensures
            match found {
                Some(i) => primary_at(self@, i as int, user_id) && primary_index(self@, user_id)
                    == i,
                None => !has_primary(self@, user_id),
            },
    {
        proof {
            use_type_invariant(self);
        }
        let mut k: usize = 0;
        while k < self.rows.len()
            invariant
                k <= self.rows.len(),
                self@ == views(self.rows@),
                roster_wf(self@),
                forall|j: int| 0 <= j < k ==> !primary_at(self@, j, user_id),
            decreases self.rows.len() - k,
        {
            proof {
                assert(self@[k as int] == self.rows@[k as int]@);
            }
            if self.rows[k].user_id == user_id && !self.rows[k].is_alt {
                proof {
                    assert(primary_at(self@, k as int, user_id));
                    let c = primary_index(self@, user_id);
                    assert(primary_at(self@, c, user_id));
                    if c != k as int {
                        if c < k as int {
                            assert(self@[c].user_id != self@[k as int].user_id);
                        } else {
                            assert(self@[k as int].user_id != self@[c].user_id);
                        }
                    }
                }
                return Some(k);
            }
            k = k + 1;
        }
        None
    }

    /// Whether the user's primary row holds a main seat.
    pub fn user_has_main(&self, user_id: i64) -> (has: bool)
        ensures
            has == has_primary_main(self@, user_id),
    {
        match self.find_primary(user_id) {
            Some(i) => {
                proof {
                    use_type_invariant(self);
                    assert(self@[i as int] == self.rows@[i as int]@);
                    if has_primary_main(self@, user_id) {
                        let c = choose|c: int|
                            primary_at(self@, c, user_id) && self@[c].is_main;
                        if c != i as int {
                            if c < i as int {
                                assert(self@[c].user_id != self@[i as int].user_id);
                            } else {
                                assert(self@[i as int].user_id != self@[c].user_id);
                            }
                        }
                    }
                }
                self.rows[i].is_main
            },
            None => false,
        }
    }

    /// Where the row with the identifier stands, if there is one.
    pub fn find_row(&self, id: u128) -> (found: Option<usize>)
        ensures
            match found {
                Some(i) => 0 <= i < self@.len() && self@[i as int].id == id,
                None => !id_in_use(self@, id),
            },
    {
        let mut k: usize = 0;
        while k < self.rows.len()
            invariant
                k <= self.rows.len(),
                self@ == views(self.rows@),
                forall|j: int| 0 <= j < k ==> (#[trigger] self@[j]).id != id,
            decreases self.rows.len() - k,
        {
            proof {
                assert(self@[k as int] == self.rows@[k as int]@);
            }
            if self.rows[k].id == id {
                return Some(k);
            }
            k = k + 1;
        }
        None
    }

    /// Registers the user's primary slot. Where the user already has a
    /// primary row, its label and tag are rewritten in place and its
    /// identifier, seat and time of arrival stay: registering again adds no
    /// row. Otherwise `row` is added behind the others, unless its
    /// identifier is already in use.
    pub fn insert_or_replace_main(&mut self, row: RaidParticipant) -> (done: Result<
        usize,
        StoreError,
    >)
        ensures
            match done {
                Ok(i) => {
                    &&& !row.is_alt
                    &&& has_primary(old(self)@, row.user_id) || !id_in_use(old(self)@, row.id)
                    &&& final(self)@ == with_primary(old(self)@, row@)
                    &&& primary_at(final(self)@, i as int, row.user_id)
                },
                Err(e) => {
                    &&& final(self)@ == old(self)@
                    &&& e == if row.is_alt {
                        StoreError::WrongKind
                    } else {
                        StoreError::DuplicateId
                    }
                    &&& !row.is_alt ==> !has_primary(old(self)@, row.user_id) && id_in_use(
                        old(self)@,
                        row.id,
                    )
                },
            },
    {
        if row.is_alt {
            return Err(StoreError::WrongKind);
        }
        match self.find_primary(row.user_id) {
            Some(i) => {
                let ghost before = self@;
                let mut rows = self.take_rows();
                let mut kept = rows[i].clone();
                kept.joined_as = row.joined_as;
                kept.tag_suffix = row.tag_suffix;
                assert(before[i as int] == rows@[i as int]@);
                rows.set(i, kept);
                proof {
                    assert(views(rows@) =~= with_primary(before, row@));
                    assert forall|a: int| 0 <= a < before.len() implies (#[trigger] views(
                        rows@,
                    )[a]).id == before[a].id && views(rows@)[a].user_id == before[a].user_id
                        && views(rows@)[a].is_alt == before[a].is_alt by {}
                }
                self.rows = rows;
                Ok(i)
            },
            None => {
                match self.find_row(row.id) {
                    Some(_) => Err(StoreError::DuplicateId),
                    None => {
                        let ghost before = self@;
                        let mut rows = self.take_rows();
                        let at = rows.len();
                        rows.push(row);
                        proof {
                            let now = views(rows@);
                            assert(now =~= before.push(row@));
                            assert forall|a: int, b: int|
                                0 <= a < b < now.len() implies now[a].id != now[b].id by {
                                if b == before.len() {
                                    assert(before[a].id != row.id);
                                }
                            }
                            assert forall|a: int, b: int|
                                0 <= a < b < now.len() && !now[a].is_alt
                                    && !now[b].is_alt implies now[a].user_id
                                != now[b].user_id by {
                                if b == before.len() {
                                    assert(!primary_at(before, a, row.user_id));
                                }
                            }
                        }
                        self.rows = rows;
                        Ok(at)
                    },
                }
            },
        }
    }

    /// Adds an alt row behind the others. Where a row with its identifier
    /// is there already and is an alt row of the same user, the row counts
    /// as stored and nothing changes: a registration that arrives a second
    /// time adds no second row. Any other use of the identifier is refused.
    pub fn insert_alt(&mut self, row: RaidParticipant) -> (done: Result<usize, StoreError>)
        ensures
            match done {
                Ok(i) => {
                    &&& row.is_alt
                    &&& !id_in_use(old(self)@, row.id) || alt_stored(old(self)@, row@)
                    &&& final(self)@ == with_alt(old(self)@, row@)
                    &&& i < final(self)@.len()
                    &&& final(self)@[i as int].id == row.id
                },
                Err(e) => {
                    &&& final(self)@ == old(self)@
                    &&& e == if !row.is_alt {
                        StoreError::WrongKind
                    } else {
                        StoreError::DuplicateId
                    }
                    &&& row.is_alt ==> id_in_use(old(self)@, row.id) && !alt_stored(
                        old(self)@,
                        row@,
                    )
                },
            },
    {
        if !row.is_alt {
            return Err(StoreError::WrongKind);
        }
        match self.find_row(row.id) {
            Some(at) => {
                proof {
                    use_type_invariant(&*self);
                    assert(self@[at as int] == self.rows@[at as int]@);
                    assert forall|j: int|
                        0 <= j < self@.len() && (#[trigger] self@[j]).id == row.id implies j
                        == at by {
                        if j < at as int {
                            assert(self@[j].id != self@[at as int].id);
                        } else if j > at as int {
                            assert(self@[at as int].id != self@[j].id);
                        }
                    }
                }
                if self.rows[at].user_id == row.user_id && self.rows[at].is_alt {
                    Ok(at)
                } else {
                    Err(StoreError::DuplicateId)
                }
            },
            None => {
                let ghost before = self@;
                let mut rows = self.take_rows();
                let at = rows.len();
                rows.push(row);
                proof {
                    let now = views(rows@);
                    assert(now =~= before.push(row@));
                    assert forall|a: int, b: int| 0 <= a < b < now.len() implies now[a].id
                        != now[b].id by {
                        if b == before.len() {
                            assert(before[a].id != row.id);
                        }
                    }
                }
                self.rows = rows;
                Ok(at)
            },
        }
    }

    /// Removes the rows that the filter chooses and says how many they
    /// were. The rows that stay keep their order.
    pub fn remove_matching(&mut self, which: RowFilter) -> (removed: u64)
        ensures
            final(self)@ == old(self)@.filter(which.left()),
            removed == count_where(old(self)@, which.chosen()),
    {
        let ghost src = self@;
        let rows = self.take_rows();
        let mut kept: Vec<RaidParticipant> = Vec::new();
        let mut removed: usize = 0;
        let mut k: usize = 0;
        let ghost mut origin: Seq<int> = Seq::empty();
        proof {
            lemma_count_empty(which.chosen());
            lemma_count_empty(which.left());
            assert(src.take(0) =~= Seq::<ParticipantView>::empty());
            assert(views(kept@) =~= Seq::<ParticipantView>::empty());
            assert(src.take(0).filter(which.left()) =~= Seq::<ParticipantView>::empty()) by {
                src.take(0).lemma_filter_len(which.left());
            }
        }
        while k < rows.len()
            invariant
                k <= rows.len(),
                src == views(rows@),
                roster_wf(src),
                views(kept@) == src.take(k as int).filter(which.left()),
                removed == count_where(src.take(k as int), which.chosen()),
                removed <= k,
                origin.len() == kept@.len(),
                forall|a: int|
                    0 <= a < origin.len() ==> 0 <= #[trigger] origin[a] < k && views(kept@)[a]
                        == src[origin[a]],
                forall|a: int, b: int|
                    0 <= a < b < origin.len() ==> #[trigger] origin[a] < #[trigger] origin[b],
            decreases rows.len() - k,
        {
            proof {
                lemma_count_take_next(src, k as int, which.chosen());
                assert(src.take(k + 1) =~= src.take(k as int).push(src[k as int]));
                src.take(k as int).lemma_filter_push(src[k as int], which.left());
                assert(src[k as int] == rows@[k as int]@);
            }
            if which.test(&rows[k]) {
                removed = removed + 1;
            } else {
                let ghost before = views(kept@);
                kept.push(rows[k].clone());
                proof {
                    assert(views(kept@) =~= before.push(src[k as int]));
                    origin = origin.push(k as int);
                }
            }
            k = k + 1;
        }
        proof {
            assert(src.take(k as int) =~= src);
            let now = views(kept@);
            assert forall|a: int, b: int| 0 <= a < b < now.len() implies now[a].id
                != now[b].id by {
                assert(origin[a] < origin[b]);
            }
            assert forall|a: int, b: int|
                0 <= a < b < now.len() && !now[a].is_alt && !now[b].is_alt implies now[a].user_id
                != now[b].user_id by {
                assert(origin[a] < origin[b]);
            }
        }
        self.rows = kept;
        removed as u64
    }

    /// Removes every row of the user, primary and alt, and says how many
    /// rows went.
    pub fn remove_participant(&mut self, user_id: i64) -> (removed: u64)
        ensures
            final(self)@ == old(self)@.filter(RowFilter::User(user_id).left()),
            removed == user_row_count(old(self)@, user_id),
    {
        self.remove_matching(RowFilter::User(user_id))
    }

    /// Removes the alt rows of the user and says how many went.
    pub fn remove_user_alts(&mut self, user_id: i64) -> (removed: u64)
        ensures
            final(self)@ == old(self)@.filter(RowFilter::UserAlts(user_id).left()),
            removed == user_alt_count(old(self)@, user_id),
    {
        self.remove_matching(RowFilter::UserAlts(user_id))
    }

    /// Removes the row with the identifier and says how many rows went:
    /// one, or none where no row carries it.
    pub fn remove_participant_by_id(&mut self, id: u128) -> (removed: u64)
        ensures
            final(self)@ == old(self)@.filter(RowFilter::Row(id).left()),
            removed == count_where(old(self)@, RowFilter::Row(id).chosen()),
            removed == if id_in_use(old(self)@, id) {
                1u64
            } else {
                0u64
            },
    {
        proof {
            use_type_invariant(&*self);
            lemma_one_row_per_id(self@, id);
        }
        self.remove_matching(RowFilter::Row(id))
    }

    /// Sets the seat of the rows whose identifier is listed: one
    /// conditional update per row.
    fn set_seats(&mut self, ids: &Vec<u128>, is_main: bool)
        ensures
            final(self)@ == old(self)@.map_values(
                |e: ParticipantView|
                    if ids@.contains(e.id) {
                        ParticipantView { is_main, ..e }
                    } else {
                        e
                    },
            ),
    {
        let ghost src = self@;
        let ghost f = |e: ParticipantView|
            if ids@.contains(e.id) {
                ParticipantView { is_main, ..e }
            } else {
                e
            };
        let mut rows = self.take_rows();
        let mut k: usize = 0;
        while k < rows.len()
            invariant
                k <= rows.len(),
                rows@.len() == src.len(),
                roster_wf(src),
                f == (|e: ParticipantView|
                    if ids@.contains(e.id) {
                        ParticipantView { is_main, ..e }
                    } else {
                        e
                    }),
                forall|a: int| 0 <= a < k ==> (#[trigger] rows@[a])@ == f(src[a]),
                forall|a: int| k <= a < rows@.len() ==> (#[trigger] rows@[a])@ == src[a],
            decreases rows.len() - k,
        {
            if has_id(ids, rows[k].id) {
                let mut row = rows[k].clone();
                row.is_main = is_main;
                rows.set(k, row);
            }
            k = k + 1;
        }
        proof {
            let now = views(rows@);
            assert(now =~= src.map_values(f));
            assert forall|a: int| 0 <= a < now.len() implies (#[trigger] now[a]).id == src[a].id
                && now[a].user_id == src[a].user_id && now[a].is_alt == src[a].is_alt by {}
        }
        self.rows = rows;
    }

    /// Gives a main seat to every listed row.
    pub fn apply_promotions(&mut self, plan: &Vec<u128>)
        ensures
            final(self)@ == promoted(old(self)@, plan@),
    {
        self.set_seats(plan, true);
        assert(self@ =~= promoted(old(self)@, plan@));
    }

    /// Gives the row with the identifier a main seat, whatever the
    /// capacity: the owner's override.
    pub fn promote_row(&mut self, id: u128) -> (changed: bool)
        ensures
            final(self)@ == with_seat(old(self)@, id),
            changed == exists|i: int|
                0 <= i < old(self)@.len() && (#[trigger] old(self)@[i]).id == id && !old(
                    self,
                )@[i].is_main,
    {
        let changed = match self.find_row(id) {
            Some(i) => {
                proof {
                    use_type_invariant(&*self);
                    assert(self@[i as int] == self.rows@[i as int]@);
                    assert forall|j: int|
                        0 <= j < self@.len() && (#[trigger] self@[j]).id == id implies j == i by {
                        if j < i as int {
                            assert(self@[j].id != self@[i as int].id);
                        } else if j > i as int {
                            assert(self@[i as int].id != self@[j].id);
                        }
                    }
                }
                !self.rows[i].is_main
            },
            None => false,
        };
        let mut ids: Vec<u128> = Vec::new();
        ids.push(id);
        assert(ids@ =~= seq![id]);
        assert forall|x: u128| ids@.contains(x) == (x == id) by {
            if x == id {
                assert(ids@[0] == id);
            }
        }
        self.set_seats(&ids, true);
        assert(self@ =~= with_seat(old(self)@, id));
        changed
    }

    /// Moves the row with the identifier to reserve.
    pub fn move_to_reserve(&mut self, id: u128) -> (changed: bool)
        ensures
            final(self)@ == without_seat(old(self)@, id),
            changed == exists|i: int|
                0 <= i < old(self)@.len() && (#[trigger] old(self)@[i]).id == id && old(
                    self,
                )@[i].is_main,
    {
        let changed = match self.find_row(id) {
            Some(i) => {
                proof {
                    use_type_invariant(&*self);
                    assert(self@[i as int] == self.rows@[i as int]@);
                    assert forall|j: int|
                        0 <= j < self@.len() && (#[trigger] self@[j]).id == id implies j == i by {
                        if j < i as int {
                            assert(self@[j].id != self@[i as int].id);
                        } else if j > i as int {
                            assert(self@[i as int].id != self@[j].id);
                        }
                    }
                }
                self.rows[i].is_main
            },
            None => false,
        };
        let mut ids: Vec<u128> = Vec::new();
        ids.push(id);
        assert(ids@ =~= seq![id]);
        assert forall|x: u128| ids@.contains(x) == (x == id) by {
            if x == id {
                assert(ids@[0] == id);
            }
        }
        self.set_seats(&ids, false);
        assert(self@ =~= without_seat(old(self)@, id));
        changed
    }

    /// Replaces row `i` by a row with the same identifier, user and kind.
    fn replace_row(&mut self, i: usize, row: RaidParticipant)
        requires
            i < old(self)@.len(),
            row.id == old(self)@[i as int].id,
            row.user_id == old(self)@[i as int].user_id,
            row.is_alt == old(self)@[i as int].is_alt,
        ensures
            final(self)@ == old(self)@.update(i as int, row@),
    {
        let ghost before = self@;
        let mut rows = self.take_rows();
        rows.set(i, row);
        proof {
            let now = views(rows@);
            assert(now =~= before.update(i as int, row@));
            assert forall|a: int| 0 <= a < before.len() implies (#[trigger] now[a]).id
                == before[a].id && now[a].user_id == before[a].user_id && now[a].is_alt
                == before[a].is_alt by {}
        }
        self.rows = rows;
    }

    /// Makes `sp` the specialist in the label of the user's primary row and
    /// keeps the class. Says whether the user has a primary row.
    pub fn set_active_sp(&mut self, user_id: i64, sp: &str) -> (found: bool)
        ensures
            found == has_primary(old(self)@, user_id),
            final(self)@ == with_active_sp(old(self)@, user_id, sp@),
    {
        match self.find_primary(user_id) {
            Some(i) => {
                assert(self@[i as int] == self.rows@[i as int]@);
                let mut row = self.rows[i].clone();
                let class = class_part(row.joined_as.as_str());
                row.joined_as = compose_label(class.as_str(), sp);
                self.replace_row(i, row);
                true
            },
            None => false,
        }
    }

    /// Adds `sp` to the further specialists of the user's primary row,
    /// unless the row lists it already. Says whether the user has a primary
    /// row.
    pub fn append_extra_sp(&mut self, user_id: i64, sp: String) -> (found: bool)
        ensures
            found == has_primary(old(self)@, user_id),
            final(self)@ == with_extra_sp(old(self)@, user_id, sp@),
    {
        match self.find_primary(user_id) {
            Some(i) => {
                assert(self@[i as int] == self.rows@[i as int]@);
                if !lists_ignoring_case(&self.rows[i].extra_sps, sp.as_str()) {
                    let mut row = self.rows[i].clone();
                    let ghost before = texts(row.extra_sps@);
                    row.extra_sps.push(sp);
                    assert(texts(row.extra_sps@) =~= before.push(sp@));
                    self.replace_row(i, row);
                }
                true
            },
            None => false,
        }
    }
}

/// Whether the identifier is listed.
pub fn has_id(ids: &Vec<u128>, id: u128) -> (found: bool)
    ensures
        found == ids@.contains(id),
{
    let mut k: usize = 0;
    while k < ids.len()
        invariant
            k <= ids.len(),
            forall|j: int| 0 <= j < k ==> ids@[j] != id,
        decreases ids.len() - k,
    {
        if ids[k] == id {
            return true;
        }
        k = k + 1;
    }
    false
}

/// Among rows with distinct identifiers, an identifier chooses one row or
/// none.
pub proof fn lemma_one_row_per_id(rows: Seq<ParticipantView>, id: u128)
    requires
        roster_wf(rows),
    ensures
        count_where(rows, RowFilter::Row(id).chosen()) == if id_in_use(rows, id) {
            1nat
        } else {
            0nat
        },
    decreases rows.len(),
{
    let p = RowFilter::Row(id).chosen();
    if rows.len() == 0 {
        lemma_count_empty(p);
        assert(rows =~= Seq::<ParticipantView>::empty());
    } else {
        let front = rows.drop_last();
        assert(rows =~= front.push(rows.last()));
        lemma_count_push(front, rows.last(), p);
        assert forall|a: int, b: int| 0 <= a < b < front.len() implies front[a].id
            != front[b].id by {
            assert(rows[a].id != rows[b].id);
        }
        assert forall|a: int, b: int|
            0 <= a < b < front.len() && !front[a].is_alt
                && !front[b].is_alt implies front[a].user_id != front[b].user_id by {
            assert(rows[a].user_id != rows[b].user_id);
        }
        lemma_one_row_per_id(front, id);
        if id_in_use(front, id) {
            let i = choose|i: int| 0 <= i < front.len() && (#[trigger] front[i]).id == id;
            assert(rows[i].id == id);
            assert(rows[i].id != rows[rows.len() - 1].id);
        } else if rows.last().id == id {
            assert(rows[rows.len() - 1].id == id);
        } else {
            if id_in_use(rows, id) {
                let i = choose|i: int| 0 <= i < rows.len() && (#[trigger] rows[i]).id == id;
                assert(front[i].id == id);
            }
        }
    }
}

} // verus!
