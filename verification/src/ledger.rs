//! The ledger: an append-only log of character-count entries together with a
//! derived per-user running total, an active flag used for leaderboard
//! visibility, and rank / pagination queries over the aggregate rows.

use crate::sorting::insert_sorted;
use crate::sorting::lemma_insert_sorted_position;
use crate::sorting::lemma_sort_by_insertion_multiset;
use crate::sorting::lemma_sort_by_insertion_sorted;
use crate::sorting::page_window;
use crate::sorting::sort_by_insertion;
use vstd::prelude::*;
use vstd::relations::sorted_by;

verus! {

broadcast use vstd::seq_lib::group_seq_properties;

/// One aggregate row per user: the running total derived from the log,
/// the last-known display name, and the active flag.
pub struct CharacterStatistics {
    pub user_id: u64,
    pub total_characters: i32,
    pub name: String,
    pub is_active: bool,
}

impl CharacterStatistics {
    /// A fresh aggregate row; users start out active.
    pub fn new(user_id: u64, total_characters: i32, name: String) -> (r: CharacterStatistics)
        ensures
            r.user_id == user_id,
            r.total_characters == total_characters,
            r.name == name,
            r.is_active,
    {
        CharacterStatistics { user_id, total_characters, name, is_active: true }
    }

    pub fn get_user_id(&self) -> (r: u64)
        ensures
            r == self.user_id,
    {
        self.user_id
    }
}

impl Clone for CharacterStatistics {
    fn clone(&self) -> (r: Self)
        ensures
            r == *self,
    {
        CharacterStatistics {
            user_id: self.user_id,
            total_characters: self.total_characters,
            name: self.name.clone(),
            is_active: self.is_active,
        }
    }
}

/// One immutable row per persisted append: the (possibly clamped) delta,
/// the event time as a Unix timestamp in seconds, and optional notes.
/// `id` is the monotonic surrogate key assigned by the ledger.
pub struct CharacterLogEntry {
    pub id: u64,
    pub user_id: u64,
    pub characters: i32,
    pub time: i64,
    pub notes: Option<String>,
}

impl CharacterLogEntry {
    pub fn new(id: u64, user_id: u64, characters: i32, time: i64, notes: Option<String>) -> (r:
        CharacterLogEntry)
        ensures
            r == (CharacterLogEntry { id, user_id, characters, time, notes }),
    {
        CharacterLogEntry { id, user_id, characters, time, notes }
    }

    pub fn characters(&self) -> (r: i32)
        ensures
            r == self.characters,
    {
        self.characters
    }

    pub fn time(&self) -> (r: i64)
        ensures
            r == self.time,
    {
        self.time
    }

    pub fn notes(&self) -> (r: &Option<String>)
        ensures
            r == &self.notes,
    {
        &self.notes
    }
}

impl Clone for CharacterLogEntry {
    fn clone(&self) -> (r: Self)
        ensures
            r == *self,
    {
        CharacterLogEntry {
            id: self.id,
            user_id: self.user_id,
            characters: self.characters,
            time: self.time,
            notes: match &self.notes {
                Some(n) => Some(n.clone()),
                None => None,
            },
        }
    }
}

/// The sum of the deltas of a sequence of log entries.
pub open spec fn sum_characters(s: Seq<CharacterLogEntry>) -> int
    decreases s.len(),
{
    if s.len() == 0 {
        0
    } else {
        sum_characters(s.drop_last()) + s.last().characters
    }
}

/// The in-memory store: aggregate rows plus the append-only log. The
/// well-formedness predicate `wf` ties the two together: every total is the
/// sum of that user's persisted deltas and never negative.
pub struct Ledger {
    pub stats: Vec<CharacterStatistics>,
    pub logs: Vec<CharacterLogEntry>,
}

/// The predicate selecting one user's log entries.
pub open spec fn user_log_pred(user_id: u64) -> spec_fn(CharacterLogEntry) -> bool {
    |e: CharacterLogEntry| e.user_id == user_id
}

/// The predicate selecting rows visible on the leaderboard.
pub open spec fn leaderboard_pred() -> spec_fn(CharacterStatistics) -> bool {
    |u: CharacterStatistics| u.is_active && u.total_characters > 0
}

/// The predicate selecting active rows whose total strictly exceeds `total`.
pub open spec fn above_pred(total: int) -> spec_fn(CharacterStatistics) -> bool {
    |u: CharacterStatistics| u.is_active && u.total_characters > total
}

impl Ledger {
    /// The log entries of one user, in insertion order.
    pub open spec fn user_logs(self, user_id: u64) -> Seq<CharacterLogEntry> {
        self.logs@.filter(user_log_pred(user_id))
    }

    pub open spec fn has_user(self, user_id: u64) -> bool {
        exists|i: int| 0 <= i < self.stats@.len() && self.stats@[i].user_id == user_id
    }

    /// The index of a user's aggregate row; meaningful only when
    /// `has_user` holds (row indices are unique under `wf`).
    pub open spec fn user_index(self, user_id: u64) -> int {
        choose|i: int| 0 <= i < self.stats@.len() && self.stats@[i].user_id == user_id
    }

    pub open spec fn user_row(self, user_id: u64) -> CharacterStatistics {
        self.stats@[self.user_index(user_id)]
    }

    /// The running total of a user; zero for a user without a row.
    pub open spec fn total_of(self, user_id: u64) -> int {
        if self.has_user(user_id) {
            self.user_row(user_id).total_characters as int
        } else {
            0
        }
    }

    pub open spec fn wf(self) -> bool {
        &&& forall|i: int, j: int|
            0 <= i < j < self.stats@.len() ==> (#[trigger] self.stats@[i]).user_id != (
            #[trigger] self.stats@[j]).user_id
        &&& forall|i: int|
            0 <= i < self.stats@.len() ==> (#[trigger] self.stats@[i]).total_characters >= 0
        &&& forall|i: int|
            0 <= i < self.stats@.len() ==> (#[trigger] self.stats@[i]).total_characters as int
                == sum_characters(self.user_logs(self.stats@[i].user_id))
        &&& forall|j: int|
            0 <= j < self.logs@.len() ==> self.has_user((#[trigger] self.logs@[j]).user_id)
        &&& forall|j: int| 0 <= j < self.logs@.len() ==> (#[trigger] self.logs@[j]).id == j as u64
    }

    pub fn new() -> (r: Ledger)
        ensures
            r.wf(),
            r.stats@ =~= Seq::<CharacterStatistics>::empty(),
            r.logs@ =~= Seq::<CharacterLogEntry>::empty(),
    {
        Ledger { stats: Vec::new(), logs: Vec::new() }
    }

    proof fn lemma_user_index_is(self, user_id: u64, i: int)
        requires
            forall|a: int, b: int|
                0 <= a < b < self.stats@.len() ==> (#[trigger] self.stats@[a]).user_id != (
                #[trigger] self.stats@[b]).user_id,
            0 <= i < self.stats@.len(),
            self.stats@[i].user_id == user_id,
        ensures
            self.has_user(user_id),
            self.user_index(user_id) == i,
    {
        assert(self.has_user(user_id));
        let k = self.user_index(user_id);
        assert(0 <= k < self.stats@.len() && self.stats@[k].user_id == user_id);
        if k < i {
            assert(self.stats@[k].user_id != self.stats@[i].user_id);
        } else if i < k {
            assert(self.stats@[i].user_id != self.stats@[k].user_id);
        }
    }

    /// No row for a user means no log entries for that user either.
    proof fn lemma_absent_user_has_no_logs(self, user_id: u64)
        requires
            self.wf(),
            !self.has_user(user_id),
        ensures
            self.user_logs(user_id) =~= Seq::<CharacterLogEntry>::empty(),
            sum_characters(self.user_logs(user_id)) == 0,
    {
        lemma_filter_no_match(self.logs@, user_log_pred(user_id));
    }

    /// The index of a user's row, or `None` when the user has no row yet.
    fn find_user(&self, user_id: u64) -> (r: Option<usize>)
        requires
            self.wf(),
        ensures
            match r {
                Some(i) => self.has_user(user_id) && i < self.stats@.len()
                    && self.stats@[i as int].user_id == user_id && i as int == self.user_index(
                    user_id,
                ),
                None => !self.has_user(user_id),
            },
    {
        let n = self.stats.len();
        let mut i: usize = 0;
        while i < n
            invariant
                0 <= i <= n,
                n == self.stats@.len(),
                self.wf(),
                forall|j: int| 0 <= j < i ==> (#[trigger] self.stats@[j]).user_id != user_id,
            decreases n - i,
        {
            if self.stats[i].user_id == user_id {
                proof {
                    self.lemma_user_index_is(user_id, i as int);
                }
                return Some(i);
            }
            i = i + 1;
        }
        None
    }

    /// Whether the user has logged before; never inserts a row.
    pub fn contains_user(&self, user_id: u64) -> (r: bool)
        requires
            self.wf(),
        ensures
            r == self.has_user(user_id),
    {
        self.find_user(user_id).is_some()
    }

    /// Returns the user's stored aggregate row, inserting a fresh zero row
    /// first when the user is unknown.
    pub fn get_or_initialize_statistics(&mut self, user_id: u64, name: &str) -> (r:
        CharacterStatistics)
        requires
            old(self).wf(),
        ensures
            final(self).wf(),
            r.user_id == user_id,
            r.total_characters as int == old(self).total_of(user_id),
            final(self).has_user(user_id),
            final(self).user_row(user_id) == r,
            final(self).logs@ == old(self).logs@,
            old(self).has_user(user_id) ==> *final(self) == *old(self) && r == old(self).user_row(
                user_id,
            ),
            !old(self).has_user(user_id) ==> final(self).stats@ =~= old(self).stats@.push(r)
                && r.total_characters == 0 && r.name@ == name@ && r.is_active,
    {
        match self.find_user(user_id) {
            Some(i) => {
                let r = self.stats[i].clone();
                r
            },
            None => {
                let row = CharacterStatistics::new(user_id, 0, name.to_owned());
                let r = row.clone();
                let ghost old_self = *self;
                self.stats.push(row);
                proof {
                    self.lemma_user_index_is(user_id, old_self.stats@.len() as int);
                    assert forall|i: int| 0 <= i < self.stats@.len() implies (
                    #[trigger] self.stats@[i]).total_characters as int == sum_characters(
                        self.user_logs(self.stats@[i].user_id),
                    ) by {
                        assert(self.user_logs(self.stats@[i].user_id) == old_self.user_logs(
                            self.stats@[i].user_id,
                        ));
                        if i < old_self.stats@.len() {
                            assert(old_self.stats@[i].total_characters as int == sum_characters(
                                old_self.user_logs(old_self.stats@[i].user_id),
                            ));
                        } else {
                            old_self.lemma_absent_user_has_no_logs(user_id);
                        }
                    }
                    assert forall|j: int| 0 <= j < self.logs@.len() implies self.has_user(
                        (#[trigger] self.logs@[j]).user_id,
                    ) by {
                        assert(old_self.has_user(self.logs@[j].user_id));
                        let w = old_self.user_index(self.logs@[j].user_id);
                        assert(self.stats@[w].user_id == self.logs@[j].user_id);
                    }
                }
                r
            },
        }
    }
}

/// The per-event clamp: a negative delta is raised to `-old_total` so that a
/// single append can never drive the running total below zero. Positive
/// deltas pass through unchanged.
pub open spec fn clamped_delta(old_total: int, characters: int) -> int {
    if characters >= 0 {
        characters
    } else if characters < -old_total {
        -old_total
    } else {
        characters
    }
}

/// Whether an append is persisted: an effective delta of zero together with
/// absent or blank notes is a write-side no-op and leaves no log entry.
pub open spec fn entry_persisted(characters: int, notes: Option<String>) -> bool {
    match notes {
        Some(n) => characters != 0 || !crate::text::spec_is_blank(n@),
        None => characters != 0,
    }
}

impl Ledger {
    /// Appends one event for `user_id`: clamps the delta, persists a log
    /// entry unless the event is a no-op, updates the running total and the
    /// display name, and returns the post-update row.
    pub fn add_log_entry(
        &mut self,
        user_id: u64,
        name: &str,
        characters: i32,
        time: i64,
        notes: Option<String>,
    ) -> (r: CharacterStatistics)
        requires
            old(self).wf(),
            old(self).total_of(user_id) + characters <= i32::MAX,
        ensures
            final(self).wf(),
            r.user_id == user_id,
            r.total_characters as int == old(self).total_of(user_id) + clamped_delta(
                old(self).total_of(user_id),
                characters as int,
            ),
            r.name@ == name@,
            r.is_active == (if old(self).has_user(user_id) {
                old(self).user_row(user_id).is_active
            } else {
                true
            }),
            final(self).has_user(user_id),
            final(self).user_row(user_id) == r,
            final(self).total_of(user_id) == r.total_characters as int,
            ({
                let eff = clamped_delta(old(self).total_of(user_id), characters as int);
                if entry_persisted(eff, notes) {
                    final(self).logs@ =~= old(self).logs@.push(
                        CharacterLogEntry {
                            id: old(self).logs@.len() as u64,
                            user_id,
                            characters: eff as i32,
                            time,
                            notes,
                        },
                    )
                } else {
                    final(self).logs@ == old(self).logs@
                }
            }),
            forall|u: u64| u != user_id ==> final(self).has_user(u) == old(self).has_user(u),
            forall|u: u64|
                u != user_id && old(self).has_user(u) ==> final(self).user_row(u) == old(
                    self,
                ).user_row(u),
    {
        broadcast use vstd::prelude::Seq::lemma_filter_push;

        let _ = self.get_or_initialize_statistics(user_id, name);
        let ghost mid = *self;
        proof {
            if old(self).has_user(user_id) {
                assert(mid == *old(self));
            }
            assert forall|u: u64| u != user_id implies mid.has_user(u) == old(self).has_user(
                u,
            ) by {
                lemma_push_preserves_other_users(*old(self), mid, user_id, u);
            }
        }
        let idx: usize = match self.find_user(user_id) {
            Some(i) => i,
            None => vstd::pervasive::unreached(),
        };
        let old_total: i32 = self.stats[idx].total_characters;
        assert(old_total as int == old(self).total_of(user_id));
        let eff: i32 = if characters >= 0 {
            characters
        } else {
            let floor = -old_total;
            if characters < floor {
                floor
            } else {
                characters
            }
        };
        assert(eff as int == clamped_delta(old(self).total_of(user_id), characters as int));
        let persist: bool = eff != 0 || (match &notes {
            Some(n) => !crate::text::is_blank(n.as_str()),
            None => false,
        });
        if persist {
            let id: u64 = self.logs.len() as u64;
            let entry = CharacterLogEntry::new(id, user_id, eff, time, notes);
            self.logs.push(entry);
        }
        let ghost mid2 = *self;
        let new_total: i32 = old_total + eff;
        self.stats[idx].total_characters = new_total;
        self.stats[idx].name = name.to_owned();
        let r = self.stats[idx].clone();
        proof {
            assert(self.stats@.len() == mid.stats@.len());
            assert(forall|i: int|
                0 <= i < self.stats@.len() ==> (#[trigger] self.stats@[i]).user_id
                    == mid.stats@[i].user_id);
            self.lemma_user_index_is(user_id, idx as int);
            // Every row still carries the sum of its own log entries.
            assert forall|i: int| 0 <= i < self.stats@.len() implies (
            #[trigger] self.stats@[i]).total_characters as int == sum_characters(
                self.user_logs(self.stats@[i].user_id),
            ) by {
                let u = self.stats@[i].user_id;
                if persist {
                    let entry = mid2.logs@.last();
                    assert(mid2.logs@ == mid.logs@.push(entry));
                    if u == user_id {
                        assert(self.user_logs(u) == mid.user_logs(u).push(entry));
                        assert(self.user_logs(u).drop_last() =~= mid.user_logs(u));
                        assert(i == idx);
                        assert(mid.stats@[i].user_id == u);
                        assert(mid.stats@[i].total_characters as int == sum_characters(
                            mid.user_logs(u),
                        ));
                    } else {
                        assert(self.user_logs(u) == mid.user_logs(u));
                        assert(i != idx);
                        assert(self.stats@[i] == mid.stats@[i]);
                    }
                } else {
                    assert(self.logs@ == mid.logs@);
                    assert(self.user_logs(u) == mid.user_logs(u));
                    if u == user_id {
                        assert(i == idx);
                        assert(eff == 0);
                    } else {
                        assert(self.stats@[i] == mid.stats@[i]);
                    }
                }
            }
            // Every log entry still belongs to a known user.
            assert forall|j: int| 0 <= j < self.logs@.len() implies self.has_user(
                (#[trigger] self.logs@[j]).user_id,
            ) by {
                let u = self.logs@[j].user_id;
                if j < mid.logs@.len() {
                    assert(mid.has_user(u));
                    let w = mid.user_index(u);
                    assert(self.stats@[w].user_id == u);
                } else {
                    assert(u == user_id);
                }
            }
            assert forall|u: u64| u != user_id implies self.has_user(u) == mid.has_user(u) by {
                if self.has_user(u) {
                    let w = self.user_index(u);
                    assert(mid.stats@[w].user_id == u);
                }
                if mid.has_user(u) {
                    let w = mid.user_index(u);
                    assert(self.stats@[w].user_id == u);
                }
            }
            assert forall|u: u64| u != user_id && mid.has_user(u) implies self.user_row(u)
                == mid.user_row(u) by {
                let w = mid.user_index(u);
                mid.lemma_user_index_is(u, w);
                self.lemma_user_index_is(u, w);
                assert(w != idx as int);
            }
            assert forall|u: u64| u != user_id implies self.has_user(u) == old(self).has_user(
                u,
            ) by {
                lemma_push_preserves_other_users(*old(self), mid, user_id, u);
            }
            assert forall|u: u64| u != user_id && old(self).has_user(u) implies self.user_row(u)
                == old(self).user_row(u) by {
                lemma_push_preserves_other_users(*old(self), mid, user_id, u);
                assert(mid.has_user(u));
            }
        }
        r
    }
}

impl Ledger {
    /// The aggregate rows that are visible on the leaderboard: active users
    /// with a positive total.
    pub open spec fn leaderboard_rows(self) -> Seq<CharacterStatistics> {
        self.stats@.filter(leaderboard_pred())
    }

    /// The number of active users whose total strictly exceeds `total`.
    pub open spec fn count_active_above(self, total: int) -> int {
        self.stats@.filter(above_pred(total)).len() as int
    }

    /// The rank of a row: one plus the number of active users with a strictly
    /// greater total, so tied users share a rank.
    pub fn get_rank(&self, statistics: &CharacterStatistics) -> (r: i32)
        requires
            self.wf(),
            self.stats@.len() < i32::MAX,
        ensures
            r as int == 1 + self.count_active_above(statistics.total_characters as int),
    {
        let threshold = statistics.total_characters;
        let ghost pred = above_pred(threshold as int);
        let n = self.stats.len();
        let mut count: usize = 0;
        let mut i: usize = 0;
        while i < n
            invariant
                0 <= i <= n,
                n == self.stats@.len(),
                n < i32::MAX,
                pred == above_pred(threshold as int),
                count as int == self.stats@.take(i as int).filter(pred).len(),
                count <= i,
            decreases n - i,
        {
            let row = &self.stats[i];
            proof {
                let prefix = self.stats@.take(i as int);
                let x = self.stats@[i as int];
                assert(self.stats@.take(i as int + 1) =~= prefix.push(x));
                prefix.lemma_filter_push(x, pred);
            }
            if row.is_active && row.total_characters > threshold {
                count = count + 1;
            }
            i = i + 1;
        }
        proof {
            assert(self.stats@.take(n as int) =~= self.stats@);
        }
        count as i32 + 1
    }

    /// The number of users counted by the leaderboard.
    pub fn get_total_active_users(&self) -> (r: u64)
        requires
            self.wf(),
        ensures
            r as int == self.leaderboard_rows().len(),
    {
        let ghost pred = leaderboard_pred();
        let n = self.stats.len();
        let mut count: usize = 0;
        let mut i: usize = 0;
        while i < n
            invariant
                0 <= i <= n,
                n == self.stats@.len(),
                pred == leaderboard_pred(),
                count as int == self.stats@.take(i as int).filter(pred).len(),
                count <= i,
            decreases n - i,
        {
            let row = &self.stats[i];
            proof {
                let prefix = self.stats@.take(i as int);
                let x = self.stats@[i as int];
                assert(self.stats@.take(i as int + 1) =~= prefix.push(x));
                prefix.lemma_filter_push(x, pred);
            }
            if row.is_active && row.total_characters > 0 {
                count = count + 1;
            }
            i = i + 1;
        }
        proof {
            assert(self.stats@.take(n as int) =~= self.stats@);
        }
        count as u64
    }

    /// The number of log entries a user has.
    pub fn get_total_log_entries(&self, user_id: u64) -> (r: u64)
        requires
            self.wf(),
        ensures
            r as int == self.user_logs(user_id).len(),
    {
        let ghost pred = user_log_pred(user_id);
        let n = self.logs.len();
        let mut count: usize = 0;
        let mut i: usize = 0;
        while i < n
            invariant
                0 <= i <= n,
                n == self.logs@.len(),
                pred == user_log_pred(user_id),
                count as int == self.logs@.take(i as int).filter(pred).len(),
                count <= i,
            decreases n - i,
        {
            proof {
                let prefix = self.logs@.take(i as int);
                let x = self.logs@[i as int];
                assert(self.logs@.take(i as int + 1) =~= prefix.push(x));
                prefix.lemma_filter_push(x, pred);
            }
            if self.logs[i].user_id == user_id {
                count = count + 1;
            }
            i = i + 1;
        }
        proof {
            assert(self.logs@.take(n as int) =~= self.logs@);
        }
        count as u64
    }

    /// Marks a user active or inactive (and optionally refreshes the display
    /// name); a no-op for an unknown user, which never creates a row.
    pub fn set_active_status(&mut self, user_id: u64, active: bool, latest_name: Option<&str>)
        requires
            old(self).wf(),
        ensures
            final(self).wf(),
            final(self).logs@ == old(self).logs@,
            !old(self).has_user(user_id) ==> *final(self) == *old(self),
            old(self).has_user(user_id) ==> {
                let idx = old(self).user_index(user_id);
                &&& final(self).stats@.len() == old(self).stats@.len()
                &&& forall|i: int|
                    0 <= i < old(self).stats@.len() && i != idx ==> final(self).stats@[i] == old(
                        self,
                    ).stats@[i]
                &&& final(self).stats@[idx].user_id == user_id
                &&& final(self).stats@[idx].total_characters == old(self).stats@[idx].total_characters
                &&& final(self).stats@[idx].is_active == active
                &&& (match latest_name {
                    Some(n) => final(self).stats@[idx].name@ == n@,
                    None => final(self).stats@[idx].name == old(self).stats@[idx].name,
                })
            },
            forall|u: u64| final(self).has_user(u) == old(self).has_user(u),
            forall|u: u64| final(self).total_of(u) == old(self).total_of(u),
    {
        match self.find_user(user_id) {
            Some(i) => {
                self.stats[i].is_active = active;
                match latest_name {
                    Some(n) => {
                        self.stats[i].name = n.to_owned();
                    },
                    None => {},
                }
                proof {
                    let oldl = *old(self);
                    assert(self.stats@.len() == oldl.stats@.len());
                    assert(forall|k: int|
                        0 <= k < self.stats@.len() ==> (#[trigger] self.stats@[k]).user_id
                            == oldl.stats@[k].user_id);
                    assert(forall|k: int|
                        0 <= k < self.stats@.len() ==> (#[trigger] self.stats@[k]).total_characters
                            == oldl.stats@[k].total_characters);
                    assert forall|i2: int| 0 <= i2 < self.stats@.len() implies (
                    #[trigger] self.stats@[i2]).total_characters as int == sum_characters(
                        self.user_logs(self.stats@[i2].user_id),
                    ) by {
                        assert(self.user_logs(self.stats@[i2].user_id) == oldl.user_logs(
                            oldl.stats@[i2].user_id,
                        ));
                    }
                    assert forall|j: int| 0 <= j < self.logs@.len() implies self.has_user(
                        (#[trigger] self.logs@[j]).user_id,
                    ) by {
                        let w = oldl.user_index(self.logs@[j].user_id);
                        assert(self.stats@[w].user_id == self.logs@[j].user_id);
                    }
                    assert forall|u: u64| self.has_user(u) == oldl.has_user(u) by {
                        if self.has_user(u) {
                            let w = self.user_index(u);
                            assert(oldl.stats@[w].user_id == u);
                        }
                        if oldl.has_user(u) {
                            let w = oldl.user_index(u);
                            assert(self.stats@[w].user_id == u);
                        }
                    }
                    assert forall|u: u64| self.total_of(u) == oldl.total_of(u) by {
                        if self.has_user(u) {
                            let w = self.user_index(u);
                            self.lemma_user_index_is(u, w);
                            oldl.lemma_user_index_is(u, w);
                        }
                    }
                }
            },
            None => {},
        }
    }
}

/// Rows shown per leaderboard page.
pub const LEADERBOARD_PAGE_SIZE: u64 = 15;

/// Entries shown per log-history page.
pub const LOG_ENTRY_PAGE_SIZE: u64 = 15;

/// Leaderboard order: total descending, then user id ascending, so that ties
/// paginate deterministically.
pub open spec fn leaderboard_before(a: CharacterStatistics, b: CharacterStatistics) -> bool {
    a.total_characters > b.total_characters || (a.total_characters == b.total_characters
        && a.user_id <= b.user_id)
}

pub open spec fn leaderboard_order() -> spec_fn(CharacterStatistics, CharacterStatistics) -> bool {
    |a: CharacterStatistics, b: CharacterStatistics| leaderboard_before(a, b)
}

/// Row order for the identifier scan used by the activity reconciler.
pub open spec fn id_before(a: CharacterStatistics, b: CharacterStatistics) -> bool {
    a.user_id <= b.user_id
}

pub open spec fn id_order() -> spec_fn(CharacterStatistics, CharacterStatistics) -> bool {
    |a: CharacterStatistics, b: CharacterStatistics| id_before(a, b)
}

/// Log-history order: newest first — time descending, later entries ahead on
/// equal timestamps.
pub open spec fn log_before(a: CharacterLogEntry, b: CharacterLogEntry) -> bool {
    a.time > b.time || (a.time == b.time && a.id >= b.id)
}

pub open spec fn log_order() -> spec_fn(CharacterLogEntry, CharacterLogEntry) -> bool {
    |a: CharacterLogEntry, b: CharacterLogEntry| log_before(a, b)
}

impl Ledger {
    /// The whole leaderboard, in leaderboard order.
    pub open spec fn spec_leaderboard(self) -> Seq<CharacterStatistics> {
        sort_by_insertion(self.leaderboard_rows(), leaderboard_order())
    }

    /// Every aggregate row, ordered by user id.
    pub open spec fn spec_users_by_id(self) -> Seq<CharacterStatistics> {
        sort_by_insertion(self.stats@, id_order())
    }

    /// One user's log history, newest first.
    pub open spec fn spec_log_history(self, user_id: u64) -> Seq<CharacterLogEntry> {
        sort_by_insertion(self.user_logs(user_id), log_order())
    }
}

/// The insertion point for `x` under the leaderboard order: the first index
/// whose row is not strictly ahead of `x`.
fn leaderboard_insert_pos(v: &Vec<CharacterStatistics>, x: &CharacterStatistics) -> (k: usize)
    ensures
        k <= v@.len(),
        forall|m: int| 0 <= m < k ==> !leaderboard_before(*x, #[trigger] v@[m]),
        k < v@.len() ==> leaderboard_before(*x, v@[k as int]),
{
    let n = v.len();
    let mut k: usize = 0;
    while k < n
        invariant
            0 <= k <= n,
            n == v@.len(),
            forall|m: int| 0 <= m < k ==> !leaderboard_before(*x, #[trigger] v@[m]),
        decreases n - k,
    {
        let row = &v[k];
        if x.total_characters > row.total_characters || (x.total_characters
            == row.total_characters && x.user_id <= row.user_id) {
            return k;
        }
        k = k + 1;
    }
    k
}

fn id_insert_pos(v: &Vec<CharacterStatistics>, x: &CharacterStatistics) -> (k: usize)
    ensures
        k <= v@.len(),
        forall|m: int| 0 <= m < k ==> !id_before(*x, #[trigger] v@[m]),
        k < v@.len() ==> id_before(*x, v@[k as int]),
{
    let n = v.len();
    let mut k: usize = 0;
    while k < n
        invariant
            0 <= k <= n,
            n == v@.len(),
            forall|m: int| 0 <= m < k ==> !id_before(*x, #[trigger] v@[m]),
        decreases n - k,
    {
        if x.user_id <= v[k].user_id {
            return k;
        }
        k = k + 1;
    }
    k
}

fn log_insert_pos(v: &Vec<CharacterLogEntry>, x: &CharacterLogEntry) -> (k: usize)
    ensures
        k <= v@.len(),
        forall|m: int| 0 <= m < k ==> !log_before(*x, #[trigger] v@[m]),
        k < v@.len() ==> log_before(*x, v@[k as int]),
{
    let n = v.len();
    let mut k: usize = 0;
    while k < n
        invariant
            0 <= k <= n,
            n == v@.len(),
            forall|m: int| 0 <= m < k ==> !log_before(*x, #[trigger] v@[m]),
        decreases n - k,
    {
        let row = &v[k];
        if x.time > row.time || (x.time == row.time && x.id >= row.id) {
            return k;
        }
        k = k + 1;
    }
    k
}

/// The page of `v` selected by offset/limit pagination, taking the vector.
fn page_slice<A>(v: Vec<A>, page_number: u64, page_size: u64) -> (r: Vec<A>)
    requires
        0 < page_size <= usize::MAX,
    ensures
        r@ =~= page_window(v@, page_number as int, page_size as int),
{
    let ghost orig = v@;
    let mut v = v;
    proof {
        assert(page_number as int * page_size as int <= u128::MAX as int) by (nonlinear_arith)
            requires
                page_number <= u64::MAX,
                page_size <= u64::MAX,
        ;
    }
    let off: u128 = page_number as u128 * page_size as u128;
    if off >= v.len() as u128 {
        proof {
            assert(page_window(orig, page_number as int, page_size as int) =~= Seq::<A>::empty());
        }
        Vec::new()
    } else {
        let off_us: usize = off as usize;
        let mut r = v.split_off(off_us);
        let size_us: usize = page_size as usize;
        if r.len() > size_us {
            r.truncate(size_us);
        }
        proof {
            assert(r@ =~= page_window(orig, page_number as int, page_size as int));
        }
        r
    }
}

impl Ledger {
    /// The full leaderboard as a vector: visible rows in leaderboard order.
    fn build_leaderboard(&self) -> (r: Vec<CharacterStatistics>)
        ensures
            r@ == self.spec_leaderboard(),
    {
        let n = self.stats.len();
        let mut r: Vec<CharacterStatistics> = Vec::new();
        let mut i: usize = 0;
        while i < n
            invariant
                0 <= i <= n,
                n == self.stats@.len(),
                r@ == sort_by_insertion(
                    self.stats@.take(i as int).filter(leaderboard_pred()),
                    leaderboard_order(),
                ),
            decreases n - i,
        {
            let row = &self.stats[i];
            proof {
                let prefix = self.stats@.take(i as int);
                let x = self.stats@[i as int];
                assert(self.stats@.take(i as int + 1) =~= prefix.push(x));
                prefix.lemma_filter_push(x, leaderboard_pred());
                if x.is_active && x.total_characters > 0 {
                    let f = prefix.filter(leaderboard_pred());
                    assert(f.push(x).drop_last() =~= f);
                    assert(f.push(x).last() == x);
                }
            }
            if row.is_active && row.total_characters > 0 {
                let x = row.clone();
                let ghost gx = x;
                let k = leaderboard_insert_pos(&r, &x);
                let ghost rold = r@;
                r.insert(k, x);
                proof {
                    assert(forall|m: int|
                        0 <= m < k ==> !(leaderboard_order()(gx, #[trigger] rold[m])));
                    lemma_insert_sorted_position(gx, rold, leaderboard_order(), k as int);
                }
            }
            i = i + 1;
        }
        proof {
            assert(self.stats@.take(n as int) =~= self.stats@);
        }
        r
    }

    /// One leaderboard page: active users with a positive total, ordered by
    /// total descending then user id ascending, `LEADERBOARD_PAGE_SIZE` rows
    /// per page.
    pub fn get_paginated_active_users_by_characters(&self, page_number: u64) -> (r: Vec<
        CharacterStatistics,
    >)
        requires
            self.wf(),
        ensures
            r@ =~= page_window(
                self.spec_leaderboard(),
                page_number as int,
                LEADERBOARD_PAGE_SIZE as int,
            ),
    {
        let full = self.build_leaderboard();
        page_slice(full, page_number, LEADERBOARD_PAGE_SIZE)
    }

    /// Every aggregate row ordered by user id.
    fn build_users_by_id(&self) -> (r: Vec<CharacterStatistics>)
        ensures
            r@ == self.spec_users_by_id(),
    {
        let n = self.stats.len();
        let mut r: Vec<CharacterStatistics> = Vec::new();
        let mut i: usize = 0;
        while i < n
            invariant
                0 <= i <= n,
                n == self.stats@.len(),
                r@ == sort_by_insertion(self.stats@.take(i as int), id_order()),
            decreases n - i,
        {
            proof {
                let prefix = self.stats@.take(i as int);
                let x = self.stats@[i as int];
                assert(self.stats@.take(i as int + 1) =~= prefix.push(x));
                assert(prefix.push(x).drop_last() =~= prefix);
                assert(prefix.push(x).last() == x);
            }
            let x = self.stats[i].clone();
            let ghost gx = x;
            let k = id_insert_pos(&r, &x);
            let ghost rold = r@;
            r.insert(k, x);
            proof {
                assert(forall|m: int| 0 <= m < k ==> !(id_order()(gx, #[trigger] rold[m])));
                lemma_insert_sorted_position(gx, rold, id_order(), k as int);
            }
            i = i + 1;
        }
        proof {
            assert(self.stats@.take(n as int) =~= self.stats@);
        }
        r
    }

    /// One page of the id-ordered row scan, `LEADERBOARD_PAGE_SIZE` rows per
    /// page; the activity reconciler walks these pages.
    pub fn get_paginated_users_by_id(&self, page_number: u64) -> (r: Vec<CharacterStatistics>)
        requires
            self.wf(),
        ensures
            r@ =~= page_window(
                self.spec_users_by_id(),
                page_number as int,
                LEADERBOARD_PAGE_SIZE as int,
            ),
    {
        let full = self.build_users_by_id();
        page_slice(full, page_number, LEADERBOARD_PAGE_SIZE)
    }

    /// One user's log history, newest entries first.
    fn build_log_history(&self, user_id: u64) -> (r: Vec<CharacterLogEntry>)
        ensures
            r@ == self.spec_log_history(user_id),
    {
        let n = self.logs.len();
        let mut r: Vec<CharacterLogEntry> = Vec::new();
        let mut i: usize = 0;
        while i < n
            invariant
                0 <= i <= n,
                n == self.logs@.len(),
                r@ == sort_by_insertion(
                    self.logs@.take(i as int).filter(user_log_pred(user_id)),
                    log_order(),
                ),
            decreases n - i,
        {
            let entry = &self.logs[i];
            proof {
                let prefix = self.logs@.take(i as int);
                let x = self.logs@[i as int];
                assert(self.logs@.take(i as int + 1) =~= prefix.push(x));
                prefix.lemma_filter_push(x, user_log_pred(user_id));
                if x.user_id == user_id {
                    let f = prefix.filter(user_log_pred(user_id));
                    assert(f.push(x).drop_last() =~= f);
                    assert(f.push(x).last() == x);
                }
            }
            if entry.user_id == user_id {
                let x = entry.clone();
                let ghost gx = x;
                let k = log_insert_pos(&r, &x);
                let ghost rold = r@;
                r.insert(k, x);
                proof {
                    assert(forall|m: int| 0 <= m < k ==> !(log_order()(gx, #[trigger] rold[m])));
                    lemma_insert_sorted_position(gx, rold, log_order(), k as int);
                }
            }
            i = i + 1;
        }
        proof {
            assert(self.logs@.take(n as int) =~= self.logs@);
        }
        r
    }

    /// One page of a user's log history, newest first,
    /// `LOG_ENTRY_PAGE_SIZE` entries per page.
    pub fn get_paginated_log_entries_by_time(&self, user_id: u64, page_number: u64) -> (r: Vec<
        CharacterLogEntry,
    >)
        requires
            self.wf(),
        ensures
            r@ =~= page_window(
                self.spec_log_history(user_id),
                page_number as int,
                LOG_ENTRY_PAGE_SIZE as int,
            ),
    {
        let full = self.build_log_history(user_id);
        page_slice(full, page_number, LOG_ENTRY_PAGE_SIZE)
    }
}

impl Ledger {
    /// The leaderboard model really is ordered — by total descending, user
    /// id ascending — and holds exactly the visible rows.
    pub proof fn lemma_leaderboard_ordered(self)
        ensures
            sorted_by(self.spec_leaderboard(), leaderboard_order()),
            self.spec_leaderboard().to_multiset() == self.leaderboard_rows().to_multiset(),
    {
        assert forall|a: CharacterStatistics, b: CharacterStatistics| #[trigger] leaderboard_order()(
            a,
            b,
        ) || #[trigger] leaderboard_order()(b, a) by {
            assert(leaderboard_order()(a, b) == leaderboard_before(a, b));
            assert(leaderboard_order()(b, a) == leaderboard_before(b, a));
        }
        assert forall|a: CharacterStatistics, b: CharacterStatistics, c: CharacterStatistics|
            #[trigger] leaderboard_order()(a, b) && #[trigger] leaderboard_order()(b, c) implies leaderboard_order()(
            a,
            c,
        ) by {
            assert(leaderboard_order()(a, b) == leaderboard_before(a, b));
            assert(leaderboard_order()(b, c) == leaderboard_before(b, c));
            assert(leaderboard_order()(a, c) == leaderboard_before(a, c));
        }
        lemma_sort_by_insertion_sorted(self.leaderboard_rows(), leaderboard_order());
        lemma_sort_by_insertion_multiset(self.leaderboard_rows(), leaderboard_order());
    }

    /// The id-ordered scan really is ordered by user id and holds exactly
    /// the stored rows.
    pub proof fn lemma_users_by_id_ordered(self)
        ensures
            sorted_by(self.spec_users_by_id(), id_order()),
            self.spec_users_by_id().to_multiset() == self.stats@.to_multiset(),
    {
        assert forall|a: CharacterStatistics, b: CharacterStatistics| #[trigger] id_order()(a, b)
            || #[trigger] id_order()(b, a) by {
            assert(id_order()(a, b) == id_before(a, b));
            assert(id_order()(b, a) == id_before(b, a));
        }
        assert forall|a: CharacterStatistics, b: CharacterStatistics, c: CharacterStatistics|
            #[trigger] id_order()(a, b) && #[trigger] id_order()(b, c) implies id_order()(a, c) by {
            assert(id_order()(a, b) == id_before(a, b));
            assert(id_order()(b, c) == id_before(b, c));
            assert(id_order()(a, c) == id_before(a, c));
        }
        lemma_sort_by_insertion_sorted(self.stats@, id_order());
        lemma_sort_by_insertion_multiset(self.stats@, id_order());
    }

    /// A user's log history really is ordered newest first and holds exactly
    /// that user's entries.
    pub proof fn lemma_log_history_ordered(self, user_id: u64)
        ensures
            sorted_by(self.spec_log_history(user_id), log_order()),
            self.spec_log_history(user_id).to_multiset() == self.user_logs(user_id).to_multiset(),
    {
        assert forall|a: CharacterLogEntry, b: CharacterLogEntry| #[trigger] log_order()(a, b)
            || #[trigger] log_order()(b, a) by {
            assert(log_order()(a, b) == log_before(a, b));
            assert(log_order()(b, a) == log_before(b, a));
        }
        assert forall|a: CharacterLogEntry, b: CharacterLogEntry, c: CharacterLogEntry|
            #[trigger] log_order()(a, b) && #[trigger] log_order()(b, c) implies log_order()(
            a,
            c,
        ) by {
            assert(log_order()(a, b) == log_before(a, b));
            assert(log_order()(b, c) == log_before(b, c));
            assert(log_order()(a, c) == log_before(a, c));
        }
        lemma_sort_by_insertion_sorted(self.user_logs(user_id), log_order());
        lemma_sort_by_insertion_multiset(self.user_logs(user_id), log_order());
    }

    /// The ledger invariant, stated for every user: a running total never
    /// goes below zero, and always equals the sum of that user's persisted
    /// (post-clamp) deltas.
    pub proof fn lemma_total_is_log_sum(self, user_id: u64)
        requires
            self.wf(),
        ensures
            self.total_of(user_id) >= 0,
            self.total_of(user_id) == sum_characters(self.user_logs(user_id)),
    {
        if self.has_user(user_id) {
            let i = self.user_index(user_id);
            assert(0 <= i < self.stats@.len() && self.stats@[i].user_id == user_id);
        } else {
            self.lemma_absent_user_has_no_logs(user_id);
        }
    }
}

/// Inserting a row for one user leaves every other user's presence unchanged.
proof fn lemma_push_preserves_other_users(pre: Ledger, post: Ledger, user_id: u64, u: u64)
    requires
        u != user_id,
        pre.has_user(user_id) ==> post == pre,
        !pre.has_user(user_id) ==> post.stats@.len() == pre.stats@.len() + 1 && post.stats@.subrange(
            0,
            pre.stats@.len() as int,
        ) =~= pre.stats@ && post.stats@.last().user_id == user_id,
    ensures
        post.has_user(u) == pre.has_user(u),
        pre.has_user(u) && (forall|a: int, b: int|
            0 <= a < b < pre.stats@.len() ==> (#[trigger] pre.stats@[a]).user_id != (
            #[trigger] pre.stats@[b]).user_id) ==> post.user_row(u) == pre.user_row(u),
{
    if !pre.has_user(user_id) {
        if pre.has_user(u) {
            let w = pre.user_index(u);
            assert(post.stats@[w] == pre.stats@[w]);
        }
        if post.has_user(u) {
            let w = post.user_index(u);
            assert(w < pre.stats@.len());
            assert(pre.stats@[w] == post.stats@[w]);
        }
    }
    if pre.has_user(u) && (forall|a: int, b: int|
        0 <= a < b < pre.stats@.len() ==> (#[trigger] pre.stats@[a]).user_id != (
        #[trigger] pre.stats@[b]).user_id) {
        if !pre.has_user(user_id) {
            let w = pre.user_index(u);
            assert(post.stats@[w] == pre.stats@[w]);
            assert forall|a: int, b: int|
                0 <= a < b < post.stats@.len() implies (#[trigger] post.stats@[a]).user_id != (
            #[trigger] post.stats@[b]).user_id by {
                if b < pre.stats@.len() {
                    assert(post.stats@[a] == pre.stats@[a]);
                    assert(post.stats@[b] == pre.stats@[b]);
                } else {
                    assert(post.stats@[b].user_id == user_id);
                    assert(post.stats@[a] == pre.stats@[a]);
                    assert(pre.stats@[a].user_id != user_id);
                }
            }
            post.lemma_user_index_is(u, w);
        }
    }
}

/// Filtering a sequence with a predicate that no element satisfies yields the
/// empty sequence.
proof fn lemma_filter_no_match<A>(s: Seq<A>, pred: spec_fn(A) -> bool)
    requires
        forall|i: int| 0 <= i < s.len() ==> !pred(#[trigger] s[i]),
    ensures
        s.filter(pred) =~= Seq::<A>::empty(),
    decreases s.len(),
{
    reveal(Seq::filter);
    if s.len() > 0 {
        lemma_filter_no_match(s.drop_last(), pred);
    }
}

} // verus!
