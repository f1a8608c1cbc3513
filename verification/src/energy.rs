//! The energy cache: a bounded write-back cache of per-user balances with
//! least-recently-used eviction.
//!
//! The cache never talks to the store. A lookup that misses tells the caller
//! so; the caller reads the balance from the store and hands it to
//! [`EnergyBalance::fetch`]. A record that still owes a write-back is never
//! dropped: `fetch` hands it out instead, the caller writes it and reports
//! back with [`EnergyBalance::settle`]. The module `serving` strings these
//! steps together.

use crate::recency::{
    has_key, key_at, lru_cap, lru_capacity, lru_entries, lru_get, lru_get_mut, lru_len, lru_new,
    lru_peek, lru_peek_lru, lru_peek_mut, lru_push, lru_values, MAX_CAPACITY,
};
use lru::LruCache;
use vstd::prelude::*;

verus! {

/// One cached balance.
#[derive(Debug, Clone, Copy, PartialEq, Eq, Structural)]
pub struct EnergyData {
    pub user_id: u64,
    pub energy: u64,
    /// The balance differs from what the store holds and owes a write-back.
    pub is_dirty: bool,
}

/// Some record of `s` belongs to `user_id`.
pub open spec fn resident(s: Seq<EnergyData>, user_id: u64) -> bool {
    exists|i: int| 0 <= i < s.len() && (#[trigger] s[i]).user_id == user_id
}

/// The place of `user_id`'s record in `s`, where it has one.
pub open spec fn rank(s: Seq<EnergyData>, user_id: u64) -> int {
    choose|i: int| 0 <= i < s.len() && (#[trigger] s[i]).user_id == user_id
}

/// The record of `user_id` in `s`, where it has one.
pub open spec fn record_of(s: Seq<EnergyData>, user_id: u64) -> EnergyData {
    s[rank(s, user_id)]
}

/// No user has two records in `s`.
pub open spec fn distinct(s: Seq<EnergyData>) -> bool {
    forall|i: int, j: int|
        0 <= i < j < s.len() ==> (#[trigger] s[i]).user_id != (#[trigger] s[j]).user_id
}

/// What holds of the records of a cache of capacity `cap`, most recently
/// used first: there are at most `cap` of them, one per user.
pub open spec fn well_formed(s: Seq<EnergyData>, cap: nat) -> bool {
    &&& 0 < cap
    &&& s.len() <= cap
    &&& distinct(s)
}

/// A record as it comes from the store.
pub open spec fn clean_record(user_id: u64, energy: u64) -> EnergyData {
    EnergyData { user_id, energy, is_dirty: false }
}

/// `s` with `record` in place of its user's old record, as the most recently
/// used one.
pub open spec fn promoted(s: Seq<EnergyData>, record: EnergyData) -> Seq<EnergyData> {
    seq![record] + s.remove(rank(s, record.user_id))
}

/// The record that has to leave `s` for a record of `user_id` to come in:
/// the user's own old record, or else the least recently used one of a full
/// cache.
pub open spec fn at_risk(s: Seq<EnergyData>, cap: nat, user_id: u64) -> Option<EnergyData> {
    if resident(s, user_id) {
        Some(record_of(s, user_id))
    } else if s.len() > 0 && s.len() >= cap {
        Some(s.last())
    } else {
        None
    }
}

/// The write-back that stands in the way of admitting `user_id`.
pub open spec fn flush_owed(s: Seq<EnergyData>, cap: nat, user_id: u64) -> Option<EnergyData> {
    match at_risk(s, cap, user_id) {
        Some(record) => if record.is_dirty {
            Some(record)
        } else {
            None
        },
        None => None,
    }
}

/// `s` after `record` has come in as the most recently used record.
pub open spec fn admitted(s: Seq<EnergyData>, cap: nat, record: EnergyData) -> Seq<EnergyData> {
    if resident(s, record.user_id) {
        promoted(s, record)
    } else if s.len() > 0 && s.len() >= cap {
        seq![record] + s.drop_last()
    } else {
        seq![record] + s
    }
}

/// A record with its write-back done.
pub open spec fn cleaned(record: EnergyData) -> EnergyData {
    EnergyData { is_dirty: false, ..record }
}

/// `s` after the store has taken `written`: the user's record owes nothing
/// more if it still holds the balance that was written.
pub open spec fn settled(s: Seq<EnergyData>, written: EnergyData) -> Seq<EnergyData> {
    if resident(s, written.user_id) && record_of(s, written.user_id).energy == written.energy {
        s.update(rank(s, written.user_id), cleaned(record_of(s, written.user_id)))
    } else {
        s
    }
}

/// A record after one unit was added to its balance.
pub open spec fn raised(record: EnergyData) -> EnergyData {
    EnergyData { energy: (record.energy + 1) as u64, is_dirty: true, ..record }
}

/// A record after `amount` was taken from its balance.
pub open spec fn lowered(record: EnergyData, amount: u64) -> EnergyData {
    EnergyData { energy: (record.energy - amount) as u64, is_dirty: true, ..record }
}

/// The records of `s` that owe a write-back, in the order of `s`.
pub open spec fn owing(s: Seq<EnergyData>) -> Seq<EnergyData> {
    s.filter(|record: EnergyData| record.is_dirty)
}

/// The records of `s`, each with its write-back done.
pub open spec fn all_cleaned(s: Seq<EnergyData>) -> Seq<EnergyData> {
    s.map_values(|record: EnergyData| cleaned(record))
}

/// The records that owe a write-back, taken one more record into `s`.
pub proof fn lemma_owing_step(s: Seq<EnergyData>, i: int)
    requires
        0 <= i < s.len(),
    ensures
        owing(s.take(i + 1)) == if s[i].is_dirty {
            owing(s.take(i)).push(s[i])
        } else {
            owing(s.take(i))
        },
{
    assert(s.take(i + 1) =~= s.take(i).push(s[i]));
    s.take(i).lemma_filter_push(s[i], |record: EnergyData| record.is_dirty);
}

/// In a sequence with one record per user, the place of a user's record is
/// the place where one finds it.
pub proof fn lemma_rank(s: Seq<EnergyData>, i: int)
    requires
        distinct(s),
        0 <= i < s.len(),
    ensures
        resident(s, s[i].user_id),
        rank(s, s[i].user_id) == i,
{
    let j = rank(s, s[i].user_id);
    assert(0 <= j < s.len() && s[j].user_id == s[i].user_id);
    if j < i {
        assert(s[j].user_id != s[i].user_id);
    } else if i < j {
        assert(s[i].user_id != s[j].user_id);
    }
}

/// Admitting a record keeps the cache within its capacity and with one
/// record per user.
pub proof fn lemma_admitted_well_formed(s: Seq<EnergyData>, cap: nat, record: EnergyData)
    requires
        well_formed(s, cap),
    ensures
        well_formed(admitted(s, cap, record), cap),
        resident(admitted(s, cap, record), record.user_id),
        record_of(admitted(s, cap, record), record.user_id) == record,
{
    let t = admitted(s, cap, record);
    if resident(s, record.user_id) {
        let r = rank(s, record.user_id);
        assert forall|i: int, j: int| 0 <= i < j < t.len() implies (#[trigger] t[i]).user_id != (
        #[trigger] t[j]).user_id by {
            lemma_removed_keeps_others(s, r, i - 1);
            lemma_removed_keeps_others(s, r, j - 1);
        }
    } else {
        assert forall|i: int, j: int| 0 <= i < j < t.len() implies (#[trigger] t[i]).user_id != (
        #[trigger] t[j]).user_id by {
            assert(t[j] == s[j - 1]);
            if i > 0 {
                assert(t[i] == s[i - 1]);
            }
        }
    }
    assert(t[0] == record);
    lemma_rank(t, 0);
}

/// What is left of `s` without entry `r`: entry `k` of the rest is entry `k`
/// or `k + 1` of `s`, and belongs to another user than entry `r`.
pub proof fn lemma_removed_keeps_others(s: Seq<EnergyData>, r: int, k: int)
    requires
        distinct(s),
        0 <= r < s.len(),
    ensures
        0 <= k < s.len() - 1 ==> s.remove(r)[k] == s[if k < r {
            k
        } else {
            k + 1
        }] && s.remove(r)[k].user_id != s[r].user_id,
{
    if 0 <= k < s.len() - 1 {
        let src = if k < r {
            k
        } else {
            k + 1
        };
        assert(s.remove(r)[k] == s[src]);
        if src < r {
            assert(s[src].user_id != s[r].user_id);
        } else {
            assert(s[r].user_id != s[src].user_id);
        }
    }
}

/// A user without a record in `s` is at none of its places.
pub proof fn lemma_absent(s: Seq<EnergyData>, user_id: u64)
    ensures
        !resident(s, user_id) <==> forall|i: int|
            0 <= i < s.len() ==> (#[trigger] s[i]).user_id != user_id,
{
}

/// The users with a record among the promoted records are those that had
/// one before, and but for the promoted user each has the record it had.
pub proof fn lemma_promoted_lookup(s: Seq<EnergyData>, record: EnergyData, user_id: u64)
    requires
        distinct(s),
        resident(s, record.user_id),
    ensures
        distinct(promoted(s, record)),
        promoted(s, record).len() == s.len(),
        resident(promoted(s, record), user_id) == resident(s, user_id),
        record_of(promoted(s, record), record.user_id) == record,
        user_id != record.user_id && resident(s, user_id) ==> record_of(
            promoted(s, record),
            user_id,
        ) == record_of(s, user_id),
{
    let t = promoted(s, record);
    let r = rank(s, record.user_id);
    assert forall|i: int, j: int| 0 <= i < j < t.len() implies (#[trigger] t[i]).user_id != (
    #[trigger] t[j]).user_id by {
        lemma_removed_keeps_others(s, r, i - 1);
        lemma_removed_keeps_others(s, r, j - 1);
    }
    assert(t[0] == record);
    lemma_rank(t, 0);
    if resident(s, user_id) && user_id != record.user_id {
        let k = rank(s, user_id);
        let m = if k < r {
            k + 1
        } else {
            k
        };
        lemma_removed_keeps_others(s, r, m - 1);
        assert(t[m] == s[k]);
        lemma_rank(t, m);
    }
    if resident(t, user_id) && user_id != record.user_id {
        let m = rank(t, user_id);
        lemma_removed_keeps_others(s, r, m - 1);
    }
}

/// The users with a record after a newcomer was admitted are the newcomer
/// and those that had one before, but for the user of the record that left;
/// but for the newcomer each has the record it had.
pub proof fn lemma_admitted_lookup(s: Seq<EnergyData>, cap: nat, record: EnergyData, user_id: u64)
    requires
        well_formed(s, cap),
        !resident(s, record.user_id),
    ensures
        resident(admitted(s, cap, record), user_id) == (user_id == record.user_id || (resident(
            s,
            user_id,
        ) && at_risk(s, cap, record.user_id) != Some(record_of(s, user_id)))),
        user_id != record.user_id && resident(admitted(s, cap, record), user_id) ==> record_of(
            admitted(s, cap, record),
            user_id,
        ) == record_of(s, user_id),
{
    let t = admitted(s, cap, record);
    lemma_admitted_well_formed(s, cap, record);
    lemma_absent(s, record.user_id);
    let full = s.len() > 0 && s.len() >= cap;
    if resident(s, user_id) {
        let k = rank(s, user_id);
        lemma_rank(s, k);
        if full && k == s.len() - 1 {
            if resident(t, user_id) {
                let m = rank(t, user_id);
                assert(m > 0);
                assert(t[m] == s[m - 1]);
                lemma_rank(s, m - 1);
            }
        } else {
            assert(t[k + 1] == s[k]);
            lemma_rank(t, k + 1);
            if full {
                lemma_rank(s, s.len() - 1);
            }
        }
    } else {
        lemma_absent(s, user_id);
        if resident(t, user_id) && user_id != record.user_id {
            let m = rank(t, user_id);
            assert(t[m] == s[m - 1]);
        }
    }
}

/// Settling a write-back changes no balance and moves no record; it only
/// marks the written user's record as owing nothing, if its balance is the
/// one that was written.
pub proof fn lemma_settled_lookup(s: Seq<EnergyData>, written: EnergyData, user_id: u64)
    requires
        distinct(s),
    ensures
        distinct(settled(s, written)),
        settled(s, written).len() == s.len(),
        resident(settled(s, written), user_id) == resident(s, user_id),
        resident(s, user_id) ==> rank(settled(s, written), user_id) == rank(s, user_id),
        resident(s, user_id) ==> record_of(settled(s, written), user_id) == if user_id
            == written.user_id && record_of(s, user_id).energy == written.energy {
            cleaned(record_of(s, user_id))
        } else {
            record_of(s, user_id)
        },
{
    let t = settled(s, written);
    assert forall|i: int| 0 <= i < s.len() implies (#[trigger] t[i]).user_id == s[i].user_id by {}
    assert forall|i: int, j: int| 0 <= i < j < t.len() implies (#[trigger] t[i]).user_id != (
    #[trigger] t[j]).user_id by {
        assert(t[i].user_id == s[i].user_id);
        assert(t[j].user_id == s[j].user_id);
    }
    if resident(s, user_id) {
        let k = rank(s, user_id);
        assert(t[k].user_id == user_id);
        lemma_rank(t, k);
        if resident(s, written.user_id) {
            lemma_rank(s, rank(s, written.user_id));
        }
    }
    if resident(t, user_id) {
        let m = rank(t, user_id);
        assert(s[m].user_id == user_id);
    }
}

/// Marking every record as owing nothing changes no balance and moves no
/// record.
pub proof fn lemma_all_cleaned_lookup(s: Seq<EnergyData>, user_id: u64)
    requires
        distinct(s),
    ensures
        distinct(all_cleaned(s)),
        all_cleaned(s).len() == s.len(),
        resident(all_cleaned(s), user_id) == resident(s, user_id),
        resident(s, user_id) ==> record_of(all_cleaned(s), user_id) == cleaned(
            record_of(s, user_id),
        ),
{
    let t = all_cleaned(s);
    assert forall|i: int, j: int| 0 <= i < j < t.len() implies (#[trigger] t[i]).user_id != (
    #[trigger] t[j]).user_id by {
        assert(t[i].user_id == s[i].user_id);
        assert(t[j].user_id == s[j].user_id);
    }
    if resident(s, user_id) {
        let k = rank(s, user_id);
        assert(t[k].user_id == user_id);
        lemma_rank(t, k);
    }
    if resident(t, user_id) {
        let m = rank(t, user_id);
        assert(s[m].user_id == user_id);
    }
}

/// The cache of energy balances.
#[derive(Debug)]
pub struct EnergyBalance {
    balance: LruCache<u64, EnergyData>,
}

impl View for EnergyBalance {
    type V = Seq<EnergyData>;

    /// The resident records, most recently used first.
    closed spec fn view(&self) -> Seq<EnergyData> {
        lru_entries(self.balance).map_values(|entry: (u64, EnergyData)| entry.1)
    }
}

impl EnergyBalance {
    /// The number of records the cache holds at most.
    pub closed spec fn cap(&self) -> nat {
        lru_cap(self.balance)
    }

    /// Every record is stored under its own user, and the records are
    /// `well_formed`.
    pub closed spec fn wf(&self) -> bool {
        &&& well_formed(self@, self.cap())
        &&& forall|i: int|
            0 <= i < lru_entries(self.balance).len() ==> (#[trigger] lru_entries(
                self.balance,
            )[i]).0 == lru_entries(self.balance)[i].1.user_id
    }

    /// A cache in good order holds at most `cap` records, one per user.
    pub proof fn lemma_wf(&self)
        requires
            self.wf(),
        ensures
            well_formed(self@, self.cap()),
    {
    }

    /// An empty cache for at most `cap` records.
    pub fn new(cap: usize) -> (cache: EnergyBalance)
        requires
            0 < cap <= MAX_CAPACITY,
        ensures
            cache.wf(),
            cache@ == Seq::<EnergyData>::empty(),
            cache.cap() == cap,
    {
        let cache = EnergyBalance { balance: lru_new(cap) };
        assert(cache@ =~= Seq::<EnergyData>::empty());
        cache
    }

    /// In a cache in good order, the entry stored under a key is the record
    /// of that user, at the same place.
    proof fn lemma_keys(&self, key: u64)
        requires
            self.wf(),
        ensures
            has_key(lru_entries(self.balance), key) <==> resident(self@, key),
            forall|i: int| #[trigger]
                key_at(lru_entries(self.balance), key, i) ==> rank(self@, key) == i && self@[i]
                    == lru_entries(self.balance)[i].1,
            self@.len() == lru_entries(self.balance).len(),
    {
        let entries = lru_entries(self.balance);
        let s = self@;
        assert forall|i: int| #[trigger] key_at(entries, key, i) implies rank(s, key) == i && s[i]
            == entries[i].1 by {
            assert(s[i].user_id == key);
            lemma_rank(s, i);
        }
        if has_key(entries, key) {
            let i = choose|i: int| key_at(entries, key, i);
            assert(s[i].user_id == key);
        }
        if resident(s, key) {
            let i = rank(s, key);
            assert(key_at(entries, key, i));
        }
    }

    /// The number of resident records, which never exceeds the capacity.
    pub fn len(&self) -> (n: usize)
        requires
            self.wf(),
        ensures
            n == self@.len(),
            n <= self.cap(),
    {
        lru_len(&self.balance)
    }

    /// The capacity the cache was made with.
    pub fn capacity(&self) -> (n: usize)
        ensures
            n == self.cap(),
    {
        lru_capacity(&self.balance)
    }

    /// The resident records, most recently used first.
    pub fn records(&self) -> (records: Vec<EnergyData>)
        ensures
            records@ == self@,
    {
        let records = lru_values(&self.balance);
        assert(records@ =~= self@);
        records
    }

    /// The record of `user_id`, if it is resident. The cache is left as it
    /// is: a peek does not count as a use.
    pub fn peek(&self, user_id: u64) -> (found: Option<EnergyData>)
        requires
            self.wf(),
        ensures
            found == if resident(self@, user_id) {
                Some(record_of(self@, user_id))
            } else {
                None
            },
    {
        proof {
            self.lemma_keys(user_id);
        }
        lru_peek(&self.balance, user_id)
    }

    /// The balance of `user_id`, if it is resident; the record then becomes
    /// the most recently used. `None` is a miss: the caller reads the balance
    /// from the store and hands it to `fetch`.
    pub fn get(&mut self, user_id: u64) -> (energy: Option<u64>)
        requires
            old(self).wf(),
        ensures
            final(self).wf(),
            final(self).cap() == old(self).cap(),
            final(self)@.len() <= final(self).cap(),
            resident(old(self)@, user_id) ==> energy == Some(record_of(old(self)@, user_id).energy)
                && final(self)@ == promoted(old(self)@, record_of(old(self)@, user_id)),
            !resident(old(self)@, user_id) ==> energy is None && final(self)@ == old(self)@,
    {
        proof {
            self.lemma_keys(user_id);
        }
        let ghost before = *self;
        match lru_get(&mut self.balance, user_id) {
            Some(data) => {
                proof {
                    before.lemma_moved_to_front(*self, data);
                }
                Some(data.energy)
            },
            None => None,
        }
    }

    /// What a cache looks like after the entry of `record`'s user was taken
    /// out and `record` put in front.
    proof fn lemma_moved_to_front(&self, after: EnergyBalance, record: EnergyData)
        requires
            self.wf(),
            lru_cap(after.balance) == lru_cap(self.balance),
            exists|i: int| #[trigger]
                key_at(lru_entries(self.balance), record.user_id, i) && lru_entries(after.balance)
                    == seq![(record.user_id, record)] + lru_entries(self.balance).remove(i),
        ensures
            after.wf(),
            after@ == promoted(self@, record),
            after@ == admitted(self@, self.cap(), record),
            resident(self@, record.user_id),
    {
        let key = record.user_id;
        let entries = lru_entries(self.balance);
        let i = choose|i: int| #[trigger]
            key_at(entries, key, i) && lru_entries(after.balance) == seq![(key, record)]
                + entries.remove(i);
        self.lemma_keys(key);
        assert(after@ =~= promoted(self@, record));
        lemma_admitted_well_formed(self@, self.cap(), record);
        assert forall|k: int| 0 <= k < lru_entries(after.balance).len() implies (
        #[trigger] lru_entries(after.balance)[k]).0 == lru_entries(after.balance)[k].1.user_id by {
            if k > 0 {
                assert(lru_entries(after.balance)[k] == entries.remove(i)[k - 1]);
                assert(entries.remove(i)[k - 1] == entries[if k - 1 < i {
                    k - 1
                } else {
                    k
                }]);
            }
        }
    }

    /// Takes in the balance that the store holds for `user_id`, as a record
    /// that owes nothing.
    ///
    /// The record comes in as the most recently used one. If the user had a
    /// record already, that one leaves; else, if the cache is full, the
    /// least recently used record leaves. A record that owes a write-back
    /// does not leave: it is handed out instead and the cache stays as it
    /// was. The caller writes it to the store, calls `settle` with it, and
    /// calls `fetch` again.
    pub fn fetch(&mut self, user_id: u64, energy: u64) -> (owed: Option<EnergyData>)
        requires
            old(self).wf(),
        ensures
            final(self).wf(),
            final(self).cap() == old(self).cap(),
            final(self)@.len() <= final(self).cap(),
            owed == flush_owed(old(self)@, old(self).cap(), user_id),
            owed is Some ==> final(self)@ == old(self)@,
            owed is None ==> final(self)@ == admitted(
                old(self)@,
                old(self).cap(),
                clean_record(user_id, energy),
            ),
    {
        proof {
            self.lemma_keys(user_id);
        }
        let leaving = match lru_peek(&self.balance, user_id) {
            Some(own) => Some(own),
            None => {
                if lru_len(&self.balance) == lru_capacity(&self.balance) {
                    lru_peek_lru(&self.balance)
                } else {
                    None
                }
            },
        };
        assert(leaving == at_risk(self@, self.cap(), user_id));
        if let Some(record) = leaving {
            if record.is_dirty {
                return Some(record);
            }
        }
        let ghost before = *self;
        let record = EnergyData { user_id, energy, is_dirty: false };
        let _ = lru_push(&mut self.balance, user_id, record);
        proof {
            let entries = lru_entries(before.balance);
            if has_key(entries, user_id) {
                before.lemma_moved_to_front(*self, record);
            } else {
                lemma_admitted_well_formed(before@, before.cap(), record);
                assert(self@ =~= admitted(before@, before.cap(), record));
                assert forall|k: int| 0 <= k < lru_entries(self.balance).len() implies (
                #[trigger] lru_entries(self.balance)[k]).0 == lru_entries(
                    self.balance,
                )[k].1.user_id by {
                    if k > 0 {
                        assert(lru_entries(self.balance)[k] == entries[k - 1]);
                    }
                }
            }
        }
        None
    }

    /// Records that the store has taken `written`: the user's record owes
    /// nothing more, unless its balance has changed since. No record moves.
    pub fn settle(&mut self, written: EnergyData)
        requires
            old(self).wf(),
        ensures
            final(self).wf(),
            final(self).cap() == old(self).cap(),
            final(self)@.len() <= final(self).cap(),
            final(self)@ == settled(old(self)@, written),
    {
        proof {
            self.lemma_keys(written.user_id);
        }
        let ghost before = *self;
        match lru_peek_mut(&mut self.balance, written.user_id) {
            Some(data) => {
                if data.energy == written.energy {
                    data.is_dirty = false;
                }
            },
            None => {},
        }
        proof {
            before.lemma_changed_in_place(*self, written.user_id);
            assert(self@ =~= settled(before@, written));
        }
    }

    /// What a cache looks like after the entry under `key` was changed in
    /// place, its user left as it was.
    proof fn lemma_changed_in_place(&self, after: EnergyBalance, key: u64)
        requires
            self.wf(),
            lru_cap(after.balance) == lru_cap(self.balance),
            has_key(lru_entries(self.balance), key) ==> exists|i: int| #[trigger]
                key_at(lru_entries(self.balance), key, i) && lru_entries(after.balance)[i].1.user_id
                    == key && lru_entries(after.balance) == lru_entries(self.balance).update(
                    i,
                    lru_entries(after.balance)[i],
                ) && lru_entries(after.balance)[i].0 == key,
            !has_key(lru_entries(self.balance), key) ==> lru_entries(after.balance) == lru_entries(
                self.balance,
            ),
        ensures
            after.wf(),
            after@.len() == self@.len(),
            resident(self@, key) ==> after@ == self@.update(
                rank(self@, key),
                after@[rank(self@, key)],
            ) && after@[rank(self@, key)] == lru_entries(after.balance)[rank(self@, key)].1,
            !resident(self@, key) ==> after@ == self@,
    {
        let entries = lru_entries(self.balance);
        self.lemma_keys(key);
        if has_key(entries, key) {
            let i = choose|i: int| #[trigger]
                key_at(entries, key, i) && lru_entries(after.balance)[i].1.user_id == key
                    && lru_entries(after.balance) == entries.update(i, lru_entries(after.balance)[i])
                    && lru_entries(after.balance)[i].0 == key;
            assert(after@ =~= self@.update(i, after@[i]));
            assert forall|a: int, b: int| 0 <= a < b < after@.len() implies (
            #[trigger] after@[a]).user_id != (#[trigger] after@[b]).user_id by {
                assert(after@[a].user_id == self@[a].user_id);
                assert(after@[b].user_id == self@[b].user_id);
            }
            assert forall|k: int| 0 <= k < lru_entries(after.balance).len() implies (
            #[trigger] lru_entries(after.balance)[k]).0 == lru_entries(
                after.balance,
            )[k].1.user_id by {
                if k != i {
                    assert(lru_entries(after.balance)[k] == entries[k]);
                }
            }
        } else {
            assert(after@ =~= self@);
        }
    }

    /// Adds one unit to the balance of `user_id`, if it is resident: the
    /// record then owes a write-back and becomes the most recently used.
    /// `false` is a miss, which leaves the cache as it is: the caller reads
    /// the balance from the store, hands it to `fetch`, and calls again.
    pub fn add_one(&mut self, user_id: u64) -> (hit: bool)
        requires
            old(self).wf(),
            resident(old(self)@, user_id) ==> record_of(old(self)@, user_id).energy < u64::MAX,
        ensures
            final(self).wf(),
            final(self).cap() == old(self).cap(),
            final(self)@.len() <= final(self).cap(),
            hit == resident(old(self)@, user_id),
            hit ==> final(self)@ == promoted(old(self)@, raised(record_of(old(self)@, user_id))),
            !hit ==> final(self)@ == old(self)@,
    {
        proof {
            self.lemma_keys(user_id);
        }
        let ghost before = *self;
        let hit = match lru_get_mut(&mut self.balance, user_id) {
            Some(data) => {
                data.energy = data.energy + 1;
                data.is_dirty = true;
                true
            },
            None => false,
        };
        proof {
            if hit {
                before.lemma_moved_to_front(*self, raised(record_of(before@, user_id)));
            }
        }
        hit
    }

    /// Takes `amount` from the balance of `user_id`, if it is resident and
    /// holds more than `amount`: the record then owes a write-back and
    /// becomes the most recently used. A resident balance of `amount` or less
    /// is refused and nothing changes. `None` is a miss, which leaves the
    /// cache as it is: the caller asks the store to take the amount.
    pub fn consume_energy(&mut self, user_id: u64, amount: u64) -> (status: Option<bool>)
        requires
            old(self).wf(),
        ensures
            final(self).wf(),
            final(self).cap() == old(self).cap(),
            final(self)@.len() <= final(self).cap(),
            status == if !resident(old(self)@, user_id) {
                None
            } else {
                Some(record_of(old(self)@, user_id).energy > amount)
            },
            status == Some(true) ==> final(self)@ == promoted(
                old(self)@,
                lowered(record_of(old(self)@, user_id), amount),
            ),
            status != Some(true) ==> final(self)@ == old(self)@,
    {
        proof {
            self.lemma_keys(user_id);
        }
        let ghost before = *self;
        match lru_peek(&self.balance, user_id) {
            None => None,
            Some(held) => {
                if held.energy > amount {
                    match lru_get_mut(&mut self.balance, user_id) {
                        Some(data) => {
                            data.energy = data.energy - amount;
                            data.is_dirty = true;
                        },
                        None => {},
                    }
                    proof {
                        before.lemma_moved_to_front(
                            *self,
                            lowered(record_of(before@, user_id), amount),
                        );
                    }
                    Some(true)
                } else {
                    Some(false)
                }
            },
        }
    }

    /// Takes a snapshot of every record that owes a write-back and marks
    /// them all as owing nothing. The snapshot, most recently used first, is
    /// what the caller writes to the store in one batch. No record moves.
    pub fn sync_energy_data(&mut self) -> (batch: Vec<EnergyData>)
        requires
            old(self).wf(),
        ensures
            final(self).wf(),
            final(self).cap() == old(self).cap(),
            final(self)@.len() <= final(self).cap(),
            final(self)@ == all_cleaned(old(self)@),
            batch@ == all_cleaned(owing(old(self)@)),
    {
        let ghost before = *self;
        let snapshot = lru_values(&self.balance);
        assert(snapshot@ =~= before@);
        let mut batch: Vec<EnergyData> = Vec::new();
        let mut i: usize = 0;
        assert(before@.take(0) =~= Seq::<EnergyData>::empty());
        assert(self@ =~= all_cleaned(before@.take(0)) + before@.skip(0));
        assert(batch@ =~= all_cleaned(owing(before@.take(0))));
        while i < snapshot.len()
            invariant
                before.wf(),
                self.wf(),
                self.cap() == before.cap(),
                snapshot@ == before@,
                0 <= i <= snapshot.len(),
                self@ == all_cleaned(before@.take(i as int)) + before@.skip(i as int),
                batch@ == all_cleaned(owing(before@.take(i as int))),
            decreases snapshot.len() - i,
        {
            let record = snapshot[i];
            let ghost current = *self;
            proof {
                lemma_owing_step(before@, i as int);
                assert(current@[i as int] == before@[i as int]);
                lemma_rank(current@, i as int);
                current.lemma_keys(record.user_id);
            }
            if record.is_dirty {
                match lru_peek_mut(&mut self.balance, record.user_id) {
                    Some(data) => {
                        data.is_dirty = false;
                        batch.push(*data);
                    },
                    None => {},
                }
                proof {
                    current.lemma_changed_in_place(*self, record.user_id);
                }
            }
            proof {
                assert(self@ =~= all_cleaned(before@.take(i + 1)) + before@.skip(i + 1));
                assert(batch@ =~= all_cleaned(owing(before@.take(i + 1))));
            }
            i = i + 1;
        }
        proof {
            assert(before@.take(i as int) =~= before@);
            assert(self@ =~= all_cleaned(before@));
        }
        batch
    }
}

} // verus!
