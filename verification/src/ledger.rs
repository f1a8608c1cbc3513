//! The cache together with the store behind it, and what the two add up to.
//!
//! The store is modelled as a map from users to balances, in which a user
//! without a row holds nothing. The steps below are those a caller takes
//! around the cache: read the store on a miss, write back what `fetch` hands
//! out, and let the store take an amount from a user that is not resident.
//! The laws at the end say that balances kept this way are those of a plain
//! ledger that knows no cache.

use crate::energy::{
    admitted, all_cleaned, at_risk, clean_record, cleaned, distinct, flush_owed, lemma_absent,
    lemma_admitted_lookup, lemma_admitted_well_formed, lemma_all_cleaned_lookup, lemma_owing_step,
    lemma_promoted_lookup, lemma_rank, lemma_settled_lookup, lowered, owing, promoted, raised, rank,
    record_of, resident, settled, well_formed, EnergyData,
};
use vstd::prelude::*;

verus! {

/// The balance the store holds for `user_id`: that of its row, or nothing.
pub open spec fn stored(store: Map<u64, u64>, user_id: u64) -> u64 {
    if store.contains_key(user_id) {
        store[user_id]
    } else {
        0
    }
}

/// The store after `record` was written to it.
pub open spec fn written(store: Map<u64, u64>, record: EnergyData) -> Map<u64, u64> {
    store.insert(record.user_id, record.energy)
}

/// The store after the records of `batch` were written to it, first to last.
pub open spec fn written_all(store: Map<u64, u64>, batch: Seq<EnergyData>) -> Map<u64, u64>
    decreases batch.len(),
{
    if batch.len() == 0 {
        store
    } else {
        written(written_all(store, batch.drop_last()), batch.last())
    }
}

/// Whether the store takes `amount` from `user_id`: it does from a row that
/// holds at least that much.
pub open spec fn takes(store: Map<u64, u64>, user_id: u64, amount: u64) -> bool {
    store.contains_key(user_id) && store[user_id] >= amount
}

/// The store after it was asked to take `amount` from `user_id`.
pub open spec fn taken(store: Map<u64, u64>, user_id: u64, amount: u64) -> Map<u64, u64> {
    if takes(store, user_id, amount) {
        store.insert(user_id, (store[user_id] - amount) as u64)
    } else {
        store
    }
}

/// A cache of capacity `cap` and the store behind it.
pub struct Books {
    pub cache: Seq<EnergyData>,
    pub cap: nat,
    pub store: Map<u64, u64>,
}

/// What is asked of a user's balance.
pub enum Op {
    Get,
    AddOne,
    Consume(u64),
}

/// The balance of `user_id` as the books have it: the resident record's, or
/// else the store's.
pub open spec fn balance(books: Books, user_id: u64) -> u64 {
    if resident(books.cache, user_id) {
        record_of(books.cache, user_id).energy
    } else {
        stored(books.store, user_id)
    }
}

/// The cache is in good order, and every record that owes nothing holds
/// what the store holds.
pub open spec fn coherent(books: Books) -> bool {
    &&& well_formed(books.cache, books.cap)
    &&& forall|i: int|
        0 <= i < books.cache.len() && !(#[trigger] books.cache[i]).is_dirty ==> stored(
            books.store,
            books.cache[i].user_id,
        ) == books.cache[i].energy
}

/// The books after a miss on `user_id` was made good: the balance is read
/// from the store; if `fetch` hands out a record, that record is written and
/// settled; then the balance comes in.
pub open spec fn fetched(books: Books, user_id: u64) -> Books {
    let incoming = clean_record(user_id, stored(books.store, user_id));
    match flush_owed(books.cache, books.cap, user_id) {
        Some(owed) => Books {
            cache: admitted(settled(books.cache, owed), books.cap, incoming),
            store: written(books.store, owed),
            ..books
        },
        None => Books { cache: admitted(books.cache, books.cap, incoming), ..books },
    }
}

/// The books with `user_id` resident: as they are, or after the miss was
/// made good.
pub open spec fn warmed(books: Books, user_id: u64) -> Books {
    if resident(books.cache, user_id) {
        books
    } else {
        fetched(books, user_id)
    }
}

/// The books after `op` was carried out for `user_id`.
pub open spec fn applied(books: Books, user_id: u64, op: Op) -> Books {
    match op {
        Op::Get => {
            if resident(books.cache, user_id) {
                Books { cache: promoted(books.cache, record_of(books.cache, user_id)), ..books }
            } else {
                fetched(books, user_id)
            }
        },
        Op::AddOne => {
            let warm = warmed(books, user_id);
            Books { cache: promoted(warm.cache, raised(record_of(warm.cache, user_id))), ..warm }
        },
        Op::Consume(amount) => {
            if !resident(books.cache, user_id) {
                Books { store: taken(books.store, user_id, amount), ..books }
            } else if record_of(books.cache, user_id).energy > amount {
                Books {
                    cache: promoted(books.cache, lowered(record_of(books.cache, user_id), amount)),
                    ..books
                }
            } else {
                books
            }
        },
    }
}

/// The books after everything owed was written back: the cache's snapshot
/// goes to the store in one batch.
pub open spec fn flushed(books: Books) -> Books {
    Books {
        cache: all_cleaned(books.cache),
        store: written_all(books.store, all_cleaned(owing(books.cache))),
        ..books
    }
}

/// A balance in a ledger without a cache, after `op`: an amount is taken
/// from a balance that holds at least that much.
pub open spec fn ledger_after(held: int, op: Op) -> int {
    match op {
        Op::Get => held,
        Op::AddOne => held + 1,
        Op::Consume(amount) => if held >= amount {
            held - amount
        } else {
            held
        },
    }
}

/// The operations that the books carry out as the ledger does. A balance at
/// the top of its range takes no further unit. A resident balance is
/// refused an amount equal to it, which the ledger would grant.
pub open spec fn in_step(books: Books, user_id: u64, op: Op) -> bool {
    match op {
        Op::Get => true,
        Op::AddOne => balance(books, user_id) < u64::MAX,
        Op::Consume(amount) => !(resident(books.cache, user_id) && amount > 0 && record_of(
            books.cache,
            user_id,
        ).energy == amount),
    }
}

/// The books after `ops` were carried out for `user_id`, first to last.
pub open spec fn applied_all(books: Books, user_id: u64, ops: Seq<Op>) -> Books
    decreases ops.len(),
{
    if ops.len() == 0 {
        books
    } else {
        applied(applied_all(books, user_id, ops.drop_last()), user_id, ops.last())
    }
}

/// A ledger balance after `ops`, first to last.
pub open spec fn ledger_after_all(held: int, ops: Seq<Op>) -> int
    decreases ops.len(),
{
    if ops.len() == 0 {
        held
    } else {
        ledger_after(ledger_after_all(held, ops.drop_last()), ops.last())
    }
}

/// Every operation of `ops` is one the books carry out as the ledger does.
pub open spec fn all_in_step(books: Books, user_id: u64, ops: Seq<Op>) -> bool
    decreases ops.len(),
{
    ops.len() == 0 || (all_in_step(books, user_id, ops.drop_last()) && in_step(
        applied_all(books, user_id, ops.drop_last()),
        user_id,
        ops.last(),
    ))
}

/// The record that `fetch` hands out is the only one in the way: once it is
/// settled, nothing is owed and the newcomer comes in.
pub proof fn lemma_one_flush_makes_room(s: Seq<EnergyData>, cap: nat, user_id: u64)
    requires
        well_formed(s, cap),
        flush_owed(s, cap, user_id) is Some,
    ensures
        well_formed(settled(s, flush_owed(s, cap, user_id).unwrap()), cap),
        flush_owed(settled(s, flush_owed(s, cap, user_id).unwrap()), cap, user_id) is None,
        at_risk(settled(s, flush_owed(s, cap, user_id).unwrap()), cap, user_id) == Some(
            cleaned(flush_owed(s, cap, user_id).unwrap()),
        ),
{
    let owed = flush_owed(s, cap, user_id).unwrap();
    let t = settled(s, owed);
    if resident(s, user_id) {
        lemma_settled_lookup(s, owed, user_id);
    } else {
        lemma_rank(s, s.len() - 1);
        lemma_settled_lookup(s, owed, owed.user_id);
        lemma_settled_lookup(s, owed, user_id);
        assert(rank(t, owed.user_id) == s.len() - 1);
    }
}

/// A record that owes a write-back never leaves the cache: when `fetch`
/// lets a newcomer in, every record that owed a write-back before is still
/// there, and the record that left, if one did, owed nothing.
pub proof fn lemma_nothing_owed_is_lost(s: Seq<EnergyData>, cap: nat, record: EnergyData, i: int)
    requires
        well_formed(s, cap),
        flush_owed(s, cap, record.user_id) is None,
        0 <= i < s.len(),
        s[i].is_dirty,
    ensures
        admitted(s, cap, record).contains(s[i]),
{
    let t = admitted(s, cap, record);
    lemma_rank(s, i);
    if resident(s, record.user_id) {
        let r = rank(s, record.user_id);
        assert(s[r].user_id == record.user_id);
        lemma_rank(s, r);
        assert(i != r);
        let m = if i < r {
            i + 1
        } else {
            i
        };
        assert(t[m] == s[i]);
    } else if s.len() > 0 && s.len() >= cap {
        assert(i != s.len() - 1);
        assert(t[i + 1] == s[i]);
    } else {
        assert(t[i + 1] == s[i]);
    }
}

/// Making a miss good takes one write-back or none: one, of the record that
/// `fetch` hands out, if the record that has to leave owes a write-back,
/// and none if it owes nothing or if no record has to leave.
pub proof fn lemma_fetched_writes_at_most_once(books: Books, user_id: u64)
    requires
        coherent(books),
    ensures
        fetched(books, user_id).store == match at_risk(books.cache, books.cap, user_id) {
            Some(leaving) => if leaving.is_dirty {
                written(books.store, leaving)
            } else {
                books.store
            },
            None => books.store,
        },
{
}

/// Making a miss good leaves the books coherent, with the user resident at
/// the balance it had, and every other user at the balance it had.
pub proof fn lemma_fetched(books: Books, user_id: u64, other: u64)
    requires
        coherent(books),
        !resident(books.cache, user_id),
    ensures
        coherent(fetched(books, user_id)),
        resident(fetched(books, user_id).cache, user_id),
        record_of(fetched(books, user_id).cache, user_id) == clean_record(
            user_id,
            stored(books.store, user_id),
        ),
        balance(fetched(books, user_id), other) == balance(books, other),
{
    let s = books.cache;
    let cap = books.cap;
    let incoming = clean_record(user_id, stored(books.store, user_id));
    let after = fetched(books, user_id);
    lemma_absent(s, user_id);
    match flush_owed(s, cap, user_id) {
        Some(owed) => {
            let mid = settled(s, owed);
            lemma_one_flush_makes_room(s, cap, user_id);
            lemma_rank(s, s.len() - 1);
            lemma_settled_lookup(s, owed, user_id);
            lemma_settled_lookup(s, owed, other);
            lemma_settled_lookup(s, owed, owed.user_id);
            lemma_admitted_well_formed(mid, cap, incoming);
            lemma_admitted_lookup(mid, cap, incoming, other);
            assert(after.store == written(books.store, owed));
            assert forall|i: int|
                0 <= i < after.cache.len() && !(#[trigger] after.cache[i]).is_dirty implies stored(
                after.store,
                after.cache[i].user_id,
            ) == after.cache[i].energy by {
                if i > 0 {
                    assert(after.cache[i] == mid[i - 1]);
                    assert(mid[i - 1] == s[i - 1]);
                    assert(s[i - 1].user_id != s[s.len() - 1].user_id);
                }
            }
        },
        None => {
            lemma_admitted_well_formed(s, cap, incoming);
            lemma_admitted_lookup(s, cap, incoming, other);
            assert forall|i: int|
                0 <= i < after.cache.len() && !(#[trigger] after.cache[i]).is_dirty implies stored(
                after.store,
                after.cache[i].user_id,
            ) == after.cache[i].energy by {
                if i > 0 {
                    assert(after.cache[i] == s[i - 1]);
                }
            }
            if s.len() > 0 && s.len() >= cap {
                lemma_rank(s, s.len() - 1);
            }
        },
    }
}

/// Putting a record of a resident user in its user's place leaves the books
/// coherent if the record owes a write-back or holds what the store holds;
/// every other user keeps its balance.
pub proof fn lemma_replaced(books: Books, record: EnergyData, other: u64)
    requires
        coherent(books),
        resident(books.cache, record.user_id),
        record.is_dirty || stored(books.store, record.user_id) == record.energy,
    ensures
        coherent(Books { cache: promoted(books.cache, record), ..books }),
        balance(Books { cache: promoted(books.cache, record), ..books }, record.user_id)
            == record.energy,
        other != record.user_id ==> balance(
            Books { cache: promoted(books.cache, record), ..books },
            other,
        ) == balance(books, other),
{
    let s = books.cache;
    let t = promoted(s, record);
    let r = rank(s, record.user_id);
    lemma_promoted_lookup(s, record, other);
    lemma_promoted_lookup(s, record, record.user_id);
    assert forall|i: int| 0 <= i < t.len() && !(#[trigger] t[i]).is_dirty implies stored(
        books.store,
        t[i].user_id,
    ) == t[i].energy by {
        if i > 0 {
            assert(t[i] == s.remove(r)[i - 1]);
            assert(s.remove(r)[i - 1] == s[if i - 1 < r {
                i - 1
            } else {
                i
            }]);
        }
    }
}

/// One operation: the books stay coherent, the user's balance moves as the
/// ledger's does, and every other user keeps its balance.
pub proof fn lemma_applied(books: Books, user_id: u64, op: Op, other: u64)
    requires
        coherent(books),
        in_step(books, user_id, op),
    ensures
        coherent(applied(books, user_id, op)),
        balance(applied(books, user_id, op), user_id) == ledger_after(
            balance(books, user_id) as int,
            op,
        ),
        other != user_id ==> balance(applied(books, user_id, op), other) == balance(books, other),
{
    match op {
        Op::Get => {
            if !resident(books.cache, user_id) {
                lemma_fetched(books, user_id, other);
                lemma_fetched(books, user_id, user_id);
            } else {
                let held = record_of(books.cache, user_id);
                let k = rank(books.cache, user_id);
                assert(books.cache[k] == held);
                lemma_replaced(books, held, other);
            }
        },
        Op::AddOne => {
            let warm = warmed(books, user_id);
            if !resident(books.cache, user_id) {
                lemma_fetched(books, user_id, other);
                lemma_fetched(books, user_id, user_id);
            }
            lemma_replaced(warm, raised(record_of(warm.cache, user_id)), other);
        },
        Op::Consume(amount) => {
            if !resident(books.cache, user_id) {
                let after = applied(books, user_id, op);
                lemma_absent(books.cache, user_id);
                assert forall|i: int|
                    0 <= i < after.cache.len() && !(#[trigger] after.cache[i]).is_dirty implies stored(
                    after.store,
                    after.cache[i].user_id,
                ) == after.cache[i].energy by {
                    assert(books.cache[i].user_id != user_id);
                }
            } else if record_of(books.cache, user_id).energy > amount {
                lemma_replaced(books, lowered(record_of(books.cache, user_id), amount), other);
            }
        },
    }
}

/// For any sequence of lookups, additions and withdrawals on one user, the
/// balance that the cache and the store end with is the balance of a plain
/// ledger that took the same operations in the same order. Every other
/// user's balance is untouched.
pub proof fn lemma_books_follow_ledger(books: Books, user_id: u64, ops: Seq<Op>, other: u64)
    requires
        coherent(books),
        all_in_step(books, user_id, ops),
    ensures
        coherent(applied_all(books, user_id, ops)),
        balance(applied_all(books, user_id, ops), user_id) == ledger_after_all(
            balance(books, user_id) as int,
            ops,
        ),
        other != user_id ==> balance(applied_all(books, user_id, ops), other) == balance(
            books,
            other,
        ),
    decreases ops.len(),
{
    if ops.len() > 0 {
        lemma_books_follow_ledger(books, user_id, ops.drop_last(), other);
        lemma_books_follow_ledger(books, user_id, ops.drop_last(), user_id);
        lemma_applied(applied_all(books, user_id, ops.drop_last()), user_id, ops.last(), other);
    }
}

/// The rows of the store after the records that owe a write-back among the
/// first `k` of `s` were written.
proof fn lemma_written_prefix(store: Map<u64, u64>, s: Seq<EnergyData>, k: int, user_id: u64)
    requires
        distinct(s),
        0 <= k <= s.len(),
    ensures
        stored(written_all(store, all_cleaned(owing(s.take(k)))), user_id) == if exists|i: int|
            0 <= i < k && (#[trigger] s[i]).user_id == user_id && s[i].is_dirty {
            record_of(s, user_id).energy
        } else {
            stored(store, user_id)
        },
    decreases k,
{
    if k == 0 {
        assert(s.take(0) =~= Seq::<EnergyData>::empty());
        assert(owing(s.take(0)) =~= Seq::<EnergyData>::empty());
        assert(all_cleaned(owing(s.take(0))) =~= Seq::<EnergyData>::empty());
    } else {
        lemma_written_prefix(store, s, k - 1, user_id);
        lemma_owing_step(s, k - 1);
        let before = all_cleaned(owing(s.take(k - 1)));
        let now = all_cleaned(owing(s.take(k)));
        if s[k - 1].is_dirty {
            assert(now =~= before.push(cleaned(s[k - 1])));
            assert(now.drop_last() =~= before);
            lemma_rank(s, k - 1);
            if s[k - 1].user_id == user_id {
                assert(s[k - 1].user_id == user_id && s[k - 1].is_dirty);
            } else {
                if exists|i: int| 0 <= i < k && (#[trigger] s[i]).user_id == user_id && s[i].is_dirty {
                    let i = choose|i: int|
                        0 <= i < k && (#[trigger] s[i]).user_id == user_id && s[i].is_dirty;
                    assert(i < k - 1);
                }
            }
        } else {
            assert(now == before);
            if exists|i: int| 0 <= i < k && (#[trigger] s[i]).user_id == user_id && s[i].is_dirty {
                let i = choose|i: int|
                    0 <= i < k && (#[trigger] s[i]).user_id == user_id && s[i].is_dirty;
                assert(i < k - 1);
            }
        }
    }
}

/// Once everything owed is written back, the store alone holds every
/// user's balance, and the books hold what they held.
pub proof fn lemma_flushed(books: Books, user_id: u64)
    requires
        coherent(books),
    ensures
        coherent(flushed(books)),
        stored(flushed(books).store, user_id) == balance(books, user_id),
        balance(flushed(books), user_id) == balance(books, user_id),
{
    let s = books.cache;
    let after = flushed(books);
    assert(s.take(s.len() as int) =~= s);
    lemma_written_prefix(books.store, s, s.len() as int, user_id);
    lemma_all_cleaned_lookup(s, user_id);
    if resident(s, user_id) {
        let r = rank(s, user_id);
        lemma_rank(s, r);
    } else {
        lemma_absent(s, user_id);
    }
    assert forall|i: int|
        0 <= i < after.cache.len() && !(#[trigger] after.cache[i]).is_dirty implies stored(
        after.store,
        after.cache[i].user_id,
    ) == after.cache[i].energy by {
        lemma_written_prefix(books.store, s, s.len() as int, s[i].user_id);
        lemma_rank(s, i);
    }
}

} // verus!
