//! Serving a request on a balance, step by step.
//!
//! The cache decides and the caller acts. [`EnergyBalance::begin`] takes a
//! request as far as memory goes and says what is needed of the store;
//! the caller gets that done and hands the answer to
//! [`EnergyBalance::resume`], until a step says that the request is done.
//! Between two steps the cache is free for other requests.
//!
//! The law at the end says that a request served this way, with a store that
//! answers as a table of balances does, leaves the books as
//! [`applied`] words it.

use crate::energy::{
    admitted, clean_record, flush_owed, lemma_admitted_well_formed, lemma_rank,
    lemma_settled_lookup, lowered, promoted, raised, record_of, resident, settled, well_formed,
    EnergyBalance, EnergyData,
};
use crate::ledger::{
    applied, balance, coherent, in_step, lemma_one_flush_makes_room, stored, taken, takes,
    written, Books, Op,
};
use vstd::prelude::*;

verus! {

/// What is asked of a user's balance.
#[derive(Debug, Clone, Copy, PartialEq, Eq, Structural)]
pub enum Request {
    /// Look the balance up.
    Get { user_id: u64 },
    /// Add one unit to it.
    AddOne { user_id: u64 },
    /// Take `amount` from it, if it holds enough.
    Consume { user_id: u64, amount: u64 },
}

/// How a request ended.
#[derive(Debug, Clone, Copy, PartialEq, Eq, Structural)]
pub enum Outcome {
    /// The balance that was looked up.
    Energy(u64),
    /// The unit was added.
    Added,
    /// The balance is at the top of its range and takes no further unit.
    Full,
    /// Whether the amount was taken.
    Consumed(bool),
}

/// What comes next in serving a request.
#[derive(Debug, Clone, Copy, PartialEq, Eq, Structural)]
pub enum Step {
    /// The store is to be asked for the balance of `user_id`; the answer is
    /// [`Answer::Balance`].
    Fetch { user_id: u64 },
    /// The store is to be given `record`, which stands in the way of the
    /// balance `energy` that was read; the answer is [`Answer::Written`]
    /// with both.
    Flush { record: EnergyData, energy: u64 },
    /// The store is to take `amount` from `user_id` if its row holds that
    /// much; the answer is [`Answer::Taken`].
    Take { user_id: u64, amount: u64 },
    /// Nothing: the request is done.
    Done(Outcome),
}

/// What the store has done for a step.
#[derive(Debug, Clone, Copy, PartialEq, Eq, Structural)]
pub enum Answer {
    /// The balance that the store holds for the user, nothing for a user
    /// without a row.
    Balance(u64),
    /// `record` was written; `energy` is the balance that waits to come in.
    Written { record: EnergyData, energy: u64 },
    /// Whether the store took the amount.
    Taken(bool),
}

impl Request {
    /// The user whose balance is asked for.
    pub open spec fn user(self) -> u64 {
        match self {
            Request::Get { user_id } => user_id,
            Request::AddOne { user_id } => user_id,
            Request::Consume { user_id, amount } => user_id,
        }
    }

    /// What is asked of the balance.
    pub open spec fn op(self) -> Op {
        match self {
            Request::Get { user_id } => Op::Get,
            Request::AddOne { user_id } => Op::AddOne,
            Request::Consume { user_id, amount } => Op::Consume(amount),
        }
    }

    /// The user whose balance is asked for.
    pub fn user_id(&self) -> (user_id: u64)
        ensures
            user_id == self.user(),
    {
        match self {
            Request::Get { user_id } => *user_id,
            Request::AddOne { user_id } => *user_id,
            Request::Consume { user_id, .. } => *user_id,
        }
    }
}

/// A request taken as far as memory goes: the records afterwards, and the
/// step that comes next. A resident balance answers the request on the
/// spot; a balance that is not resident has to be read from the store, or,
/// for an amount to be taken, is left to the store altogether.
pub open spec fn begun(s: Seq<EnergyData>, request: Request) -> (Seq<EnergyData>, Step) {
    let user_id = request.user();
    let held = record_of(s, user_id);
    match request {
        Request::Get { .. } => if resident(s, user_id) {
            (promoted(s, held), Step::Done(Outcome::Energy(held.energy)))
        } else {
            (s, Step::Fetch { user_id })
        },
        Request::AddOne { .. } => if !resident(s, user_id) {
            (s, Step::Fetch { user_id })
        } else if held.energy == u64::MAX {
            (s, Step::Done(Outcome::Full))
        } else {
            (promoted(s, raised(held)), Step::Done(Outcome::Added))
        },
        Request::Consume { amount, .. } => if !resident(s, user_id) {
            (s, Step::Take { user_id, amount })
        } else if held.energy > amount {
            (promoted(s, lowered(held, amount)), Step::Done(Outcome::Consumed(true)))
        } else {
            (s, Step::Done(Outcome::Consumed(false)))
        },
    }
}

/// The balance `energy`, read from the store, on its way in: if a record
/// that owes a write-back stands in the way, that record is to be written
/// first and nothing changes; else the balance comes in and the request is
/// taken up again.
pub open spec fn let_in(s: Seq<EnergyData>, cap: nat, request: Request, energy: u64) -> (
    Seq<EnergyData>,
    Step,
) {
    match flush_owed(s, cap, request.user()) {
        Some(record) => (s, Step::Flush { record, energy }),
        None => begun(admitted(s, cap, clean_record(request.user(), energy)), request),
    }
}

/// A request taken up again with the store's answer.
pub open spec fn resumed(s: Seq<EnergyData>, cap: nat, request: Request, answer: Answer) -> (
    Seq<EnergyData>,
    Step,
) {
    match answer {
        Answer::Balance(energy) => let_in(s, cap, request, energy),
        Answer::Written { record, energy } => let_in(settled(s, record), cap, request, energy),
        Answer::Taken(done) => (s, Step::Done(Outcome::Consumed(done))),
    }
}

impl EnergyBalance {
    /// Takes a request as far as memory goes and says what comes next.
    pub fn begin(&mut self, request: Request) -> (step: Step)
        requires
            old(self).wf(),
        ensures
            final(self).wf(),
            final(self).cap() == old(self).cap(),
            final(self)@.len() <= final(self).cap(),
            (final(self)@, step) == begun(old(self)@, request),
    {
        proof {
            self.lemma_wf();
        }
        match request {
            Request::Get { user_id } => match self.get(user_id) {
                Some(energy) => Step::Done(Outcome::Energy(energy)),
                None => Step::Fetch { user_id },
            },
            Request::AddOne { user_id } => match self.peek(user_id) {
                None => Step::Fetch { user_id },
                Some(held) => {
                    if held.energy == u64::MAX {
                        Step::Done(Outcome::Full)
                    } else {
                        self.add_one(user_id);
                        Step::Done(Outcome::Added)
                    }
                },
            },
            Request::Consume { user_id, amount } => match self.consume_energy(user_id, amount) {
                Some(done) => Step::Done(Outcome::Consumed(done)),
                None => Step::Take { user_id, amount },
            },
        }
    }

    /// Takes a request up again with the answer of the store to the step
    /// before, and says what comes next.
    pub fn resume(&mut self, request: Request, answer: Answer) -> (step: Step)
        requires
            old(self).wf(),
        ensures
            final(self).wf(),
            final(self).cap() == old(self).cap(),
            final(self)@.len() <= final(self).cap(),
            (final(self)@, step) == resumed(old(self)@, old(self).cap(), request, answer),
    {
        let energy = match answer {
            Answer::Balance(energy) => energy,
            Answer::Written { record, energy } => {
                self.settle(record);
                energy
            },
            Answer::Taken(done) => {
                proof {
                    self.lemma_wf();
                }
                return Step::Done(Outcome::Consumed(done));
            },
        };
        match self.fetch(request.user_id(), energy) {
            Some(record) => Step::Flush { record, energy },
            None => self.begin(request),
        }
    }
}

/// What a store that is a table of balances answers to a step, and the
/// table afterwards.
pub open spec fn answered(store: Map<u64, u64>, step: Step) -> (Map<u64, u64>, Answer) {
    match step {
        Step::Fetch { user_id } => (store, Answer::Balance(stored(store, user_id))),
        Step::Flush { record, energy } => (written(store, record), Answer::Written { record, energy }),
        Step::Take { user_id, amount } => (
            taken(store, user_id, amount),
            Answer::Taken(takes(store, user_id, amount)),
        ),
        Step::Done(outcome) => (store, Answer::Taken(false)),
    }
}

/// The books and the step reached after at most `rounds` more answers of
/// the store.
pub open spec fn driven(books: Books, request: Request, step: Step, rounds: nat) -> (Books, Step)
    decreases rounds,
{
    if rounds == 0 || step is Done {
        (books, step)
    } else {
        let (store, answer) = answered(books.store, step);
        let (cache, next) = resumed(books.cache, books.cap, request, answer);
        driven(Books { cache, store, ..books }, request, next, (rounds - 1) as nat)
    }
}

/// The books and the step reached when a request is begun and the store has
/// answered up to `rounds` times.
pub open spec fn served(books: Books, request: Request, rounds: nat) -> (Books, Step) {
    let (cache, step) = begun(books.cache, request);
    driven(Books { cache, ..books }, request, step, rounds)
}

/// How a request ends that the books carry out as a ledger does.
pub open spec fn due(books: Books, request: Request) -> Outcome {
    match request {
        Request::Get { user_id } => Outcome::Energy(balance(books, user_id)),
        Request::AddOne { user_id } => Outcome::Added,
        Request::Consume { user_id, amount } => Outcome::Consumed(
            if resident(books.cache, user_id) {
                record_of(books.cache, user_id).energy > amount
            } else {
                takes(books.store, user_id, amount)
            },
        ),
    }
}

/// The record in front is where it is put when it is promoted.
proof fn lemma_promoted_in_front(s: Seq<EnergyData>, cap: nat, record: EnergyData)
    requires
        well_formed(s, cap),
    ensures
        promoted(admitted(s, cap, record), record) == admitted(s, cap, record),
{
    let t = admitted(s, cap, record);
    lemma_admitted_well_formed(s, cap, record);
    assert(t[0] == record);
    lemma_rank(t, 0);
    assert(promoted(t, record) =~= t);
}

/// A request that misses is done after the balance was read and let in.
proof fn lemma_let_in(books: Books, request: Request)
    requires
        coherent(books),
        in_step(books, request.user(), request.op()),
        !resident(books.cache, request.user()),
        !(request is Consume),
        flush_owed(books.cache, books.cap, request.user()) is None,
    ensures
        let_in(books.cache, books.cap, request, stored(books.store, request.user())) == (
            applied(books, request.user(), request.op()).cache,
            Step::Done(due(books, request)),
        ),
        applied(books, request.user(), request.op()).store == books.store,
{
    let user_id = request.user();
    let incoming = clean_record(user_id, stored(books.store, user_id));
    lemma_admitted_well_formed(books.cache, books.cap, incoming);
    lemma_promoted_in_front(books.cache, books.cap, incoming);
}

/// A request is done within three answers of the store, and the books are
/// then those that the request leaves by the books' own account; it ends as
/// it is due to.
pub proof fn lemma_served(books: Books, request: Request)
    requires
        coherent(books),
        in_step(books, request.user(), request.op()),
    ensures
        served(books, request, 3) == (
            applied(books, request.user(), request.op()),
            Step::Done(due(books, request)),
        ),
{
    let user_id = request.user();
    let s = books.cache;
    let cap = books.cap;
    let (cache0, step0) = begun(s, request);
    let books0 = Books { cache: cache0, ..books };
    reveal_with_fuel(driven, 4);
    if resident(s, user_id) {
        assert(step0 is Done);
        assert(served(books, request, 3) == (books0, step0));
        assert(books0 == applied(books, user_id, request.op()));
    } else if request is Consume {
        assert(cache0 == s);
        let (store1, answer1) = answered(books.store, step0);
        let (cache1, step1) = resumed(s, cap, request, answer1);
        assert(step1 is Done);
        assert(Books { cache: cache1, store: store1, ..books0 } == applied(
            books,
            user_id,
            request.op(),
        ));
    } else {
        let energy = stored(books.store, user_id);
        assert(step0 == Step::Fetch { user_id });
        let (store1, answer1) = answered(books.store, step0);
        assert(store1 == books.store && answer1 == Answer::Balance(energy));
        let (cache1, step1) = resumed(s, cap, request, answer1);
        let books1 = Books { cache: cache1, store: store1, ..books0 };
        match flush_owed(s, cap, user_id) {
            None => {
                lemma_let_in(books, request);
                assert(step1 is Done);
                assert(books1 == applied(books, user_id, request.op()));
            },
            Some(owed) => {
                assert(step1 == Step::Flush { record: owed, energy });
                assert(cache1 == s);
                let (store2, answer2) = answered(store1, step1);
                assert(store2 == written(books.store, owed));
                let (cache2, step2) = resumed(cache1, cap, request, answer2);
                let books2 = Books { cache: cache2, store: store2, ..books1 };
                let mid = settled(s, owed);
                lemma_one_flush_makes_room(s, cap, user_id);
                lemma_settled_lookup(s, owed, user_id);
                let incoming = clean_record(user_id, energy);
                lemma_admitted_well_formed(mid, cap, incoming);
                lemma_promoted_in_front(mid, cap, incoming);
                assert(step2 is Done);
                assert(books2 == applied(books, user_id, request.op()));
            },
        }
    }
}

} // verus!
