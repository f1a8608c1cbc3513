//! The reconciler of custom-role grants.
//!
//! Once per period the caller takes the lapsed grants out of the directory
//! with [`scan_custom_roles`] and settles them one by one. For each grant it
//! carries out what [`first_action`] asks for and hands the answer to
//! [`resume`], which asks for the next action or says how the grant has
//! fared. A grant on renewal goes through [`renew_role`] and [`reinstate`],
//! a grant to be removed through [`remove_role`]. How one grant fares never
//! decides what happens to the next.

use crate::consts::MONTH_IN_SEC;
use crate::roles::{
    keyed_by_owner, lapsed, lists_lapsed, remaining, CustomRole, UserCustomRole,
};
use crate::text::{decimal, push_decimal};
use std::collections::HashSet;
use vstd::prelude::*;
use vstd::string::*;

verus! {

/// What the caller is to carry out for a grant.
#[derive(Debug, PartialEq, Eq)]
pub enum RoleAction {
    /// Take the renewal fee from the owner's energy.
    Charge { user_id: u64, amount: u64 },
    /// Write the grant, with its new deadline, to the store.
    Persist(CustomRole),
    /// Delete the role at the host and the grant in the store, both,
    /// whatever becomes of either.
    Remove { role_id: u64 },
}

/// How taking the renewal fee went.
#[derive(Debug, Clone, Copy, PartialEq, Eq, Structural)]
pub enum Charge {
    /// The owner held enough and has paid.
    Paid,
    /// The owner did not hold enough.
    Refused,
    /// The balance could not be reached.
    Failed,
}

/// What came of an action.
#[derive(Debug, PartialEq, Eq)]
pub enum RoleAnswer {
    /// How taking the fee went.
    Charged(Charge),
    /// The store was given `role`, the renewed grant, and has taken it or
    /// said why not.
    Persisted { role: CustomRole, outcome: Result<(), String> },
    /// What the host and the store made of their halves of a removal.
    Removed { host: Result<(), String>, store: Result<(), String> },
}

/// Where the settling of a grant stands after an answer.
#[derive(Debug, PartialEq, Eq)]
pub enum RoleStep {
    /// The caller is to carry out one more action.
    Next(RoleAction),
    /// The grant is settled, well or with a report of what went wrong.
    Done(Result<(), String>),
}

/// A grant with its deadline moved to one renewal period after `now`.
pub open spec fn renewed(role: CustomRole, now: u64) -> CustomRole {
    CustomRole { expires_at: Some((now + MONTH_IN_SEC) as u64), ..role }
}

/// What is asked for a lapsed grant to begin with: the fee for a grant on
/// renewal, removal for any other.
pub open spec fn opening(role: CustomRole, renew_fee: u64) -> RoleAction {
    if role.auto_renewal {
        RoleAction::Charge { user_id: role.user_id, amount: renew_fee }
    } else {
        RoleAction::Remove { role_id: role.role_id }
    }
}

/// What is asked for a grant on renewal once the fee was dealt with: the
/// renewed grant is written if the owner has paid, and the grant is removed
/// if not.
pub open spec fn following(role: CustomRole, charge: Charge, now: u64) -> RoleAction {
    if charge == Charge::Paid {
        RoleAction::Persist(renewed(role, now))
    } else {
        RoleAction::Remove { role_id: role.role_id }
    }
}

/// The report on a removal of which at least one half went wrong. It names
/// the role and, each on a line of its own, what the host and what the store
/// said.
pub open spec fn removal_report(
    role_id: u64,
    host: Option<Seq<char>>,
    store: Option<Seq<char>>,
) -> Seq<char> {
    "Fail to remove role <"@ + decimal(role_id as nat) + ">:\n"@ + (match host {
        Some(said) => "- Discord: "@ + said + "\n"@,
        None => Seq::<char>::empty(),
    }) + (match store {
        Some(said) => "- Database: "@ + said + "\n"@,
        None => Seq::<char>::empty(),
    })
}

/// What went wrong, if anything did.
pub open spec fn complaint(outcome: Result<(), String>) -> Option<Seq<char>> {
    match outcome {
        Ok(_) => None,
        Err(said) => Some(said@),
    }
}

/// Takes every grant that has lapsed at `now` out of the directory and hands
/// them back for settling. Grants without a deadline and grants of boosters
/// stay where they are.
pub fn scan_custom_roles(directory: &mut UserCustomRole, boosters: &HashSet<u64>, now: u64) -> (expired:
    Vec<CustomRole>)
    requires
        old(directory).wf(),
    ensures
        final(directory).wf(),
        final(directory)@ == remaining(old(directory)@, boosters@, now),
        lists_lapsed(expired@, old(directory)@, boosters@, now),
{
    directory.extract_expired(boosters, now)
}

/// What to do first about a lapsed grant.
pub fn first_action(role: &CustomRole, renew_fee: u64) -> (action: RoleAction)
    ensures
        action == opening(*role, renew_fee),
{
    if role.auto_renewal {
        RoleAction::Charge { user_id: role.user_id, amount: renew_fee }
    } else {
        RoleAction::Remove { role_id: role.role_id }
    }
}

/// What to do about a grant on renewal once the fee was dealt with.
pub fn renew_role(role: CustomRole, charge: Charge, now: u64) -> (action: RoleAction)
    requires
        now + MONTH_IN_SEC <= u64::MAX,
    ensures
        action == following(role, charge, now),
{
    match charge {
        Charge::Paid => {
            let mut role = role;
            role.expires_at = Some(now + MONTH_IN_SEC);
            RoleAction::Persist(role)
        },
        _ => RoleAction::Remove { role_id: role.role_id },
    }
}

/// Puts a renewed grant back into the directory if the store has taken it.
/// If the store has not, the directory stays without the grant and what the
/// store said is handed on.
pub fn reinstate(directory: &mut UserCustomRole, role: CustomRole, persisted: Result<(), String>) -> (done:
    Result<(), String>)
    requires
        old(directory).wf(),
    ensures
        final(directory).wf(),
        done == persisted,
        final(directory)@ == if persisted is Ok {
            old(directory)@.insert(role.user_id, role)
        } else {
            old(directory)@
        },
{
    match persisted {
        Ok(taken) => {
            directory.update(role);
            Ok(taken)
        },
        Err(said) => Err(said),
    }
}

/// Sums up a removal from what the host and the store made of their halves:
/// all is well if both went through, and one report names everything that
/// went wrong if either did not.
pub fn remove_role(role_id: u64, host: Result<(), String>, store: Result<(), String>) -> (done:
    Result<(), String>)
    ensures
        done is Ok <==> host is Ok && store is Ok,
        done matches Err(report) ==> report@ == removal_report(
            role_id,
            complaint(host),
            complaint(store),
        ),
{
    if host.is_ok() && store.is_ok() {
        return Ok(());
    }
    let mut report = String::from_str("Fail to remove role <");
    push_decimal(&mut report, role_id);
    report.append(">:\n");
    if let Err(said) = &host {
        report.append("- Discord: ");
        report.append(said.as_str());
        report.append("\n");
    }
    if let Err(said) = &store {
        report.append("- Database: ");
        report.append(said.as_str());
        report.append("\n");
    }
    proof {
        assert(report@ =~= removal_report(role_id, complaint(host), complaint(store)));
    }
    Err(report)
}

/// The directory after the answer to an action: a renewed grant that the
/// store has taken is back in it, and nothing else changes it.
pub open spec fn directory_after(directory: Map<u64, CustomRole>, answer: RoleAnswer) -> Map<
    u64,
    CustomRole,
> {
    match answer {
        RoleAnswer::Persisted { role, outcome } => if outcome is Ok {
            directory.insert(role.user_id, role)
        } else {
            directory
        },
        _ => directory,
    }
}

/// Takes the settling of `role`, a grant taken out by a scan at `now`, up
/// again with the answer to the action before, and says what comes next. A
/// fee that was paid leads to the renewed grant being written, any other
/// end of the charge to removal. Writing the renewed grant ends the matter
/// as the store says. A removal ends it well if both halves went through,
/// and with one report of everything that went wrong if not.
pub fn resume(directory: &mut UserCustomRole, role: &CustomRole, answer: RoleAnswer, now: u64) -> (step:
    RoleStep)
    requires
        old(directory).wf(),
        now + MONTH_IN_SEC <= u64::MAX,
    ensures
        final(directory).wf(),
        final(directory)@ == directory_after(old(directory)@, answer),
        match answer {
            RoleAnswer::Charged(charge) => step == RoleStep::Next(following(*role, charge, now)),
            RoleAnswer::Persisted { role: written, outcome } => step == RoleStep::Done(outcome),
            RoleAnswer::Removed { host, store } => step matches RoleStep::Done(done) && (done is Ok
                <==> host is Ok && store is Ok) && (done matches Err(report) ==> report@
                == removal_report(role.role_id, complaint(host), complaint(store))),
        },
{
    match answer {
        RoleAnswer::Charged(charge) => RoleStep::Next(renew_role(role.clone(), charge, now)),
        RoleAnswer::Persisted { role: written, outcome } => RoleStep::Done(
            reinstate(directory, written, outcome),
        ),
        RoleAnswer::Removed { host, store } => RoleStep::Done(remove_role(role.role_id, host, store)),
    }
}

/// A lapsed grant ends in one of two ways. A grant on renewal whose owner
/// has paid is written with its deadline thirty days after the scan and is
/// back in the directory once the store has taken it, and nothing is ever
/// removed for it. Any other grant is removed: right away if it is not on
/// renewal, and after the charge if the owner could not pay or could not be
/// reached.
pub proof fn lemma_renewed_or_removed(
    directory: Map<u64, CustomRole>,
    role: CustomRole,
    renew_fee: u64,
    charge: Charge,
    now: u64,
)
    requires
        now + MONTH_IN_SEC <= u64::MAX,
    ensures
        role.auto_renewal ==> opening(role, renew_fee) == (RoleAction::Charge {
            user_id: role.user_id,
            amount: renew_fee,
        }),
        !role.auto_renewal ==> opening(role, renew_fee) == (RoleAction::Remove {
            role_id: role.role_id,
        }),
        charge == Charge::Paid ==> following(role, charge, now) == RoleAction::Persist(
            renewed(role, now),
        ) && renewed(role, now).expires_at == Some((now + 2_592_000) as u64) && directory_after(
            directory,
            RoleAnswer::Persisted { role: renewed(role, now), outcome: Ok(()) },
        ) == directory.insert(role.user_id, renewed(role, now)),
        charge != Charge::Paid ==> following(role, charge, now) == (RoleAction::Remove {
            role_id: role.role_id,
        }),
{
}

/// A scan at one point in time with the boosters of that time.
pub struct Tick {
    pub boosters: Set<u64>,
    pub now: u64,
}

/// What is left of a directory after the scans of `ticks`, first to last.
pub open spec fn scanned(directory: Map<u64, CustomRole>, ticks: Seq<Tick>) -> Map<u64, CustomRole>
    decreases ticks.len(),
{
    if ticks.len() == 0 {
        directory
    } else {
        remaining(scanned(directory, ticks.drop_last()), ticks.last().boosters, ticks.last().now)
    }
}

/// The grant of a user who boosts is never taken out by a scan, however far
/// past its deadline the grant is and however many scans go by.
pub proof fn lemma_boosted_grant_stays(directory: Map<u64, CustomRole>, user_id: u64, ticks: Seq<Tick>)
    requires
        keyed_by_owner(directory),
        directory.contains_key(user_id),
        forall|i: int| 0 <= i < ticks.len() ==> (#[trigger] ticks[i]).boosters.contains(user_id),
    ensures
        keyed_by_owner(scanned(directory, ticks)),
        scanned(directory, ticks).contains_key(user_id),
        scanned(directory, ticks)[user_id] == directory[user_id],
    decreases ticks.len(),
{
    if ticks.len() > 0 {
        lemma_boosted_grant_stays(directory, user_id, ticks.drop_last());
        assert(ticks.last().boosters.contains(user_id));
        let before = scanned(directory, ticks.drop_last());
        assert(!lapsed(before[user_id], ticks.last().boosters, ticks.last().now));
    }
}

/// A grant without a deadline is never taken out by a scan.
pub proof fn lemma_grant_without_deadline_stays(
    directory: Map<u64, CustomRole>,
    user_id: u64,
    ticks: Seq<Tick>,
)
    requires
        directory.contains_key(user_id),
        directory[user_id].expires_at is None,
    ensures
        scanned(directory, ticks).contains_key(user_id),
        scanned(directory, ticks)[user_id] == directory[user_id],
    decreases ticks.len(),
{
    if ticks.len() > 0 {
        lemma_grant_without_deadline_stays(directory, user_id, ticks.drop_last());
    }
}

} // verus!
