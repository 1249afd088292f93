//! The arrival protocol: each attempt either matches a pending waiter at once
//! or registers and waits, and a waiter's outcome is settled under the same
//! exclusive access to the registry that matchers take.
use std::sync::Arc;
use tokio::sync::Notify;
use vstd::prelude::*;

use crate::registry::{after_arrival, after_conclusion, owns, Role, UniqueId, WaitingParties};
use crate::wake::fire;

verus! {

/// How one attempt ends.
#[derive(Clone, Copy, Debug, PartialEq, Eq, Structural)]
pub enum Outcome {
    /// It arrived second and fired the waiter's handle.
    MatchedAsSecond,
    /// It arrived first and was matched within its bound.
    MatchedAsFirst,
    /// It arrived first and nobody matched it within its bound.
    TimedOut,
}

/// The status code under which an outcome is reported.
pub open spec fn status_of(o: Outcome) -> u16 {
    match o {
        Outcome::TimedOut => 408,
        _ => 200,
    }
}

impl Outcome {
    /// The status code that reports this outcome: OK for a match, Request
    /// Timeout otherwise.
    pub fn status_code(&self) -> (r: u16)
        ensures
            r == status_of(*self),
    {
        match self {
            Outcome::TimedOut => 408,
            _ => 200,
        }
    }

    /// The message that reports this outcome.
    pub fn message(&self) -> (r: &'static str)
        ensures
            r@ == match *self {
                Outcome::MatchedAsSecond => "Yippee! We connected to another party!\n"@,
                Outcome::MatchedAsFirst => "Hooray! Another party is connected!\n"@,
                Outcome::TimedOut => "Oh no... we timed out waiting for another party\n"@,
            },
    {
        match self {
            Outcome::MatchedAsSecond => "Yippee! We connected to another party!\n",
            Outcome::MatchedAsFirst => "Hooray! Another party is connected!\n",
            Outcome::TimedOut => "Oh no... we timed out waiting for another party\n",
        }
    }
}

/// How a waiter that registered under `ticket` concludes, on the registry as
/// it stands once its wait has ended: if its entry is still there nobody took
/// it, otherwise a matcher took it and fired its handle.
pub open spec fn conclusion_outcome(m: Map<UniqueId, u64>, id: UniqueId, ticket: u64) -> Outcome {
    if owns(m, id, ticket) {
        Outcome::TimedOut
    } else {
        Outcome::MatchedAsFirst
    }
}

/// What an arriving attempt does next.
pub enum Arrival {
    /// It is over, with this outcome.
    Resolved(Outcome),
    /// It waits on `handle` for at most its bound, and then concludes with
    /// `ticket`.
    Waiting { ticket: u64, handle: Arc<Notify> },
}

/// An attempt arrives with `id`: if a waiter is pending under `id`, its entry
/// is taken and its handle fired, and this attempt is matched as second;
/// otherwise this attempt is registered and waits.
pub fn arrive(parties: &mut WaitingParties, id: UniqueId) -> (r: Arrival)
    requires
        old(parties)@.contains_key(id) || old(parties).next_ticket() < u64::MAX,
    ensures
        final(parties)@ == after_arrival(old(parties)@, id, old(parties).next_ticket()),
        old(parties).wf() ==> final(parties).wf(),
        forall|other: UniqueId| other != id && #[trigger] final(parties)@.contains_key(other)
            ==> final(parties).handle_of(other) == old(parties).handle_of(other),
        match r {
            Arrival::Resolved(o) => old(parties)@.contains_key(id) && o == Outcome::MatchedAsSecond
                && final(parties).next_ticket() == old(parties).next_ticket(),
            Arrival::Waiting { ticket, handle } => !old(parties)@.contains_key(id)
                && ticket == old(parties).next_ticket()
                && final(parties).next_ticket() == old(parties).next_ticket() + 1
                && final(parties).handle_of(id) == handle,
        },
{
    match parties.take_or_register(id) {
        Role::Matcher(h) => {
            fire(&h);
            Arrival::Resolved(Outcome::MatchedAsSecond)
        },
        Role::Waiter { ticket, handle } => Arrival::Waiting { ticket, handle },
    }
}

/// The waiter registered under `ticket` with `id` concludes, once its handle
/// has been fired or its bound has passed: its entry, if still there, is
/// removed and it has timed out; if gone, a matcher took it and it is matched.
pub fn conclude(parties: &mut WaitingParties, id: UniqueId, ticket: u64) -> (r: Outcome)
    ensures
        r == conclusion_outcome(old(parties)@, id, ticket),
        final(parties)@ == after_conclusion(old(parties)@, id, ticket),
        final(parties).next_ticket() == old(parties).next_ticket(),
        old(parties).wf() ==> final(parties).wf(),
        r == Outcome::TimedOut ==> !final(parties)@.contains_key(id),
        forall|other: UniqueId| #[trigger] final(parties)@.contains_key(other)
            ==> final(parties).handle_of(other) == old(parties).handle_of(other),
{
    if parties.remove_if_owned(id, ticket) {
        Outcome::TimedOut
    } else {
        Outcome::MatchedAsFirst
    }
}

} // verus!
