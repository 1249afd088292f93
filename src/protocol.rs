//! The protocol as a sequence of events on the registry, and the laws that
//! hold of every such sequence.
//!
//! A state is the ticket map together with the next ticket to issue, as
//! `WaitingParties` exposes them through its view and `next_ticket`; each
//! step is what `arrive` or `conclude` does to them.
use vstd::prelude::*;

use crate::registry::{after_arrival, after_conclusion, owns, tickets_below, UniqueId};
use crate::rendezvous::{conclusion_outcome, Outcome};

verus! {

/// One step that the registry sees, in the order in which the exclusive
/// sections run.
pub enum Event {
    /// An attempt arrives with `id`; if it registers, it gets the next ticket.
    Arrive { id: UniqueId },
    /// The waiter registered under `ticket` with `id` concludes.
    Conclude { id: UniqueId, ticket: u64 },
}

/// The identifier that an event is about.
pub open spec fn event_id(e: Event) -> UniqueId {
    match e {
        Event::Arrive { id } => id,
        Event::Conclude { id, .. } => id,
    }
}

/// The ticket map and the next ticket after one event.
pub open spec fn step(s: (Map<UniqueId, u64>, u64), e: Event) -> (Map<UniqueId, u64>, u64) {
    match e {
        Event::Arrive { id } => (
            after_arrival(s.0, id, s.1),
            if s.0.contains_key(id) {
                s.1
            } else {
                (s.1 + 1) as u64
            },
        ),
        Event::Conclude { id, ticket } => (after_conclusion(s.0, id, ticket), s.1),
    }
}

/// The ticket map and the next ticket after a sequence of events.
pub open spec fn run(s: (Map<UniqueId, u64>, u64), events: Seq<Event>) -> (Map<UniqueId, u64>, u64)
    decreases events.len(),
{
    if events.len() == 0 {
        s
    } else {
        run(step(s, events[0]), events.drop_first())
    }
}

/// How many events of the sequence are arrivals on `id` that find the entry
/// of the waiter registered under `ticket`, and so take it and fire it.
pub open spec fn takers(s: (Map<UniqueId, u64>, u64), events: Seq<Event>, id: UniqueId, ticket: u64) -> nat
    decreases events.len(),
{
    if events.len() == 0 {
        0
    } else {
        (if events[0] == (Event::Arrive { id }) && owns(s.0, id, ticket) {
            1nat
        } else {
            0nat
        }) + takers(step(s, events[0]), events.drop_first(), id, ticket)
    }
}

/// The sequence holds no conclusion of the waiter registered under `ticket`
/// with `id`.
pub open spec fn no_conclusion_of(events: Seq<Event>, id: UniqueId, ticket: u64) -> bool {
    forall|i: int| 0 <= i < events.len() ==> #[trigger] events[i] != (Event::Conclude { id, ticket })
}

proof fn lemma_rest_has_no_conclusion(events: Seq<Event>, id: UniqueId, ticket: u64)
    requires
        events.len() > 0,
        no_conclusion_of(events, id, ticket),
    ensures
        no_conclusion_of(events.drop_first(), id, ticket),
        events[0] != (Event::Conclude { id, ticket }),
{
    let rest = events.drop_first();
    assert forall|i: int| 0 <= i < rest.len() implies #[trigger] rest[i] != (Event::Conclude {
        id,
        ticket,
    }) by {
        assert(rest[i] == events[i + 1]);
    }
    assert(events[0] == events[0]);
}

/// The entry of the waiter under `ticket` is taken by at most one arrival:
/// once gone it never comes back, since every later registration gets a
/// ticket above it.
proof fn lemma_takers(s: (Map<UniqueId, u64>, u64), events: Seq<Event>, id: UniqueId, ticket: u64)
    requires
        ticket < s.1,
        s.1 + events.len() < u64::MAX,
        no_conclusion_of(events, id, ticket),
    ensures
        !owns(s.0, id, ticket) ==> !owns(run(s, events).0, id, ticket) && takers(
            s,
            events,
            id,
            ticket,
        ) == 0,
        owns(s.0, id, ticket) ==> takers(s, events, id, ticket) == (if owns(
            run(s, events).0,
            id,
            ticket,
        ) {
            0nat
        } else {
            1nat
        }),
    decreases events.len(),
{
    if events.len() > 0 {
        let e = events[0];
        let s1 = step(s, e);
        lemma_rest_has_no_conclusion(events, id, ticket);
        assert(s1.1 >= s.1 && s1.1 <= s.1 + 1);
        if owns(s.0, id, ticket) {
            if e != (Event::Arrive { id }) {
                assert(owns(s1.0, id, ticket));
            } else {
                assert(!owns(s1.0, id, ticket));
            }
        } else {
            assert(!owns(s1.0, id, ticket));
        }
        lemma_takers(s1, events.drop_first(), id, ticket);
    }
}

/// A waiter is matched by exactly one attempt: of the events that follow its
/// registration, up to its own conclusion, at most one arrival takes its
/// entry, and it concludes as matched exactly when one did. In particular a
/// fire is never lost: once its entry is taken, it concludes as matched
/// however its wait ended.
pub proof fn single_matcher(s: (Map<UniqueId, u64>, u64), id: UniqueId, ticket: u64, events: Seq<Event>)
    requires
        tickets_below(s.0, s.1),
        owns(s.0, id, ticket),
        s.1 + events.len() < u64::MAX,
        no_conclusion_of(events, id, ticket),
    ensures
        takers(s, events, id, ticket) <= 1,
        (conclusion_outcome(run(s, events).0, id, ticket) == Outcome::MatchedAsFirst) == (takers(
            s,
            events,
            id,
            ticket,
        ) == 1),
{
    lemma_takers(s, events, id, ticket);
}

/// A fire is never lost: once a matcher has taken the entry of the waiter
/// registered under `ticket`, that waiter concludes as matched, even if its
/// wait saw nothing of the fire and after any later arrivals and
/// conclusions.
pub proof fn no_lost_wakeup(s: (Map<UniqueId, u64>, u64), id: UniqueId, ticket: u64, later: Seq<Event>)
    requires
        tickets_below(s.0, s.1),
        owns(s.0, id, ticket),
        s.1 + later.len() < u64::MAX,
    ensures
        conclusion_outcome(run(step(s, Event::Arrive { id }), later).0, id, ticket)
            == Outcome::MatchedAsFirst,
{
    let s1 = step(s, Event::Arrive { id });
    lemma_gone_stays_gone(s1, id, ticket, later);
}

/// Once the entry of the waiter under `ticket` is gone, nothing brings it
/// back.
proof fn lemma_gone_stays_gone(s: (Map<UniqueId, u64>, u64), id: UniqueId, ticket: u64, events: Seq<Event>)
    requires
        ticket < s.1,
        s.1 + events.len() < u64::MAX,
        !owns(s.0, id, ticket),
    ensures
        !owns(run(s, events).0, id, ticket),
    decreases events.len(),
{
    if events.len() > 0 {
        lemma_gone_stays_gone(step(s, events[0]), id, ticket, events.drop_first());
    }
}

/// Two attempts with the same identifier, none pending before them, end as
/// one matched as first and one matched as second, and leave no entry behind.
pub proof fn pair_meets(s: (Map<UniqueId, u64>, u64), id: UniqueId)
    requires
        !s.0.contains_key(id),
        s.1 < u64::MAX,
    ensures
        ({
            let first = s.1;
            let s1 = step(s, Event::Arrive { id });
            let s2 = step(s1, Event::Arrive { id });
            &&& owns(s1.0, id, first)
            &&& s1.0.contains_key(id)
            &&& conclusion_outcome(s2.0, id, first) == Outcome::MatchedAsFirst
            &&& after_conclusion(s2.0, id, first) == s.0
        }),
{
    let s2 = step(step(s, Event::Arrive { id }), Event::Arrive { id });
    assert(s2.0 =~= s.0);
}

/// After a waiter concludes as timed out, no entry is left under its
/// identifier.
pub proof fn timeout_leaves_no_entry(m: Map<UniqueId, u64>, id: UniqueId, ticket: u64)
    requires
        conclusion_outcome(m, id, ticket) == Outcome::TimedOut,
    ensures
        !after_conclusion(m, id, ticket).contains_key(id),
{
}

/// Events on other identifiers neither see nor change the entry under `id`:
/// afterwards an arrival on `id` takes the same role, and every waiter on
/// `id` concludes the same way, as before them.
pub proof fn identifiers_independent(s: (Map<UniqueId, u64>, u64), id: UniqueId, events: Seq<Event>)
    requires
        forall|i: int| 0 <= i < events.len() ==> event_id(#[trigger] events[i]) != id,
    ensures
        run(s, events).0.contains_key(id) == s.0.contains_key(id),
        s.0.contains_key(id) ==> run(s, events).0[id] == s.0[id],
        forall|ticket: u64| #[trigger] conclusion_outcome(run(s, events).0, id, ticket)
            == conclusion_outcome(s.0, id, ticket),
    decreases events.len(),
{
    if events.len() > 0 {
        let rest = events.drop_first();
        assert forall|i: int| 0 <= i < rest.len() implies event_id(#[trigger] rest[i]) != id by {
            assert(rest[i] == events[i + 1]);
        }
        assert(event_id(events[0]) != id);
        identifiers_independent(step(s, events[0]), id, rest);
    }
}

/// Removal is idempotent: removing an identifier with no entry changes
/// nothing, and concluding twice is concluding once.
pub proof fn cleanup_idempotent(m: Map<UniqueId, u64>, id: UniqueId, ticket: u64)
    ensures
        !m.contains_key(id) ==> m.remove(id) == m,
        m.remove(id).remove(id) == m.remove(id),
        after_conclusion(after_conclusion(m, id, ticket), id, ticket) == after_conclusion(
            m,
            id,
            ticket,
        ),
{
    if !m.contains_key(id) {
        assert(m.remove(id) =~= m);
    }
    assert(m.remove(id).remove(id) =~= m.remove(id));
}

} // verus!
