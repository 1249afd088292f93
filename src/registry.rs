//! The registry of waiting parties: at most one pending waiter per identifier.
use std::collections::HashMap;
use std::sync::Arc;
use tokio::sync::Notify;
use vstd::prelude::*;

use crate::wake::{new_handle, share_handle};

verus! {

broadcast use vstd::std_specs::hash::group_hash_axioms;

/// The identifier that two parties share to meet.
pub type UniqueId = u32;

/// A registered waiter: the ticket that names this attempt, and the handle
/// that the matching party fires.
pub struct Pending {
    pub ticket: u64,
    pub handle: Arc<Notify>,
}

/// What a caller of `take_or_register` becomes.
pub enum Role {
    /// A waiter was pending: its entry is gone, and this is its handle to fire.
    Matcher(Arc<Notify>),
    /// None was pending: this caller is now registered under `ticket`, and
    /// waits on `handle`.
    Waiter { ticket: u64, handle: Arc<Notify> },
}

/// The waiting parties, each keyed by its identifier.
///
/// Every attempt that registers receives a ticket that no earlier attempt
/// had, so a waiter can tell its own entry from that of a later waiter on the
/// same identifier.
pub struct WaitingParties {
    parties: HashMap<UniqueId, Pending>,
    next_ticket: u64,
}

/// The registry after an arrival on `id`: a pending waiter is taken, or the
/// arriving party is registered under `ticket`.
pub open spec fn after_arrival(m: Map<UniqueId, u64>, id: UniqueId, ticket: u64) -> Map<UniqueId, u64> {
    if m.contains_key(id) {
        m.remove(id)
    } else {
        m.insert(id, ticket)
    }
}

/// Whether the entry under `id` is the one registered under `ticket`.
pub open spec fn owns(m: Map<UniqueId, u64>, id: UniqueId, ticket: u64) -> bool {
    m.contains_key(id) && m[id] == ticket
}

/// The registry after the waiter registered under `ticket` concludes: its
/// entry goes if it is still there.
pub open spec fn after_conclusion(m: Map<UniqueId, u64>, id: UniqueId, ticket: u64) -> Map<UniqueId, u64> {
    if owns(m, id, ticket) {
        m.remove(id)
    } else {
        m
    }
}

/// Every ticket in `m` is below `next`.
pub open spec fn tickets_below(m: Map<UniqueId, u64>, next: u64) -> bool {
    forall|id: UniqueId| #[trigger] m.contains_key(id) ==> m[id] < next
}

impl View for WaitingParties {
    type V = Map<UniqueId, u64>;

    /// The ticket of the pending waiter under each identifier.
    closed spec fn view(&self) -> Map<UniqueId, u64> {
        Map::new(
            |id: UniqueId| self.parties@.contains_key(id),
            |id: UniqueId| self.parties@[id].ticket,
        )
    }
}

impl WaitingParties {
    /// The ticket that the next registration receives; every ticket issued so
    /// far is below it.
    pub closed spec fn next_ticket(&self) -> u64 {
        self.next_ticket
    }

    /// The handle of the waiter pending under `id`.
    pub closed spec fn handle_of(&self, id: UniqueId) -> Arc<Notify> {
        self.parties@[id].handle
    }

    /// Every pending ticket was issued.
    pub open spec fn wf(&self) -> bool {
        tickets_below(self@, self.next_ticket())
    }

    /// An empty registry.
    pub fn new() -> (r: Self)
        ensures
            r@ == Map::<UniqueId, u64>::empty(),
            r.next_ticket() == 0,
            r.wf(),
    {
        let r = WaitingParties { parties: HashMap::new(), next_ticket: 0 };
        proof {
            assert(r@ =~= Map::<UniqueId, u64>::empty());
        }
        r
    }

    /// Whether a waiter is pending under `id`.
    pub fn contains(&self, id: UniqueId) -> (r: bool)
        ensures
            r == self@.contains_key(id),
    {
        self.parties.contains_key(&id)
    }

    /// Whether another registration can be given a fresh ticket.
    pub fn can_register(&self) -> (r: bool)
        ensures
            r == (self.next_ticket() < u64::MAX),
    {
        self.next_ticket < u64::MAX
    }

    /// Removes the waiter pending under `id`, and hands back its handle.
    pub fn take(&mut self, id: UniqueId) -> (r: Option<Arc<Notify>>)
        ensures
            final(self)@ == old(self)@.remove(id),
            final(self).next_ticket() == old(self).next_ticket(),
            old(self).wf() ==> final(self).wf(),
            forall|other: UniqueId| #[trigger] final(self)@.contains_key(other)
                ==> final(self).handle_of(other) == old(self).handle_of(other),
            r == (if old(self)@.contains_key(id) {
                Some(old(self).handle_of(id))
            } else {
                None::<Arc<Notify>>
            }),
    {
        let r = self.parties.remove(&id);
        proof {
            assert(self@ =~= old(self)@.remove(id));
        }
        match r {
            Some(p) => Some(p.handle),
            None => None,
        }
    }

    /// Registers a fresh waiter under `id` with the next ticket, and hands
    /// back that ticket and the handle to wait on.
    pub fn insert(&mut self, id: UniqueId) -> (r: (u64, Arc<Notify>))
        requires
            old(self).next_ticket() < u64::MAX,
        ensures
            r.0 == old(self).next_ticket(),
            final(self)@ == old(self)@.insert(id, r.0),
            final(self).next_ticket() == old(self).next_ticket() + 1,
            final(self).handle_of(id) == r.1,
            old(self).wf() ==> final(self).wf(),
            forall|other: UniqueId| other != id && #[trigger] final(self)@.contains_key(other)
                ==> final(self).handle_of(other) == old(self).handle_of(other),
    {
        let handle = new_handle();
        let ticket = self.next_ticket;
        self.parties.insert(id, Pending { ticket, handle: share_handle(&handle) });
        self.next_ticket = ticket + 1;
        proof {
            assert(self@ =~= old(self)@.insert(id, ticket));
        }
        (ticket, handle)
    }

    /// Removes the entry under `id` if there is one; nothing happens
    /// otherwise. Every other entry keeps its ticket and its handle.
    ///
    /// This drops whichever waiter is pending, whatever its ticket; a waiter
    /// that concludes uses `remove_if_owned`, which leaves a later waiter's
    /// entry alone.
    pub fn remove(&mut self, id: UniqueId)
        ensures
            final(self)@ == old(self)@.remove(id),
            final(self).next_ticket() == old(self).next_ticket(),
            old(self).wf() ==> final(self).wf(),
            !old(self)@.contains_key(id) ==> final(self)@ == old(self)@,
            forall|other: UniqueId| #[trigger] final(self)@.contains_key(other)
                ==> final(self).handle_of(other) == old(self).handle_of(other),
    {
        self.parties.remove(&id);
        proof {
            assert(self@ =~= old(self)@.remove(id));
        }
    }

    /// In one step: takes the waiter pending under `id` if there is one, and
    /// registers the caller under `id` otherwise.
    pub fn take_or_register(&mut self, id: UniqueId) -> (r: Role)
        requires
            old(self)@.contains_key(id) || old(self).next_ticket() < u64::MAX,
        ensures
            final(self)@ == after_arrival(old(self)@, id, old(self).next_ticket()),
            old(self).wf() ==> final(self).wf(),
            forall|other: UniqueId| other != id && #[trigger] final(self)@.contains_key(other)
                ==> final(self).handle_of(other) == old(self).handle_of(other),
            match r {
                Role::Matcher(h) => old(self)@.contains_key(id) && h == old(self).handle_of(id)
                    && final(self).next_ticket() == old(self).next_ticket(),
                Role::Waiter { ticket, handle } => !old(self)@.contains_key(id)
                    && ticket == old(self).next_ticket()
                    && final(self).next_ticket() == old(self).next_ticket() + 1
                    && final(self).handle_of(id) == handle,
            },
    {
        match self.take(id) {
            Some(h) => Role::Matcher(h),
            None => {
                let (ticket, handle) = self.insert(id);
                Role::Waiter { ticket, handle }
            },
        }
    }

    /// Removes the entry under `id` if it is the one registered under
    /// `ticket`, and says whether it was; an entry of another attempt stays.
    pub fn remove_if_owned(&mut self, id: UniqueId, ticket: u64) -> (r: bool)
        ensures
            r == owns(old(self)@, id, ticket),
            final(self)@ == after_conclusion(old(self)@, id, ticket),
            final(self).next_ticket() == old(self).next_ticket(),
            old(self).wf() ==> final(self).wf(),
            forall|other: UniqueId| #[trigger] final(self)@.contains_key(other)
                ==> final(self).handle_of(other) == old(self).handle_of(other),
    {
        let owned = match self.parties.get(&id) {
            Some(p) => p.ticket == ticket,
            None => false,
        };
        if owned {
            self.remove(id);
        }
        proof {
            if !owned {
                assert(self@ =~= old(self)@);
            }
        }
        owned
    }
}

} // verus!
