//! The routing server: the id to live-link registry.
//!
//! Identities register a send-handle to their inbound channel; a
//! duplicate id is rejected and the first registrant's link is kept.
//! Delivery is best effort: a packet for an unregistered or unavailable
//! identity is dropped, never retried and never surfaced to the sender.
//!
//! The link type is a parameter: the library decides who receives a
//! packet, and whoever runs the server pushes it over the chosen link.

use vstd::prelude::*;

verus! {

use crate::packet::Packet;
use crate::registry::Registry;

/// A registration at the server: an identity and an optional send-handle
/// to its inbound channel.
pub struct ServerRegistration<L> {
    pub id: String,
    pub tx: Option<L>,
}

/// Registration failure: the identity is already registered.
#[derive(Debug, PartialEq, Eq)]
pub enum ServerRegistrationError {
    Conflict(String),
}

/// What registering does to the link table: a new identity is added with
/// its link; an identity already held leaves the table unchanged.
pub open spec fn spec_registered<L>(
    links: Map<Seq<char>, Option<L>>,
    id: Seq<char>,
    tx: Option<L>,
) -> Map<Seq<char>, Option<L>> {
    if links.contains_key(id) {
        links
    } else {
        links.insert(id, tx)
    }
}

/// Law: registering the same identity twice keeps the first link. The
/// second registration conflicts, changes nothing, and the link that
/// delivery goes over is still the first one.
pub proof fn lemma_second_register_keeps_link<L>(
    links: Map<Seq<char>, Option<L>>,
    id: Seq<char>,
    tx1: Option<L>,
    tx2: Option<L>,
)
    requires
        !links.contains_key(id),
    ensures
        ({
            let once = spec_registered(links, id, tx1);
            &&& once.contains_key(id)
            &&& spec_registered(once, id, tx2) == once
            &&& once[id] == tx1
        }),
{
}

/// Where a packet goes: over the recipient's live link, or nowhere.
pub enum DeliveryDecision<'a, L> {
    Deliver(&'a L),
    Unavailable,
    NotRegistered,
}

/// The id to live-link registry.
pub struct Server<L> {
    registrations: Registry<Option<L>>,
}

impl<L> Server<L> {
    /// The link table: a map from identity to its optional link.
    pub closed spec fn view(self) -> Map<Seq<char>, Option<L>> {
        self.registrations@
    }

    pub closed spec fn wf(self) -> bool {
        self.registrations.inv()
    }

    /// A server with no registrations.
    pub fn new() -> (r: Self)
        ensures
            r.wf(),
            r@ == Map::<Seq<char>, Option<L>>::empty(),
    {
        Server { registrations: Registry::new() }
    }

    /// Register an identity's link. A duplicate id is a conflict: the
    /// first registration is kept and nothing changes.
    pub fn register(&mut self, registration: ServerRegistration<L>) -> (r: Result<
        (),
        ServerRegistrationError,
    >)
        requires
            old(self).wf(),
        ensures
            final(self).wf(),
            final(self)@ == spec_registered(old(self)@, registration.id@, registration.tx),
            match r {
                Ok(()) => !old(self)@.contains_key(registration.id@),
                Err(e) => old(self)@.contains_key(registration.id@) && (e matches
                    ServerRegistrationError::Conflict(cid) && cid@ == registration.id@),
            },
    {
        let id_for_conflict = registration.id.clone();
        match self.registrations.insert_new(registration.id, registration.tx) {
            Ok(()) => Ok(()),
            Err(()) => Err(ServerRegistrationError::Conflict(id_for_conflict)),
        }
    }

    /// Decide delivery for a packet: the live link of `packet.to` where
    /// one is registered, otherwise the packet is to be dropped.
    pub fn send(&self, packet: &Packet) -> (r: DeliveryDecision<L>)
        requires
            self.wf(),
        ensures
            match r {
                DeliveryDecision::Deliver(l) => self@.contains_key(packet.to@) && self@[packet.to@]
                    == Some(*l),
                DeliveryDecision::Unavailable => self@.contains_key(packet.to@)
                    && self@[packet.to@] is None,
                DeliveryDecision::NotRegistered => !self@.contains_key(packet.to@),
            },
    {
        match self.registrations.get(&packet.to) {
            Some(tx) => match tx {
                Some(l) => DeliveryDecision::Deliver(l),
                None => DeliveryDecision::Unavailable,
            },
            None => DeliveryDecision::NotRegistered,
        }
    }
}

} // verus!
