//! A messaging endpoint over pluggable transporters.
//!
//! The endpoint keeps a table of the transporters it registered with, so
//! that it can later deregister. Adding a transporter records its command
//! link after a successful registration; removing one gives the link up
//! only after the transporter confirms the deregistration.

use vstd::prelude::*;

verus! {

use crate::registry::Registry;

/// Registration failure at a transporter: the identity is already held.
#[derive(Debug, PartialEq, Eq)]
pub enum TransporterRegistrationError {
    Conflict(String),
}

/// An endpoint and the transporters it is registered with.
pub struct WhatsApp<L> {
    pub id: String,
    transporters: Registry<L>,
}

impl<L> WhatsApp<L> {
    /// The endpoint's identity.
    pub closed spec fn spec_id(self) -> Seq<char> {
        self.id@
    }

    /// The registered transporters: name to command link.
    pub closed spec fn transporters(self) -> Map<Seq<char>, L> {
        self.transporters@
    }

    pub closed spec fn wf(self) -> bool {
        self.transporters.inv()
    }

    pub fn new(id: &String) -> (r: Self)
        ensures
            r.wf(),
            r.spec_id() == id@,
            r.transporters() == Map::<Seq<char>, L>::empty(),
    {
        WhatsApp { id: id.clone(), transporters: Registry::new() }
    }

    /// Record a transporter whose registration succeeded, replacing any
    /// link recorded under the same name.
    pub fn install_transporter(&mut self, id: String, link: L)
        requires
            old(self).wf(),
        ensures
            final(self).wf(),
            final(self).spec_id() == old(self).spec_id(),
            final(self).transporters() == old(self).transporters().insert(id@, link),
    {
        self.transporters.set(id, link);
    }

    /// Whether a transporter is recorded under this name; deregistration
    /// is only attempted for a recorded one.
    pub fn has_transporter(&self, id: &String) -> (r: bool)
        requires
            self.wf(),
        ensures
            r == self.transporters().contains_key(id@),
    {
        self.transporters.get(id).is_some()
    }

    /// The link of a recorded transporter, to send commands over.
    pub fn transporter_link(&self, id: &String) -> (r: Option<&L>)
        requires
            self.wf(),
        ensures
            match r {
                Some(l) => self.transporters().contains_key(id@) && *l == self.transporters()[id@],
                None => !self.transporters().contains_key(id@),
            },
    {
        self.transporters.get(id)
    }

    /// Drop a transporter whose deregistration was confirmed.
    pub fn remove_transporter(&mut self, id: &String) -> (r: Option<L>)
        requires
            old(self).wf(),
        ensures
            final(self).wf(),
            final(self).spec_id() == old(self).spec_id(),
            final(self).transporters() == old(self).transporters().remove(id@),
            match r {
                Some(l) => old(self).transporters().contains_key(id@) && l == old(
                    self,
                ).transporters()[id@],
                None => !old(self).transporters().contains_key(id@),
            },
    {
        self.transporters.remove(id)
    }
}

} // verus!
