//! The transport envelope.
//!
//! A `Packet` carries an onion blob between the routing components: a
//! correlation id generated once per sender-initiated send and threaded
//! unchanged through every relay hop, the recipient and sender
//! identities, and the opaque onion body. A `Message` is the final
//! plaintext recovered at the destination.

use vstd::prelude::*;

verus! {

use sphinx_packet::SphinxPacket;

/// The final plaintext: an optional sender identity and a body.
pub struct Message {
    pub from: Option<String>,
    pub body: String,
}

/// The envelope for one hop of routed traffic.
pub struct Packet {
    pub id: String,
    pub to: String,
    pub from: String,
    pub body: SphinxPacket,
}

/// Relies on `uuid::Uuid::new_v4` and its hyphenated text form: a fresh
/// correlation id of 36 characters.
#[verifier::external_body]
fn fresh_correlation_id() -> (r: String)
    ensures
        r@.len() == 36,
{
    uuid::Uuid::new_v4().to_string()
}

impl Packet {
    /// An envelope with a freshly generated correlation id.
    pub fn new(to: &String, from: &String, body: SphinxPacket) -> (r: Self)
        ensures
            r.id@.len() == 36,
            r.to@ == to@,
            r.from@ == from@,
            r.body == body,
    {
        let id = fresh_correlation_id();
        Packet { id, to: to.clone(), from: from.clone(), body }
    }

    /// An envelope that keeps a correlation id already assigned.
    pub fn new_with_id(id: &String, to: &String, from: &String, body: SphinxPacket) -> (r: Self)
        ensures
            r.id@ == id@,
            r.to@ == to@,
            r.from@ == from@,
            r.body == body,
    {
        Packet { id: id.clone(), to: to.clone(), from: from.clone(), body }
    }

    /// The correlation id.
    pub fn id(&self) -> (r: &String)
        ensures
            r == self.id,
    {
        &self.id
    }

    /// The recipient identity.
    pub fn to(&self) -> (r: &String)
        ensures
            r == self.to,
    {
        &self.to
    }

    /// The sender identity: the original sender at the first hop, the
    /// forwarding relay afterwards.
    pub fn from(&self) -> (r: &String)
        ensures
            r == self.from,
    {
        &self.from
    }

    /// The onion body.
    pub fn body(&self) -> (r: &SphinxPacket)
        ensures
            r == self.body,
    {
        &self.body
    }

    /// Split the envelope into its fields.
    pub fn take(self) -> (r: (String, String, String, SphinxPacket))
        ensures
            r.0 == self.id,
            r.1 == self.to,
            r.2 == self.from,
            r.3 == self.body,
    {
        (self.id, self.to, self.from, self.body)
    }
}

} // verus!
