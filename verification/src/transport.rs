//! The store-and-forward transport.
//!
//! An alternative forwarder with its own buffering policy: packets for a
//! recipient without a live link are appended to that recipient's pending
//! queue, unbounded and in memory. When a link exists, the pending queue
//! is delivered oldest first, followed by the new packet; on the first
//! delivery failure the failed packet is put back at the front of the
//! items not yet attempted and the dead link is discarded. Re-registering
//! replaces the link unconditionally (last register wins) and hands the
//! pending queue back to the caller for flushing.
//!
//! Delivery itself is channel work and happens outside the library: the
//! holder of the transport asks for the batch to attempt, pushes it over
//! the link oldest first, and reports a failure back through `requeue`.

use vstd::prelude::*;

verus! {

use crate::registry::Registry;

/// What buffering a packet does to the pending queues: the packet is
/// appended to its recipient's queue, which is created if absent.
pub open spec fn spec_buffered<T>(
    inboxes: Map<Seq<char>, Seq<T>>,
    to: Seq<char>,
    packet: T,
) -> Map<Seq<char>, Seq<T>> {
    let pending = if inboxes.contains_key(to) {
        inboxes[to]
    } else {
        Seq::empty()
    };
    inboxes.insert(to, pending.push(packet))
}

/// What a failed delivery does to the pending queues: the failed packet,
/// followed by the packets not yet attempted, becomes the recipient's new
/// pending queue.
pub open spec fn spec_requeued<T>(
    inboxes: Map<Seq<char>, Seq<T>>,
    to: Seq<char>,
    failed: T,
    unsent: Seq<T>,
) -> Map<Seq<char>, Seq<T>> {
    inboxes.insert(to, seq![failed] + unsent)
}

/// Law: packets buffered while no link exists come back in arrival
/// order. Two packets forwarded to an absent recipient, then a
/// registration, yield exactly those two packets, oldest first.
pub proof fn lemma_buffering_keeps_order<T>(
    inboxes: Map<Seq<char>, Seq<T>>,
    to: Seq<char>,
    m1: T,
    m2: T,
)
    requires
        !inboxes.contains_key(to),
    ensures
        spec_buffered(spec_buffered(inboxes, to, m1), to, m2)[to] =~= seq![m1, m2],
{
}

/// Law: when delivery of the head of a batch fails, the failed packet
/// stands again at the front of everything not yet attempted, so the
/// order of the batch is kept.
pub proof fn lemma_requeue_keeps_order<T>(
    inboxes: Map<Seq<char>, Seq<T>>,
    to: Seq<char>,
    batch: Seq<T>,
)
    requires
        batch.len() > 0,
    ensures
        spec_requeued(inboxes, to, batch.first(), batch.drop_first())[to] =~= batch,
{
}

/// The store-and-forward forwarder: live links and pending queues, each
/// per recipient identity.
pub struct InboxTransport<T, L> {
    inboxes: Registry<Vec<T>>,
    links: Registry<L>,
}

impl<T, L> InboxTransport<T, L> {
    /// The pending queues, one per recipient that has undelivered packets.
    pub closed spec fn inboxes(self) -> Map<Seq<char>, Seq<T>> {
        Map::new(
            |id: Seq<char>| self.inboxes@.contains_key(id),
            |id: Seq<char>| self.inboxes@[id]@,
        )
    }

    /// The live links.
    pub closed spec fn links(self) -> Map<Seq<char>, L> {
        self.links@
    }

    pub closed spec fn wf(self) -> bool {
        self.inboxes.inv() && self.links.inv()
    }

    /// A transport with no links and no pending queues.
    pub fn new() -> (r: Self)
        ensures
            r.wf(),
            r.inboxes() == Map::<Seq<char>, Seq<T>>::empty(),
            r.links() == Map::<Seq<char>, L>::empty(),
    {
        let r = InboxTransport { inboxes: Registry::new(), links: Registry::new() };
        proof {
            assert(r.inboxes() =~= Map::<Seq<char>, Seq<T>>::empty());
        }
        r
    }

    /// Whether a live link exists for a recipient.
    pub fn has_link(&self, to: &String) -> (r: bool)
        requires
            self.wf(),
        ensures
            r == self.links().contains_key(to@),
    {
        self.links.get(to).is_some()
    }

    /// The live link for a recipient, over which batches are delivered.
    pub fn link_for(&self, to: &String) -> (r: Option<&L>)
        requires
            self.wf(),
        ensures
            match r {
                Some(l) => self.links().contains_key(to@) && *l == self.links()[to@],
                None => !self.links().contains_key(to@),
            },
    {
        self.links.get(to)
    }

    /// Buffer a packet for a recipient without a live link: it joins the
    /// end of the recipient's pending queue.
    pub fn enqueue(&mut self, to: String, packet: T)
        requires
            old(self).wf(),
        ensures
            final(self).wf(),
            final(self).inboxes() == spec_buffered(old(self).inboxes(), to@, packet),
            final(self).links() == old(self).links(),
    {
        let queue: Vec<T> = match self.inboxes.remove(&to) {
            Some(mut queue) => {
                queue.push(packet);
                queue
            },
            None => {
                let mut queue: Vec<T> = Vec::new();
                queue.push(packet);
                queue
            },
        };
        self.inboxes.set(to, queue);
        proof {
            assert(self.inboxes() =~= spec_buffered(old(self).inboxes(), to@, packet));
        }
    }

    /// Take everything owed to a recipient with a live link: the pending
    /// queue, oldest first, followed by the new packet. The caller must
    /// attempt delivery of the batch in order over the link, and report a
    /// failure through `requeue`.
    pub fn take_batch(&mut self, to: &String, packet: T) -> (batch: Vec<T>)
        requires
            old(self).wf(),
            old(self).links().contains_key(to@),
        ensures
            final(self).wf(),
            batch@ == (if old(self).inboxes().contains_key(to@) {
                old(self).inboxes()[to@]
            } else {
                Seq::<T>::empty()
            }).push(packet),
            final(self).inboxes() == old(self).inboxes().remove(to@),
            final(self).links() == old(self).links(),
    {
        let mut batch: Vec<T> = match self.inboxes.remove(to) {
            Some(queue) => queue,
            None => Vec::new(),
        };
        batch.push(packet);
        proof {
            assert(self.inboxes() =~= old(self).inboxes().remove(to@));
        }
        batch
    }

    /// Record a delivery failure: the failed packet, then everything not
    /// yet attempted, becomes the recipient's pending queue, and the dead
    /// link is discarded.
    pub fn requeue(&mut self, to: String, failed: T, mut unsent: Vec<T>)
        requires
            old(self).wf(),
        ensures
            final(self).wf(),
            final(self).inboxes() == spec_requeued(old(self).inboxes(), to@, failed, unsent@),
            final(self).links() == old(self).links().remove(to@),
    {
        let ghost unsent0 = unsent@;
        let ghost failed0 = failed;
        let mut queue: Vec<T> = Vec::new();
        queue.push(failed);
        queue.append(&mut unsent);
        proof {
            assert(queue@ =~= seq![failed0] + unsent0);
        }
        let _ = self.links.remove(&to);
        self.inboxes.set(to, queue);
        proof {
            assert(self.inboxes() =~= spec_requeued(old(self).inboxes(), to@, failed0, unsent0));
        }
    }

    /// Register a recipient's link, replacing any previous one, and hand
    /// back the pending queue, which the caller must flush over the link
    /// oldest first.
    pub fn register(&mut self, id: String, tx: L) -> (pending: Option<Vec<T>>)
        requires
            old(self).wf(),
        ensures
            final(self).wf(),
            final(self).links() == old(self).links().insert(id@, tx),
            final(self).inboxes() == old(self).inboxes().remove(id@),
            match pending {
                Some(queue) => old(self).inboxes().contains_key(id@) && queue@ == old(
                    self,
                ).inboxes()[id@],
                None => !old(self).inboxes().contains_key(id@),
            },
    {
        let pending = self.inboxes.remove(&id);
        self.links.set(id, tx);
        proof {
            assert(self.inboxes() =~= old(self).inboxes().remove(id@));
        }
        pending
    }

    /// Remove a recipient's link; any pending queue is left alone.
    pub fn deregister(&mut self, id: &String)
        requires
            old(self).wf(),
        ensures
            final(self).wf(),
            final(self).links() == old(self).links().remove(id@),
            final(self).inboxes() == old(self).inboxes(),
    {
        let _ = self.links.remove(id);
        proof {
            assert(self.inboxes() =~= old(self).inboxes());
        }
    }
}

} // verus!
