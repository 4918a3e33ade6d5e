//! The mix-node client: the algorithmic core.
//!
//! A client owns a private key, caches directory records in an address
//! book, answers inbound onion packets (peel one layer, then forward,
//! deliver, or drop), and constructs outbound packets over a route of
//! sampled relays. Everything here is a decision on plain values; channel
//! sends, sleeps and the actual key exchange happen outside, driven by
//! the outcome values these functions return.

use vstd::prelude::*;

verus! {

use sphinx_packet::SphinxPacket;
use x25519_dalek::StaticSecret;

use vstd::utf8::encode_utf8;

use crate::bytes::{
    bytes_to_string_truncate_zeroes, decoded_id, str_to_byte_array_32, IDENTITY_WIRE_LEN,
};
use crate::directory::DirectoryRegistration;
use crate::onion;
use crate::onion::{route_node_wf, OnionError, ProcessedHop, RouteNode};
use crate::packet::Packet;
use crate::registry::Registry;

/// Failure to hand a message to the routing server: its channel is gone.
#[derive(Debug, Clone, Copy, PartialEq, Eq, Structural)]
pub enum ClientSendError {
    ServerChannelClosed,
}

/// Mean of the random per-hop delay, in nanoseconds: one second.
pub const AVERAGE_HOP_DELAY_NANOS: u64 = 1000000000;

/// Out of 100 forward hops, how many a relay actually forwards.
pub const FORWARD_AVAILABILITY_PERCENT: u64 = 70;

/// Fewest address-book entries wanted before a send is attempted.
pub const MIN_ADDRESS_BOOK_ENTRIES: usize = 3;

/// What handling one inbound packet comes to.
pub enum ReceiveStep {
    /// Hand the packet to the server after waiting the delay (nanoseconds).
    Forward(Packet, u64),
    /// The simulated intermittent relay drops this packet.
    Unavailable,
    /// The final plaintext bytes, recovered for this identity.
    Deliver(Vec<u8>),
    /// A final hop addressed to someone else: plaintext forwarding is
    /// refused and the packet dropped.
    RefusePlaintext,
    /// The layer would not process, or its payload is malformed.
    DecodeFailed,
}

/// What a send request comes to.
pub enum SendStep {
    /// The address book is too small: pull a directory snapshot first.
    FetchDirectory,
    /// The recipient is not cached: look its record up, then retry.
    LookupRecipient,
    /// The onion is built: hand the packet to the server. The identities
    /// of the route stand beside it, forward hops first, recipient last.
    Send(Packet, Vec<String>),
    /// An identity on the route exceeds the 32-byte wire form.
    Overflow,
    /// The onion packet could not be constructed.
    ConstructFailed,
}

/// The mix-node actor's state: its identity, key pair and address book.
pub struct Client {
    pub id: String,
    sk: StaticSecret,
    pk: Vec<u8>,
    address_book: Registry<Vec<u8>>,
}

impl Client {
    /// The cached directory records: identity to public-key bytes.
    pub closed spec fn book(self) -> Map<Seq<char>, Seq<u8>> {
        Map::new(
            |id: Seq<char>| self.address_book@.contains_key(id),
            |id: Seq<char>| self.address_book@[id]@,
        )
    }

    /// The client's identity.
    pub closed spec fn spec_id(self) -> Seq<char> {
        self.id@
    }

    /// The public key that belongs to the client's private scalar.
    pub closed spec fn spec_pk(self) -> Seq<u8> {
        self.pk@
    }

    pub closed spec fn wf(self) -> bool {
        &&& self.address_book.inv()
        &&& self.pk@.len() == 32
        &&& forall|id: Seq<char>|
            self.address_book@.contains_key(id) ==> self.address_book@[id]@.len() == 32
    }

    /// A client with a fresh key pair and an empty address book.
    pub fn new(id: String) -> (r: Self)
        ensures
            r.wf(),
            r.spec_id() == id@,
            r.book() == Map::<Seq<char>, Seq<u8>>::empty(),
    {
        let sk = onion::generate_private_key();
        let pk = onion::public_key_of(&sk);
        let r = Client { id, sk, pk, address_book: Registry::new() };
        proof {
            assert(r.book() =~= Map::<Seq<char>, Seq<u8>>::empty());
        }
        r
    }

    /// The record this client registers in the directory.
    pub fn directory_registration(&self) -> (r: DirectoryRegistration)
        requires
            self.wf(),
        ensures
            r.id@ == self.spec_id(),
            r.pk@ == self.spec_pk(),
            r.pk@.len() == 32,
    {
        DirectoryRegistration {
            id: self.id.clone(),
            pk: vstd::slice::slice_to_vec(self.pk.as_slice()),
        }
    }

    /// Whether the address book is still too small for path diversity.
    pub fn needs_directory_bootstrap(&self) -> (r: bool)
        requires
            self.wf(),
        ensures
            r == (self.book().dom().len() < MIN_ADDRESS_BOOK_ENTRIES),
    {
        proof {
            self.address_book.lemma_entries_view();
            assert(self.book().dom() =~= self.address_book@.dom());
        }
        self.address_book.len() < MIN_ADDRESS_BOOK_ENTRIES
    }

    /// Whether the recipient's record is cached.
    pub fn knows(&self, id: &String) -> (r: bool)
        requires
            self.wf(),
        ensures
            r == self.book().contains_key(id@),
    {
        self.address_book.get(id).is_some()
    }

    /// Cache one directory record, replacing any cached one.
    pub fn cache_registration(&mut self, registration: &DirectoryRegistration)
        requires
            old(self).wf(),
            registration.pk@.len() == 32,
        ensures
            final(self).wf(),
            final(self).spec_id() == old(self).spec_id(),
            final(self).spec_pk() == old(self).spec_pk(),
            final(self).book() == old(self).book().insert(registration.id@, registration.pk@),
    {
        self.address_book.set(
            registration.id.clone(),
            vstd::slice::slice_to_vec(registration.pk.as_slice()),
        );
        proof {
            assert(self.book() =~= old(self).book().insert(registration.id@, registration.pk@));
        }
    }

    /// Replace the address book with a directory snapshot, leaving this
    /// client's own identity out.
    pub fn install_snapshot(&mut self, records: &Vec<DirectoryRegistration>)
        requires
            old(self).wf(),
            forall|i: int| 0 <= i < records@.len() ==> (#[trigger] records@[i]).pk@.len() == 32,
            forall|i: int, j: int|
                0 <= i < j < records@.len() ==> records@[i].id@ != records@[j].id@,
        ensures
            final(self).wf(),
            final(self).spec_id() == old(self).spec_id(),
            final(self).spec_pk() == old(self).spec_pk(),
            forall|k: Seq<char>|
                final(self).book().contains_key(k) <==> (k != old(self).spec_id() && exists|i: int|
                    0 <= i < records@.len() && (#[trigger] records@[i]).id@ == k),
            forall|i: int|
                0 <= i < records@.len() && (#[trigger] records@[i]).id@ != old(self).spec_id()
                    ==> final(self).book()[records@[i].id@] == records@[i].pk@,
    {
        let n = records.len();
        let mut fresh: Registry<Vec<u8>> = Registry::new();
        let mut i: usize = 0;
        while i < n
            invariant
                self.wf(),
                *self == *old(self),
                fresh.inv(),
                n == records@.len(),
                i <= n,
                forall|i2: int| 0 <= i2 < records@.len() ==> (#[trigger] records@[i2]).pk@.len()
                    == 32,
                forall|i2: int, j2: int|
                    0 <= i2 < j2 < records@.len() ==> records@[i2].id@ != records@[j2].id@,
                forall|k: Seq<char>|
                    #[trigger] fresh@.contains_key(k) <==> (k != self.id@ && exists|j: int|
                        0 <= j < i && (#[trigger] records@[j]).id@ == k),
                forall|j: int|
                    0 <= j < i && (#[trigger] records@[j]).id@ != self.id@ ==> fresh@.contains_key(
                        records@[j].id@,
                    ) && fresh@[records@[j].id@]@ == records@[j].pk@,
            decreases n - i,
        {
            let record = &records[i];
            if !(record.id == self.id) {
                proof {
                    assert(!fresh@.contains_key(record.id@));
                }
                let inserted = fresh.insert_new(
                    record.id.clone(),
                    vstd::slice::slice_to_vec(record.pk.as_slice()),
                );
                proof {
                    assert(inserted is Ok);
                }
            }
            i += 1;
        }
        self.address_book = fresh;
        proof {
            assert forall|k: Seq<char>|
                self.book().contains_key(k) <==> (k != old(self).id@ && exists|j: int|
                    0 <= j < records@.len() && (#[trigger] records@[j]).id@ == k) by {}
        }
    }

    /// The cached records usable as forward relays for a send to `to`:
    /// every record except the recipient's and this client's own, each
    /// exactly once.
    #[verifier::rlimit(50)]
    pub fn eligible_relays(&self, to: &String) -> (r: Vec<DirectoryRegistration>)
        requires
            self.wf(),
        ensures
            forall|i: int|
                0 <= i < r@.len() ==> {
                    let rec = #[trigger] r@[i];
                    &&& self.book().contains_key(rec.id@)
                    &&& rec.pk@ == self.book()[rec.id@]
                    &&& rec.pk@.len() == 32
                    &&& rec.id@ != to@
                    &&& rec.id@ != self.spec_id()
                },
            forall|i: int, j: int| 0 <= i < j < r@.len() ==> r@[i].id@ != r@[j].id@,
            forall|k: Seq<char>|
                self.book().contains_key(k) && k != to@ && k != self.spec_id() ==> exists|i: int|
                    0 <= i < r@.len() && (#[trigger] r@[i]).id@ == k,
            r@.len() == self.book().dom().remove(to@).remove(self.spec_id()).len(),
    {
        proof {
            self.address_book.lemma_entries_view();
        }
        let ghost entries = self.address_book.entries_seq();
        let n = self.address_book.len();
        let mut r: Vec<DirectoryRegistration> = Vec::new();
        let mut i: usize = 0;
        while i < n
            invariant
                self.wf(),
                entries == self.address_book.entries_seq(),
                n == entries.len(),
                i <= n,
                forall|x: int|
                    0 <= x < r@.len() ==> {
                        let rec = #[trigger] r@[x];
                        &&& self.book().contains_key(rec.id@)
                        &&& rec.pk@ == self.book()[rec.id@]
                        &&& rec.pk@.len() == 32
                        &&& rec.id@ != to@
                        &&& rec.id@ != self.id@
                    },
                forall|x: int|
                    0 <= x < r@.len() ==> exists|j: int|
                        0 <= j < i && (#[trigger] entries[j]).0 == (#[trigger] r@[x]).id@,
                forall|x: int, y: int| 0 <= x < y < r@.len() ==> r@[x].id@ != r@[y].id@,
                forall|j: int|
                    0 <= j < i && (#[trigger] entries[j]).0 != to@ && entries[j].0 != self.id@
                        ==> exists|x: int| 0 <= x < r@.len() && (#[trigger] r@[x]).id@
                        == entries[j].0,
            decreases n - i,
        {
            let ghost r_prev = r@;
            let (eid, pk) = self.address_book.entry_at(i);
            if !(*eid == *to) && !(*eid == self.id) {
                proof {
                    self.address_book.lemma_entries_view();
                    assert forall|x: int| 0 <= x < r@.len() implies (#[trigger] r@[x]).id@
                        != entries[i as int].0 by {
                        let j = choose|j: int| 0 <= j < i && (#[trigger] entries[j]).0 == r@[x].id@;
                        assert(entries[j].0 != entries[i as int].0);
                    }
                }
                r.push(
                    DirectoryRegistration {
                        id: eid.clone(),
                        pk: vstd::slice::slice_to_vec(pk.as_slice()),
                    },
                );
                proof {
                    assert(r@ == r_prev.push(r@[r@.len() - 1]));
                    assert(r@[r@.len() - 1].id@ == entries[i as int].0);
                }
            }
            proof {
                assert forall|j: int|
                    0 <= j < i + 1 && (#[trigger] entries[j]).0 != to@ && entries[j].0
                        != self.id@ implies exists|x: int|
                    0 <= x < r@.len() && (#[trigger] r@[x]).id@ == entries[j].0 by {
                    if j < i {
                        let x = choose|x: int|
                            0 <= x < r_prev.len() && (#[trigger] r_prev[x]).id@ == entries[j].0;
                        assert(r@[x].id@ == entries[j].0);
                    } else {
                        assert(r@[r@.len() - 1].id@ == entries[j].0);
                    }
                }
            }
            i += 1;
        }
        proof {
            self.address_book.lemma_entries_view();
            let ids = r@.map_values(|d: DirectoryRegistration| d.id@);
            assert(ids.no_duplicates());
            let s = self.book().dom().remove(to@).remove(self.spec_id());
            assert forall|k: Seq<char>| #[trigger] ids.contains(k) implies s.contains(k) by {
                let x = choose|x: int| 0 <= x < ids.len() && ids[x] == k;
                assert(r@[x].id@ == k);
            }
            assert forall|k: Seq<char>| #[trigger] s.contains(k) implies ids.contains(k) by {
                assert(self.book().contains_key(k) && k != to@ && k != self.spec_id());
                let x = choose|x: int| 0 <= x < r@.len() && (#[trigger] r@[x]).id@ == k;
                assert(ids[x] == k);
            }
            assert(ids.to_set() =~= s);
            ids.unique_seq_to_set();
        }
        r
    }

    /// Decide one send request: bootstrap the address book, look the
    /// recipient up, or build the onion packet over a freshly sampled
    /// route of at most three relays followed by the recipient.
    pub fn handle_send(&self, to: &String, payload: &Vec<u8>) -> (r: SendStep)
        requires
            self.wf(),
        ensures
            ({
                let needs = self.book().dom().len() < MIN_ADDRESS_BOOK_ENTRIES;
                let known = self.book().contains_key(to@);
                let relays = self.book().dom().remove(to@).remove(self.spec_id());
                match r {
                    SendStep::FetchDirectory => needs,
                    SendStep::LookupRecipient => !needs && !known,
                    SendStep::Overflow => !needs && known && (encode_utf8(to@).len()
                        > IDENTITY_WIRE_LEN || exists|k: Seq<char>|
                        #[trigger] self.book().contains_key(k) && k != to@ && k != self.spec_id()
                            && encode_utf8(k).len() > IDENTITY_WIRE_LEN),
                    SendStep::ConstructFailed => !needs && known && encode_utf8(to@).len()
                        <= IDENTITY_WIRE_LEN && payload@.len() > onion::MAX_PLAINTEXT_LEN,
                    SendStep::Send(packet, route_ids) => {
                        let hops = route_ids@.len() - 1;
                        &&& !needs
                        &&& known
                        &&& encode_utf8(to@).len() <= IDENTITY_WIRE_LEN
                        &&& packet.from@ == self.spec_id()
                        &&& packet.id@.len() == 36
                        &&& route_ids@.len() == 1 + (if relays.len() < 3 {
                            relays.len() as int
                        } else {
                            3
                        })
                        &&& route_ids@[hops]@ == to@
                        &&& packet.to@ == route_ids@[0]@
                        &&& forall|i: int|
                            0 <= i < hops ==> self.book().contains_key(
                                (#[trigger] route_ids@[i])@,
                            ) && route_ids@[i]@ != to@ && route_ids@[i]@ != self.spec_id()
                        &&& forall|i: int, j: int|
                            0 <= i < j < hops ==> route_ids@[i]@ != route_ids@[j]@
                    },
                }
            }),
    {
        if self.needs_directory_bootstrap() {
            return SendStep::FetchDirectory;
        }
        let to_pk = match self.address_book.get(to) {
            None => {
                return SendStep::LookupRecipient;
            },
            Some(pk) => vstd::slice::slice_to_vec(pk.as_slice()),
        };
        let relays = self.eligible_relays(to);
        let positions = onion::sample_three_positions(relays.len());
        let mut hops: Vec<DirectoryRegistration> = Vec::new();
        let mut i: usize = 0;
        while i < positions.len()
            invariant
                self.wf(),
                i <= positions@.len(),
                hops@.len() == i,
                forall|x: int| 0 <= x < positions@.len() ==> #[trigger] positions@[x] < relays@.len(),
                forall|x: int, y: int|
                    0 <= x < y < positions@.len() ==> positions@[x] != positions@[y],
                forall|x: int|
                    0 <= x < relays@.len() ==> {
                        let rec = #[trigger] relays@[x];
                        &&& self.book().contains_key(rec.id@)
                        &&& rec.pk@ == self.book()[rec.id@]
                        &&& rec.pk@.len() == 32
                        &&& rec.id@ != to@
                        &&& rec.id@ != self.id@
                    },
                forall|x: int, y: int| 0 <= x < y < relays@.len() ==> relays@[x].id@ != relays@[y].id@,
                forall|x: int|
                    0 <= x < i ==> (#[trigger] hops@[x]).id@ == relays@[positions@[x] as int].id@
                        && hops@[x].pk@ == relays@[positions@[x] as int].pk@,
            decreases positions@.len() - i,
        {
            let p = positions[i];
            let rec = &relays[p];
            hops.push(
                DirectoryRegistration {
                    id: rec.id.clone(),
                    pk: vstd::slice::slice_to_vec(rec.pk.as_slice()),
                },
            );
            i += 1;
        }
        let first_hop: String = if hops.len() > 0 {
            hops[0].id.clone()
        } else {
            to.clone()
        };
        let mut route_ids: Vec<String> = Vec::new();
        let mut route: Vec<RouteNode> = Vec::new();
        let mut i: usize = 0;
        while i < hops.len()
            invariant
                self.wf(),
                self.book().dom().len() >= MIN_ADDRESS_BOOK_ENTRIES,
                self.book().contains_key(to@),
                i <= hops@.len(),
                route_ids@.len() == i,
                route@.len() == i,
                forall|x: int|
                    0 <= x < hops@.len() ==> {
                        let rec = #[trigger] hops@[x];
                        &&& self.book().contains_key(rec.id@)
                        &&& rec.pk@.len() == 32
                        &&& rec.id@ != to@
                        &&& rec.id@ != self.id@
                    },
                forall|x: int, y: int| 0 <= x < y < hops@.len() ==> hops@[x].id@ != hops@[y].id@,
                forall|x: int| 0 <= x < i ==> (#[trigger] route_ids@[x])@ == hops@[x].id@,
                forall|x: int| 0 <= x < i ==> route_node_wf(#[trigger] route@[x]),
                forall|x: int|
                    0 <= x < i ==> encode_utf8((#[trigger] hops@[x]).id@).len()
                        <= IDENTITY_WIRE_LEN,
            decreases hops@.len() - i,
        {
            let hop = &hops[i];
            let address = match str_to_byte_array_32(hop.id.as_str()) {
                Ok(address) => address,
                Err(_) => {
                    proof {
                        let k = hops@[i as int].id@;
                        assert(self.book().contains_key(k) && k != to@ && k != self.spec_id()
                            && encode_utf8(k).len() > IDENTITY_WIRE_LEN);
                    }
                    return SendStep::Overflow;
                },
            };
            route_ids.push(hop.id.clone());
            route.push(
                RouteNode { address, pk: vstd::slice::slice_to_vec(hop.pk.as_slice()) },
            );
            i += 1;
        }
        let destination = match str_to_byte_array_32(to.as_str()) {
            Ok(destination) => destination,
            Err(_) => {
                proof {
                    assert(self.book().contains_key(to@));
                    assert(encode_utf8(to@).len() > IDENTITY_WIRE_LEN);
                }
                return SendStep::Overflow;
            },
        };
        route_ids.push(to.clone());
        route.push(
            RouteNode { address: vstd::slice::slice_to_vec(destination.as_slice()), pk: to_pk },
        );
        let delays = onion::delays_generate(route.len(), AVERAGE_HOP_DELAY_NANOS);
        match onion::onion_construct(payload, &route, &destination, &delays) {
            Ok(sphinx) => SendStep::Send(Packet::new(&first_hop, &self.id, sphinx), route_ids),
            Err(_) => SendStep::ConstructFailed,
        }
    }

    /// What delivery of a final hop addressed to this identity comes
    /// to, for each recovery outcome: the plaintext bytes, or a decode
    /// failure for a malformed payload.
    pub fn deliver_decision(&self, recovered: Result<Vec<u8>, OnionError>) -> (r:
        ReceiveStep)
        ensures
            match recovered {
                Ok(bytes) => r matches ReceiveStep::Deliver(b) && b@ == bytes@,
                Err(_) => r == ReceiveStep::DecodeFailed,
            },
    {
        match recovered {
            Ok(bytes) => ReceiveStep::Deliver(bytes),
            Err(_) => ReceiveStep::DecodeFailed,
        }
    }

    /// Act on the outcome of one onion processing step. A layer that
    /// would not process is dropped as a decode failure. A forward hop is
    /// rewrapped for the next relay — same correlation id, this relay as
    /// sender — when the availability draw allows, and dropped otherwise.
    /// A final hop is delivered when it is addressed to this identity,
    /// and refused otherwise.
    pub fn dispatch_hop(
        &self,
        packet_id: &String,
        processed: Result<ProcessedHop, OnionError>,
        availability_draw: u64,
    ) -> (r: ReceiveStep)
        requires
            self.wf(),
        ensures
            processed matches Err(_) ==> r == ReceiveStep::DecodeFailed,
            processed matches Ok(hop) ==> match hop {
                ProcessedHop::Forward { next_packet, next_address, delay_nanos } => {
                    if availability_draw < FORWARD_AVAILABILITY_PERCENT {
                        r matches ReceiveStep::Forward(p, d) && p.id@ == packet_id@ && p.to@
                            == decoded_id(next_address@) && p.from@ == self.spec_id() && p.body
                            == next_packet && d == delay_nanos
                    } else {
                        r is Unavailable
                    }
                },
                ProcessedHop::Final { destination, payload } => {
                    if decoded_id(destination@) == self.spec_id() {
                        r is Deliver || r is DecodeFailed
                    } else {
                        r is RefusePlaintext
                    }
                },
            },
    {
        let hop = match processed {
            Ok(hop) => hop,
            Err(_) => {
                return ReceiveStep::DecodeFailed;
            },
        };
        match hop {
            ProcessedHop::Forward { next_packet, next_address, delay_nanos } => {
                if availability_draw < FORWARD_AVAILABILITY_PERCENT {
                    let to = bytes_to_string_truncate_zeroes(next_address.as_slice());
                    ReceiveStep::Forward(
                        Packet::new_with_id(packet_id, &to, &self.id, next_packet),
                        delay_nanos,
                    )
                } else {
                    ReceiveStep::Unavailable
                }
            },
            ProcessedHop::Final { destination, payload } => {
                let dest_id = bytes_to_string_truncate_zeroes(destination.as_slice());
                if dest_id == self.id {
                    self.deliver_decision(onion::payload_recover(payload))
                } else {
                    ReceiveStep::RefusePlaintext
                }
            },
        }
    }

    /// Handle one inbound packet with the availability draw given: peel
    /// one onion layer with this client's private key and act on it. The
    /// correlation id of a forwarded packet is the inbound one, unchanged.
    pub fn decide_packet(&self, packet: Packet, availability_draw: u64) -> (r: ReceiveStep)
        requires
            self.wf(),
        ensures
            r matches ReceiveStep::Forward(p, d) ==> p.id@ == packet.id@ && p.from@
                == self.spec_id() && availability_draw < FORWARD_AVAILABILITY_PERCENT,
            r is Unavailable ==> availability_draw >= FORWARD_AVAILABILITY_PERCENT,
    {
        let (id, _to, _from, sphinx) = packet.take();
        self.dispatch_hop(&id, onion::onion_process(sphinx, &self.sk), availability_draw)
    }

    /// Handle one inbound packet as the intermittently available relay:
    /// draw the availability at random, then decide.
    pub fn handle_packet(&self, packet: Packet) -> (r: ReceiveStep)
        requires
            self.wf(),
        ensures
            r matches ReceiveStep::Forward(p, d) ==> p.id@ == packet.id@ && p.from@
                == self.spec_id(),
    {
        let draw = onion::random_below(100);
        self.decide_packet(packet, draw)
    }
}

} // verus!
