//! The opaque onion-packet capability.
//!
//! The cryptographic layer work is done by an outside implementation and
//! is used through exactly four operations: construct a layered packet
//! for a route, process (peel) one layer, recover the plaintext of a
//! final layer, and draw per-hop delays. Packets and private keys are
//! opaque values; the library's own logic works on the plain values
//! around them: 32-byte addresses, 32-byte public keys, payload bytes
//! and delays in nanoseconds.

use vstd::prelude::*;

verus! {

use sphinx_packet::SphinxPacket;
use sphinx_packet::ProcessedPacketData;
use sphinx_packet::payload::Payload;
use sphinx_packet::route::{Destination, DestinationAddressBytes, Node, NodeAddressBytes};
use sphinx_packet::header::delays::{self, Delay};
use x25519_dalek::{PublicKey, StaticSecret};
use rand::prelude::{IteratorRandom, SliceRandom};

#[verifier::external_type_specification]
#[verifier::external_body]
pub struct ExSphinxPacket(SphinxPacket);

#[verifier::external_type_specification]
#[verifier::external_body]
pub struct ExPayload(Payload);

#[verifier::external_type_specification]
#[verifier::external_body]
pub struct ExStaticSecret(StaticSecret);

/// Width in bytes of a node or destination address and of a public key.
pub const ADDRESS_LEN: usize = 32;

/// Most hops a route may have.
pub const MAX_ROUTE_LEN: usize = 5;

/// Longest plaintext that fits the fixed-size payload: 1024 bytes minus
/// the 17 bytes of sealing overhead.
pub const MAX_PLAINTEXT_LEN: usize = 1007;

/// Failure of an onion operation: a packet whose next layer could not be
/// processed or whose payload is malformed, or a route for which no
/// packet could be built.
#[derive(Debug, Clone, Copy, PartialEq, Eq, Structural)]
pub enum OnionError {
    ConstructFailure,
    DecodeFailure,
}

/// One hop of a route: a 32-byte wire address and the hop's public key.
pub struct RouteNode {
    pub address: Vec<u8>,
    pub pk: Vec<u8>,
}

/// A route node carries a full-width address and key.
pub open spec fn route_node_wf(n: RouteNode) -> bool {
    n.address@.len() == ADDRESS_LEN && n.pk@.len() == ADDRESS_LEN
}

/// What one processing step of an onion packet yields: either the packet
/// for the next relay, or the final destination's encrypted payload.
pub enum ProcessedHop {
    Forward { next_packet: SphinxPacket, next_address: Vec<u8>, delay_nanos: u64 },
    Final { destination: Vec<u8>, payload: Payload },
}

/// Relies on `x25519_dalek::StaticSecret::random`: a fresh private
/// scalar; nothing can be promised of a random value.
#[verifier::external_body]
pub fn generate_private_key() -> StaticSecret {
    StaticSecret::random()
}

/// Relies on `x25519_dalek::PublicKey::from`: the public key that
/// belongs to a private scalar, as its 32 bytes.
#[verifier::external_body]
pub fn public_key_of(sk: &StaticSecret) -> (r: Vec<u8>)
    ensures
        r@.len() == ADDRESS_LEN,
{
    PublicKey::from(sk).as_bytes().to_vec()
}

/// Relies on `sphinx_packet::SphinxPacket::new`: builds the layered
/// packet whose layers address, in order, the nodes of `route`, carrying
/// `payload` for `destination`. It fails exactly for an empty route, a
/// route of more than five hops, a delay count different from the route
/// length, or a plaintext that does not fit the fixed payload, so
/// success is owed everywhere else. Construction draws a fresh ephemeral
/// secret, so nothing is promised of the resulting opaque value.
#[verifier::external_body]
pub fn onion_construct(
    payload: &Vec<u8>,
    route: &Vec<RouteNode>,
    destination: &Vec<u8>,
    delays_nanos: &Vec<u64>,
) -> (r: Result<SphinxPacket, OnionError>)
    requires
        forall|i: int| 0 <= i < route@.len() ==> route_node_wf(route@[i]),
        destination@.len() == ADDRESS_LEN,
    ensures
        match r {
            Ok(_) => true,
            Err(e) => e == OnionError::ConstructFailure,
        },
        1 <= route@.len() <= MAX_ROUTE_LEN && delays_nanos@.len() == route@.len()
            && payload@.len() <= MAX_PLAINTEXT_LEN ==> r is Ok,
{
    let nodes: Vec<Node> = route
        .iter()
        .map(|n| Node::new(
            NodeAddressBytes::from_bytes(n.address.as_slice().try_into().unwrap()),
            PublicKey::from(<[u8; 32]>::try_from(n.pk.as_slice()).unwrap()),
        ))
        .collect();
    let dest = Destination::new(
        DestinationAddressBytes::from_bytes(destination.as_slice().try_into().unwrap()),
        [0u8; 16],
    );
    let ds: Vec<Delay> = delays_nanos.iter().map(|n| Delay::new_from_nanos(*n)).collect();
    SphinxPacket::new(payload.clone(), &nodes, &dest, &ds).map_err(|_| OnionError::ConstructFailure)
}

/// Relies on `sphinx_packet::SphinxPacket::process`: consumes exactly one
/// layer with the given private key and yields either the next hop's
/// packet with a 32-byte next address and a delay, or the final hop's
/// 32-byte destination address and encrypted payload.
#[verifier::external_body]
pub fn onion_process(packet: SphinxPacket, sk: &StaticSecret) -> (r: Result<
    ProcessedHop,
    OnionError,
>)
    ensures
        match r {
            Ok(h) => match h {
                ProcessedHop::Forward { next_address, .. } => next_address@.len() == ADDRESS_LEN,
                ProcessedHop::Final { destination, .. } => destination@.len() == ADDRESS_LEN,
            },
            Err(e) => e == OnionError::DecodeFailure,
        },
{
    match packet.process(sk) {
        Ok(p) => Ok(match p.data {
            ProcessedPacketData::ForwardHop { next_hop_packet, next_hop_address, delay } =>
                ProcessedHop::Forward {
                    next_packet: next_hop_packet,
                    next_address: next_hop_address.as_bytes().to_vec(),
                    delay_nanos: delay.to_nanos(),
                },
            ProcessedPacketData::FinalHop { destination, identifier: _, payload } =>
                ProcessedHop::Final { destination: destination.as_bytes().to_vec(), payload },
        }),
        Err(_) => Err(OnionError::DecodeFailure),
    }
}

/// Relies on `sphinx_packet::payload::Payload::recover_plaintext`: the
/// plaintext that a fully unwrapped payload encapsulates, or a failure
/// for a malformed payload.
#[verifier::external_body]
pub fn payload_recover(payload: Payload) -> (r: Result<Vec<u8>, OnionError>)
    ensures
        match r {
            Ok(_) => true,
            Err(e) => e == OnionError::DecodeFailure,
        },
{
    payload.recover_plaintext().map_err(|_| OnionError::DecodeFailure)
}

/// Relies on `sphinx_packet::header::delays::generate_from_average_duration`:
/// draws one random delay per hop around the given average; only the
/// count of draws is promised.
#[verifier::external_body]
pub fn delays_generate(hops: usize, average_nanos: u64) -> (r: Vec<u64>)
    ensures
        r@.len() == hops,
{
    delays::generate_from_average_duration(hops, core::time::Duration::from_nanos(average_nanos))
        .iter()
        .map(|d| d.to_nanos())
        .collect()
}

/// Relies on `rand::random_range`: a uniform draw below the bound.
#[verifier::external_body]
pub fn random_below(bound: u64) -> (r: u64)
    requires
        bound > 0,
    ensures
        r < bound,
{
    rand::random_range(0..bound)
}

/// Relies on rand's `IteratorRandom::choose_multiple` and
/// `SliceRandom::shuffle`: up to three distinct positions below `n`,
/// uniformly sampled, in random order.
#[verifier::external_body]
pub fn sample_three_positions(n: usize) -> (r: Vec<usize>)
    ensures
        r@.len() == if n < 3 {
            n as int
        } else {
            3
        },
        forall|i: int| 0 <= i < r@.len() ==> r@[i] < n,
        forall|i: int, j: int| 0 <= i < j < r@.len() ==> r@[i] != r@[j],
{
    let mut sample: Vec<usize> = (0..n).choose_multiple(&mut rand::rng(), 3);
    sample.shuffle(&mut rand::rng());
    sample
}

} // verus!
