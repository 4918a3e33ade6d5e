use mixnet::bytes::{bytes_to_string_truncate_zeroes, str_to_byte_array_32};
use mixnet::client::{Client, ReceiveStep, SendStep};
use mixnet::directory::Directory;
use mixnet::onion::{
    delays_generate, generate_private_key, onion_construct, onion_process, payload_recover,
    public_key_of, sample_three_positions, ProcessedHop, RouteNode,
};

#[test]
fn two_relay_onion_peels_to_forward_then_final() {
    let r1_sk = generate_private_key();
    let r2_sk = generate_private_key();
    let route = vec![
        RouteNode { address: str_to_byte_array_32("r1").unwrap(), pk: public_key_of(&r1_sk) },
        RouteNode { address: str_to_byte_array_32("r2").unwrap(), pk: public_key_of(&r2_sk) },
    ];
    let destination = str_to_byte_array_32("dan").unwrap();
    let payload = b"P".to_vec();
    let packet = onion_construct(&payload, &route, &destination, &vec![0u64, 0u64]).unwrap();

    let first = onion_process(packet, &r1_sk).unwrap();
    let next_packet = match first {
        ProcessedHop::Forward { next_packet, next_address, .. } => {
            assert_eq!(bytes_to_string_truncate_zeroes(&next_address), "r2");
            next_packet
        }
        ProcessedHop::Final { .. } => panic!("first layer must be a forward hop"),
    };

    let second = onion_process(next_packet, &r2_sk).unwrap();
    match second {
        ProcessedHop::Final { destination, payload: sealed } => {
            assert_eq!(bytes_to_string_truncate_zeroes(&destination), "dan");
            assert_eq!(payload_recover(sealed).unwrap(), payload);
        }
        ProcessedHop::Forward { .. } => panic!("second layer must be the final hop"),
    }
}

#[test]
fn processing_with_the_wrong_key_fails() {
    let r1_sk = generate_private_key();
    let other_sk = generate_private_key();
    let route = vec![
        RouteNode { address: str_to_byte_array_32("r1").unwrap(), pk: public_key_of(&r1_sk) },
    ];
    let destination = str_to_byte_array_32("dan").unwrap();
    let packet = onion_construct(&b"P".to_vec(), &route, &destination, &vec![0u64]).unwrap();
    assert!(onion_process(packet, &other_sk).is_err());
}

#[test]
fn construct_succeeds_up_to_the_payload_and_route_limits() {
    let mut route = Vec::new();
    for i in 0..5u8 {
        let sk = generate_private_key();
        let name = format!("r{i}");
        route.push(RouteNode { address: str_to_byte_array_32(&name).unwrap(), pk: public_key_of(&sk) });
    }
    let destination = str_to_byte_array_32("dan").unwrap();
    let delays = vec![0u64; 5];
    let fitting = vec![7u8; 1007];
    assert!(onion_construct(&fitting, &route, &destination, &delays).is_ok());
    let oversized = vec![7u8; 1008];
    assert!(onion_construct(&oversized, &route, &destination, &delays).is_err());
}

#[test]
fn oversized_payload_fails_construction() {
    let (directory, mut clients) = network(&["alex", "p1", "p2", "p3", "sam"]);
    let snapshot = directory.get_all_registrations();
    let alex = &mut clients[0];
    alex.install_snapshot(&snapshot);
    let fitting = vec![7u8; 1007];
    assert!(matches!(
        alex.handle_send(&"sam".to_owned(), &fitting),
        SendStep::Send(_, _)
    ));
    let oversized = vec![7u8; 1008];
    assert!(matches!(
        alex.handle_send(&"sam".to_owned(), &oversized),
        SendStep::ConstructFailed
    ));
}

#[test]
fn undecodable_packet_is_dropped_as_decode_failure() {
    let (directory, mut clients) = network(&["alex", "p1", "p2", "p3", "sam"]);
    let snapshot = directory.get_all_registrations();
    for client in clients.iter_mut() {
        client.install_snapshot(&snapshot);
    }
    let alex = &clients[0];
    let packet = match alex.handle_send(&"sam".to_owned(), &b"hi".to_vec()) {
        SendStep::Send(packet, _) => packet,
        _ => panic!("a warmed cache must yield a packet"),
    };
    // A client the first layer is not encrypted to cannot peel it: the
    // packet is dropped, nothing is surfaced or forwarded.
    let wrong_client = clients.iter().find(|c| c.id != *packet.to() && c.id != "alex").unwrap();
    assert!(matches!(wrong_client.decide_packet(packet, 0), ReceiveStep::DecodeFailed));
}

#[test]
fn construct_rejects_an_empty_route() {
    let destination = str_to_byte_array_32("dan").unwrap();
    assert!(onion_construct(&b"P".to_vec(), &vec![], &destination, &vec![]).is_err());
}

#[test]
fn delays_draw_one_value_per_hop() {
    for hops in [0usize, 1, 3, 5] {
        assert_eq!(delays_generate(hops, 1_000).len(), hops);
    }
}

#[test]
fn sampled_positions_are_distinct_and_bounded() {
    for n in [0usize, 1, 2, 3, 10] {
        let positions = sample_three_positions(n);
        assert_eq!(positions.len(), n.min(3));
        for (i, p) in positions.iter().enumerate() {
            assert!(*p < n);
            for q in positions.iter().skip(i + 1) {
                assert_ne!(p, q);
            }
        }
    }
}

#[test]
fn public_keys_are_full_width() {
    let sk = generate_private_key();
    assert_eq!(public_key_of(&sk).len(), 32);
}

fn network(names: &[&str]) -> (Directory, Vec<Client>) {
    let mut directory = Directory::new();
    let mut clients = Vec::new();
    for name in names {
        let client = Client::new((*name).to_owned());
        directory.register(client.directory_registration()).unwrap();
        clients.push(client);
    }
    (directory, clients)
}

#[test]
fn end_to_end_four_hop_delivery() {
    let (directory, mut clients) = network(&["alex", "p1", "p2", "p3", "sam"]);
    let snapshot = directory.get_all_registrations();
    for client in clients.iter_mut() {
        client.install_snapshot(&snapshot);
    }
    let alex = &clients[0];
    let payload = b"from: alex\nbody: hi\n".to_vec();
    let (mut packet, route_ids) = match alex.handle_send(&"sam".to_owned(), &payload) {
        SendStep::Send(packet, route_ids) => (packet, route_ids),
        _ => panic!("a warmed cache must yield a packet"),
    };
    // Three sampled relays followed by the recipient.
    assert_eq!(route_ids.len(), 4);
    assert_eq!(route_ids.last().unwrap(), "sam");
    let mut relays: Vec<&String> = route_ids[..3].iter().collect();
    relays.sort();
    relays.dedup();
    assert_eq!(relays.len(), 3);
    for relay in &relays {
        assert!(["p1", "p2", "p3"].contains(&relay.as_str()));
    }
    assert_eq!(packet.from(), "alex");
    assert_eq!(packet.to(), &route_ids[0]);

    let correlation_id = packet.id().clone();
    let mut hops = 0usize;
    loop {
        hops += 1;
        assert!(hops <= 4, "the path must end at the fourth hop");
        let handler = clients
            .iter()
            .find(|c| c.id == *packet.to())
            .expect("every hop addresses a known identity");
        // Draw 0: the simulated intermittent relay stays available, so
        // the run is deterministic.
        match handler.decide_packet(packet, 0) {
            ReceiveStep::Forward(next, _delay) => {
                assert_eq!(next.id(), &correlation_id);
                packet = next;
            }
            ReceiveStep::Deliver(bytes) => {
                assert_eq!(handler.id, "sam");
                assert_eq!(bytes, payload);
                assert_eq!(hops, 4);
                return;
            }
            other => panic!(
                "hop {hops} must forward or deliver, got {}",
                match other {
                    ReceiveStep::Unavailable => "unavailable",
                    ReceiveStep::RefusePlaintext => "refused plaintext",
                    ReceiveStep::DecodeFailed => "decode failure",
                    _ => "unexpected",
                }
            ),
        }
    }
}

#[test]
fn relay_rewrites_sender_to_itself() {
    let (directory, mut clients) = network(&["alex", "p1", "p2", "p3", "sam"]);
    let snapshot = directory.get_all_registrations();
    for client in clients.iter_mut() {
        client.install_snapshot(&snapshot);
    }
    let alex = &clients[0];
    let packet = match alex.handle_send(&"sam".to_owned(), &b"hi".to_vec()) {
        SendStep::Send(packet, _) => packet,
        _ => panic!("a warmed cache must yield a packet"),
    };
    let first_relay = clients.iter().find(|c| c.id == *packet.to()).unwrap();
    match first_relay.decide_packet(packet, 0) {
        ReceiveStep::Forward(next, _) => assert_eq!(next.from(), &first_relay.id),
        _ => panic!("the first hop must forward"),
    }
}

#[test]
fn unavailable_relay_drops_the_packet() {
    let (directory, mut clients) = network(&["alex", "p1", "p2", "p3", "sam"]);
    let snapshot = directory.get_all_registrations();
    for client in clients.iter_mut() {
        client.install_snapshot(&snapshot);
    }
    let alex = &clients[0];
    let packet = match alex.handle_send(&"sam".to_owned(), &b"hi".to_vec()) {
        SendStep::Send(packet, _) => packet,
        _ => panic!("a warmed cache must yield a packet"),
    };
    let first_relay = clients.iter().find(|c| c.id == *packet.to()).unwrap();
    // Draws of 70 and above model the 30% unavailability.
    assert!(matches!(first_relay.decide_packet(packet, 70), ReceiveStep::Unavailable));
}

#[test]
fn send_bootstraps_until_three_records_are_cached() {
    let (directory, mut clients) = network(&["alex", "p1", "p2", "p3", "sam"]);
    let alex = &mut clients[0];
    assert!(alex.needs_directory_bootstrap());
    assert!(matches!(
        alex.handle_send(&"sam".to_owned(), &b"hi".to_vec()),
        SendStep::FetchDirectory
    ));
    let snapshot = directory.get_all_registrations();
    alex.install_snapshot(&snapshot);
    assert!(!alex.needs_directory_bootstrap());
    assert!(!alex.knows(&"alex".to_owned()), "a client's own record stays out");
}

#[test]
fn send_to_uncached_recipient_asks_for_a_lookup() {
    let (directory, mut clients) = network(&["alex", "p1", "p2", "p3"]);
    let snapshot = directory.get_all_registrations();
    let alex = &mut clients[0];
    alex.install_snapshot(&snapshot);
    assert!(matches!(
        alex.handle_send(&"sam".to_owned(), &b"hi".to_vec()),
        SendStep::LookupRecipient
    ));
    // The recipient registers later; its record is fetched and cached,
    // and the same request then goes through.
    let mut directory = directory;
    let sam = Client::new("sam".to_owned());
    directory.register(sam.directory_registration()).unwrap();
    let record = directory.get_registration(&"sam".to_owned()).unwrap();
    alex.cache_registration(&record);
    assert!(matches!(
        alex.handle_send(&"sam".to_owned(), &b"hi".to_vec()),
        SendStep::Send(_, _)
    ));
}

#[test]
fn relay_with_oversized_identity_overflows() {
    // With exactly three eligible relays every one is sampled, so a
    // route through the oversized identity is unavoidable.
    let long = "l".repeat(33);
    let (directory, mut clients) = network(&["alex", "p1", "p2", "sam", &long]);
    let snapshot = directory.get_all_registrations();
    let alex = &mut clients[0];
    alex.install_snapshot(&snapshot);
    assert!(matches!(alex.handle_send(&"sam".to_owned(), &b"hi".to_vec()), SendStep::Overflow));
}

#[test]
fn handle_packet_draws_availability_itself() {
    let (directory, mut clients) = network(&["alex", "p1", "p2", "p3", "sam"]);
    let snapshot = directory.get_all_registrations();
    for client in clients.iter_mut() {
        client.install_snapshot(&snapshot);
    }
    let alex = &clients[0];
    let packet = match alex.handle_send(&"sam".to_owned(), &b"hi".to_vec()) {
        SendStep::Send(packet, _) => packet,
        _ => panic!("a warmed cache must yield a packet"),
    };
    let first_relay = clients.iter().find(|c| c.id == *packet.to()).unwrap();
    match first_relay.handle_packet(packet) {
        ReceiveStep::Forward(next, _) => assert_eq!(next.from(), &first_relay.id),
        ReceiveStep::Unavailable => {}
        _ => panic!("the first hop must forward or simulate unavailability"),
    }
}

#[test]
fn send_to_oversized_identity_overflows() {
    let (directory, mut clients) = network(&["alex", "p1", "p2", "p3"]);
    let snapshot = directory.get_all_registrations();
    let alex = &mut clients[0];
    alex.install_snapshot(&snapshot);
    let long = "x".repeat(33);
    alex.cache_registration(&mixnet::directory::DirectoryRegistration {
        id: long.clone(),
        pk: vec![1u8; 32],
    });
    assert!(matches!(alex.handle_send(&long, &b"hi".to_vec()), SendStep::Overflow));
}

#[test]
fn small_network_uses_every_eligible_relay() {
    // Only two identities besides the sender and the recipient exist:
    // the sampled route takes both, and the path is three hops long.
    let (directory, mut clients) = network(&["alex", "p1", "p2", "sam"]);
    let snapshot = directory.get_all_registrations();
    let alex = &mut clients[0];
    alex.install_snapshot(&snapshot);
    match alex.handle_send(&"sam".to_owned(), &b"hi".to_vec()) {
        SendStep::Send(_, route_ids) => {
            assert_eq!(route_ids.len(), 3);
            assert_eq!(route_ids[2], "sam");
            let mut relays: Vec<&String> = route_ids[..2].iter().collect();
            relays.sort();
            assert_eq!(relays, vec!["p1", "p2"]);
        }
        _ => panic!("a warmed cache must yield a packet"),
    }
}
