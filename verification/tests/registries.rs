use mixnet::directory::{
    Directory, DirectoryRegistration, DirectoryRegistrationError, GetDirectoryRegistrationError,
};
use mixnet::server::{DeliveryDecision, Server, ServerRegistration, ServerRegistrationError};
use mixnet::transport::InboxTransport;
use mixnet::whatsapp::WhatsApp;
use mixnet::bytes::str_to_byte_array_32;
use mixnet::onion::{generate_private_key, onion_construct, public_key_of, RouteNode};
use mixnet::packet::Packet;

fn loopback_packet(to: &str, from: &str) -> Packet {
    let sk = generate_private_key();
    let pk = public_key_of(&sk);
    let address = str_to_byte_array_32(to).unwrap();
    let route = vec![RouteNode { address: address.clone(), pk }];
    let body = onion_construct(&b"x".to_vec(), &route, &address, &vec![0u64]).unwrap();
    Packet::new(&to.to_owned(), &from.to_owned(), body)
}

fn record(id: &str, fill: u8) -> DirectoryRegistration {
    DirectoryRegistration { id: id.to_owned(), pk: vec![fill; 32] }
}

#[test]
fn directory_register_then_lookup() {
    let mut directory = Directory::new();
    directory.register(record("alex", 1)).unwrap();
    let found = directory.get_registration(&"alex".to_owned()).unwrap();
    assert_eq!(found.id, "alex");
    assert_eq!(found.pk, vec![1u8; 32]);
}

#[test]
fn directory_second_register_conflicts_and_keeps_first_key() {
    let mut directory = Directory::new();
    directory.register(record("alex", 1)).unwrap();
    let second = directory.register(record("alex", 2));
    assert!(matches!(second, Err(DirectoryRegistrationError::Conflict)));
    let found = directory.get_registration(&"alex".to_owned()).unwrap();
    assert_eq!(found.pk, vec![1u8; 32]);
}

#[test]
fn directory_lookup_of_unknown_id_is_not_found() {
    let directory = Directory::new();
    let missing = directory.get_registration(&"sam".to_owned());
    assert!(matches!(missing, Err(GetDirectoryRegistrationError::NotFound)));
}

#[test]
fn directory_snapshot_holds_every_record_once() {
    let mut directory = Directory::new();
    directory.register(record("alex", 1)).unwrap();
    directory.register(record("sam", 2)).unwrap();
    directory.register(record("p1", 3)).unwrap();
    let mut snapshot = directory.get_all_registrations();
    assert_eq!(snapshot.len(), 3);
    snapshot.sort_by(|a, b| a.id.cmp(&b.id));
    let ids: Vec<&str> = snapshot.iter().map(|r| r.id.as_str()).collect();
    assert_eq!(ids, vec!["alex", "p1", "sam"]);
    assert_eq!(snapshot[0].pk, vec![1u8; 32]);
    assert_eq!(snapshot[2].pk, vec![2u8; 32]);
}

#[test]
fn server_second_register_conflicts_and_first_link_delivers() {
    let mut server: Server<u32> = Server::new();
    server
        .register(ServerRegistration { id: "alex".to_owned(), tx: Some(1u32) })
        .unwrap();
    let second = server.register(ServerRegistration { id: "alex".to_owned(), tx: Some(2u32) });
    assert_eq!(second, Err(ServerRegistrationError::Conflict("alex".to_owned())));
    let packet_to_alex = loopback_packet("alex", "sam");
    match server.send(&packet_to_alex) {
        DeliveryDecision::Deliver(link) => assert_eq!(*link, 1u32),
        _ => panic!("expected delivery over the first registered link"),
    }
}

#[test]
fn server_send_without_registration_drops() {
    let server: Server<u32> = Server::new();
    let packet = loopback_packet("nobody", "sam");
    assert!(matches!(server.send(&packet), DeliveryDecision::NotRegistered));
}

#[test]
fn server_send_to_linkless_registration_is_unavailable() {
    let mut server: Server<u32> = Server::new();
    server.register(ServerRegistration { id: "alex".to_owned(), tx: None }).unwrap();
    let packet = loopback_packet("alex", "sam");
    assert!(matches!(server.send(&packet), DeliveryDecision::Unavailable));
}

#[test]
fn transport_buffers_in_order_while_absent() {
    let mut transport: InboxTransport<String, u32> = InboxTransport::new();
    let a = "a".to_owned();
    assert!(!transport.has_link(&a));
    transport.enqueue(a.clone(), "m1".to_owned());
    transport.enqueue(a.clone(), "m2".to_owned());
    let pending = transport.register(a.clone(), 7u32).unwrap();
    assert_eq!(pending, vec!["m1".to_owned(), "m2".to_owned()]);
    assert!(transport.has_link(&a));
    assert!(transport.register(a.clone(), 8u32).is_none());
}

#[test]
fn transport_requeues_failed_item_ahead_and_drops_link() {
    let mut transport: InboxTransport<String, u32> = InboxTransport::new();
    let a = "a".to_owned();
    transport.enqueue(a.clone(), "m1".to_owned());
    transport.enqueue(a.clone(), "m2".to_owned());
    // A link arrives; the pending queue plus a new packet becomes the batch.
    let pending = transport.register(a.clone(), 7u32).unwrap();
    for item in pending {
        transport.enqueue(a.clone(), item);
    }
    let batch = transport.take_batch(&a, "m3".to_owned());
    assert_eq!(batch, vec!["m1".to_owned(), "m2".to_owned(), "m3".to_owned()]);
    // Delivery of the head fails: it goes back ahead of the rest, link dies.
    let mut rest = batch;
    let failed = rest.remove(0);
    transport.requeue(a.clone(), failed, rest);
    assert!(!transport.has_link(&a));
    let pending = transport.register(a.clone(), 9u32).unwrap();
    assert_eq!(pending, vec!["m1".to_owned(), "m2".to_owned(), "m3".to_owned()]);
}

#[test]
fn transport_deregister_keeps_pending_queue() {
    let mut transport: InboxTransport<String, u32> = InboxTransport::new();
    let a = "a".to_owned();
    transport.register(a.clone(), 7u32);
    transport.deregister(&a);
    assert!(!transport.has_link(&a));
    transport.enqueue(a.clone(), "late".to_owned());
    let pending = transport.register(a.clone(), 8u32).unwrap();
    assert_eq!(pending, vec!["late".to_owned()]);
}

#[test]
fn transport_register_replaces_link() {
    let mut transport: InboxTransport<String, u32> = InboxTransport::new();
    let a = "a".to_owned();
    transport.register(a.clone(), 7u32);
    transport.register(a.clone(), 8u32);
    assert_eq!(transport.link_for(&a), Some(&8u32));
}

#[test]
fn whatsapp_transporters_install_and_remove() {
    let mut endpoint: WhatsApp<u32> = WhatsApp::new(&"me".to_owned());
    assert!(!endpoint.has_transporter(&"t1".to_owned()));
    endpoint.install_transporter("t1".to_owned(), 4u32);
    endpoint.install_transporter("t1".to_owned(), 5u32);
    assert_eq!(endpoint.transporter_link(&"t1".to_owned()), Some(&5u32));
    assert_eq!(endpoint.remove_transporter(&"t1".to_owned()), Some(5u32));
    assert_eq!(endpoint.remove_transporter(&"t1".to_owned()), None);
}
