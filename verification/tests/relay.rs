use switchboard::addr::{Ip, SockAddr};
use switchboard::hub::{Hub, Registry, Routing};
use switchboard::turn::{TurnReq, TurnRes};

fn v4(a: u8, b: u8, c: u8, d: u8, port: u16) -> SockAddr {
    SockAddr { ip: Ip::V4([a, b, c, d]), port }
}

#[test]
fn registry_refuses_second_claim_from_same_address() {
    let mut reg = Registry::new();
    let addr = v4(10, 0, 0, 1, 5000).to_canonical();
    assert!(reg.claim(addr, 1));
    assert!(!reg.claim(addr, 2));
    assert_eq!(reg.entries.len(), 1);
    assert_eq!(reg.lookup(&addr), Some(1));
}

#[test]
fn registry_treats_mapped_and_plain_v4_as_one_address() {
    let mut reg = Registry::new();
    let mapped = SockAddr {
        ip: Ip::V6([0, 0, 0, 0, 0, 0, 0, 0, 0, 0, 0xff, 0xff, 10, 0, 0, 1]),
        port: 5000,
    };
    assert!(reg.claim(mapped.to_canonical(), 1));
    assert!(!reg.claim(v4(10, 0, 0, 1, 5000).to_canonical(), 2));
}

#[test]
fn registry_frees_the_slot_on_remove() {
    let mut reg = Registry::new();
    let a = v4(10, 0, 0, 1, 5000).to_canonical();
    let b = v4(10, 0, 0, 2, 5000).to_canonical();
    assert!(reg.claim(a, 1));
    assert!(reg.claim(b, 2));
    reg.remove(&a);
    assert_eq!(reg.lookup(&a), None);
    assert_eq!(reg.lookup(&b), Some(2));
    // The address is immediately reclaimable.
    assert!(reg.claim(a, 3));
    assert_eq!(reg.lookup(&a), Some(3));
}

#[test]
fn allocate_is_acknowledged_to_the_sender() {
    let hub = Hub::new(3600);
    let addr = v4(192, 0, 2, 1, 7000).to_canonical();
    let req = TurnReq::Allocate { txid: [4u8; 12] };
    match hub.handle(addr, req) {
        Routing::Reply(TurnRes::Allocate { txid, lifetime, relayed }) => {
            assert_eq!(txid, [4u8; 12]);
            assert_eq!(lifetime, 3600);
            assert!(relayed.addr_eq(&addr));
        },
        _ => panic!("expected an Allocate reply"),
    }
}

#[test]
fn bind_channel_is_dropped_and_channel_data_closes() {
    let hub = Hub::new(3600);
    let addr = v4(192, 0, 2, 1, 7000);
    let req = TurnReq::BindChannel { txid: [0u8; 12], peer: addr, channel: 0x4000 };
    assert!(matches!(hub.handle(addr, req), Routing::Drop));
    let req = TurnReq::ChannelData { channel: 0x4000, data: vec![1] };
    assert!(matches!(hub.handle(addr, req), Routing::Close));
}

#[test]
fn send_payload_class_10_is_dropped() {
    let hub = Hub::new(3600);
    let addr = v4(192, 0, 2, 1, 7000);
    let peer = v4(192, 0, 2, 2, 7000);
    let req = TurnReq::Send { txid: [0u8; 12], peer, data: vec![10, 1, 2] };
    assert!(matches!(hub.handle(addr, req), Routing::Drop));
    let req = TurnReq::Send { txid: [0u8; 12], peer, data: vec![] };
    assert!(matches!(hub.handle(addr, req), Routing::Drop));
    let req = TurnReq::Send { txid: [0u8; 12], peer, data: vec![64] };
    assert!(matches!(hub.handle(addr, req), Routing::Drop));
}

#[test]
fn send_stun_and_dtls_payloads_pass_unchanged() {
    let hub = Hub::new(3600);
    let addr = v4(192, 0, 2, 1, 7000).to_canonical();
    let peer = v4(192, 0, 2, 2, 7000);
    for first in [0u8, 21] {
        let payload = vec![first, 0xDE, 0xAD];
        let req = TurnReq::Send { txid: [9u8; 12], peer, data: payload.clone() };
        match hub.handle(addr, req) {
            Routing::Route(dst, TurnRes::Data { peer: from, data, .. }) => {
                assert!(dst.addr_eq(&peer.to_canonical()));
                assert!(from.addr_eq(&addr));
                assert_eq!(data, payload);
            },
            _ => panic!("expected a routed Data indication"),
        }
    }
}

#[test]
fn broadcast_reaches_every_registered_connection() {
    let mut hub = Hub::new(3600);
    let a = v4(10, 0, 0, 1, 1).to_canonical();
    let b = v4(10, 0, 0, 2, 2).to_canonical();
    let c = v4(10, 0, 0, 3, 3).to_canonical();
    assert!(hub.try_register(a, 11));
    assert!(hub.try_register(b, 22));
    assert!(hub.try_register(c, 33));
    let sentinel = v4(255, 255, 255, 255, 0);
    let req = TurnReq::Send { txid: [1u8; 12], peer: sentinel, data: vec![0, 7] };
    match hub.handle(a, req) {
        Routing::Route(dst, TurnRes::Data { peer: from, .. }) => {
            assert!(from.addr_eq(&a));
            let ids = hub.targets(&dst);
            assert_eq!(ids, vec![11, 22, 33]);
        },
        _ => panic!("expected a routed Data indication"),
    }
}

#[test]
fn unknown_destination_has_no_targets() {
    let mut hub = Hub::new(3600);
    let a = v4(10, 0, 0, 1, 1).to_canonical();
    assert!(hub.try_register(a, 11));
    let stranger = v4(10, 9, 9, 9, 9).to_canonical();
    assert_eq!(hub.targets(&stranger), Vec::<u64>::new());
    assert_eq!(hub.targets(&a), vec![11]);
}

#[test]
fn cancellation_blocks_new_registrations_and_allocations() {
    let mut hub = Hub::new(3600);
    let a = v4(10, 0, 0, 1, 1).to_canonical();
    let b = v4(10, 0, 0, 2, 2).to_canonical();
    assert!(hub.try_register(a, 11));
    hub.cancel();
    assert!(!hub.try_register(b, 22));
    let req = TurnReq::Allocate { txid: [0u8; 12] };
    assert!(matches!(hub.handle(a, req), Routing::Close));
    // Every registered connection deregisters on its way out.
    hub.deregister(&a);
    assert_eq!(hub.registry.entries.len(), 0);
}
