use switchboard::addr::{Ip, SockAddr};
use switchboard::turn::{message_length, TurnDecodeError, TurnReq, TurnRes};

fn v4(a: u8, b: u8, c: u8, d: u8, port: u16) -> SockAddr {
    SockAddr { ip: Ip::V4([a, b, c, d]), port }
}

fn header(typ: u16, len: u16, txid: &[u8; 12]) -> Vec<u8> {
    let mut out = vec![
        (typ >> 8) as u8,
        (typ & 0xff) as u8,
        (len >> 8) as u8,
        (len & 0xff) as u8,
        0x21,
        0x12,
        0xA4,
        0x42,
    ];
    out.extend_from_slice(txid);
    out
}

#[test]
fn message_length_covers_both_framings() {
    assert_eq!(message_length(0x0003, 0), 20);
    assert_eq!(message_length(0x0016, 24), 44);
    assert_eq!(message_length(0x4000, 3), 8);
    assert_eq!(message_length(0x4000, 4), 8);
    assert_eq!(message_length(0x7ffe, 0), 4);
}

#[test]
fn decode_allocate() {
    let txid = [5u8; 12];
    let msg = header(0x0003, 0, &txid);
    match TurnReq::decode(&msg) {
        Ok(TurnReq::Allocate { txid: t }) => assert_eq!(t, txid),
        other => panic!("expected Allocate, got {other:?}"),
    }
}

#[test]
fn decode_refresh() {
    let txid = [1u8; 12];
    let msg = header(0x0004, 0, &txid);
    assert!(matches!(TurnReq::decode(&msg), Ok(TurnReq::Refresh { .. })));
}

#[test]
fn decode_rejects_framing_errors() {
    assert!(matches!(
        TurnReq::decode(&[0, 3]),
        Err(TurnDecodeError::TooShort(4))
    ));
    let txid = [0u8; 12];
    // Unaligned attribute-section length.
    let msg = header(0x0003, 2, &txid);
    assert!(matches!(
        TurnReq::decode(&msg),
        Err(TurnDecodeError::UnalignedLength)
    ));
    // Wrong magic cookie.
    let mut msg = header(0x0003, 0, &txid);
    msg[4] = 0x20;
    assert!(matches!(
        TurnReq::decode(&msg),
        Err(TurnDecodeError::BadMagic)
    ));
    // Truncated buffer.
    let msg = header(0x0003, 4, &txid);
    assert!(matches!(
        TurnReq::decode(&msg),
        Err(TurnDecodeError::TooShort(24))
    ));
    // A type outside both ranges.
    let msg = header(0x7fff, 0, &txid);
    assert!(matches!(
        TurnReq::decode(&msg),
        Err(TurnDecodeError::UnexpectedType(0x7fff))
    ));
    // A message-range type the relay does not speak.
    let msg = header(0x0005, 0, &txid);
    assert!(matches!(
        TurnReq::decode(&msg),
        Err(TurnDecodeError::UnexpectedType(0x0005))
    ));
}

#[test]
fn decode_rejects_overlong_attribute() {
    let txid = [0u8; 12];
    let mut msg = header(0x0003, 4, &txid);
    msg.extend_from_slice(&[0x00, 0x0C, 0x00, 0x64]);
    assert!(matches!(
        TurnReq::decode(&msg),
        Err(TurnDecodeError::AttrTooLong)
    ));
}

#[test]
fn decode_permission_requires_peer() {
    let txid = [0u8; 12];
    let msg = header(0x0008, 0, &txid);
    assert!(matches!(
        TurnReq::decode(&msg),
        Err(TurnDecodeError::MissingAttr(0x0012))
    ));
}

#[test]
fn decode_send_requires_peer_and_data() {
    let txid = [0u8; 12];
    let msg = header(0x0016, 0, &txid);
    assert!(matches!(
        TurnReq::decode(&msg),
        Err(TurnDecodeError::MissingAttr(0x0012))
    ));
}

#[test]
fn decode_channel_number_checks() {
    let txid = [0u8; 12];
    // Declared length not 4.
    let mut msg = header(0x0009, 8, &txid);
    msg.extend_from_slice(&[0x00, 0x0C, 0x00, 0x02, 0x40, 0x00, 0, 0]);
    assert!(matches!(
        TurnReq::decode(&msg),
        Err(TurnDecodeError::BadChannelNumberLength)
    ));
    // Value outside the channel range.
    let mut msg = header(0x0009, 8, &txid);
    msg.extend_from_slice(&[0x00, 0x0C, 0x00, 0x04, 0x3F, 0xFF, 0, 0]);
    assert!(matches!(
        TurnReq::decode(&msg),
        Err(TurnDecodeError::ChannelNumberOutOfRange)
    ));
}

#[test]
fn decode_peer_address_unmasks() {
    // Peer 10.1.2.3:4660, XORed against the cookie and txid.
    let txid = [0u8; 12];
    let mut msg = header(0x0008, 12, &txid);
    let port = 4660u16 ^ 0x2112;
    msg.extend_from_slice(&[0x00, 0x12, 0x00, 0x08, 0x00, 0x01]);
    msg.extend_from_slice(&port.to_be_bytes());
    msg.extend_from_slice(&[10 ^ 0x21, 1 ^ 0x12, 2 ^ 0xA4, 3 ^ 0x42]);
    match TurnReq::decode(&msg) {
        Ok(TurnReq::Permission { peer, .. }) => {
            assert!(peer.addr_eq(&v4(10, 1, 2, 3, 4660)));
        },
        other => panic!("expected Permission, got {other:?}"),
    }
}

#[test]
fn decode_peer_address_rejects_bad_family() {
    let txid = [0u8; 12];
    let mut msg = header(0x0008, 12, &txid);
    msg.extend_from_slice(&[0x00, 0x12, 0x00, 0x08, 0x00, 0x07, 0, 0, 1, 2, 3, 4]);
    assert!(matches!(
        TurnReq::decode(&msg),
        Err(TurnDecodeError::UnknownFamily)
    ));
}

#[test]
fn decode_bind_channel_with_both_attributes() {
    let txid = [0u8; 12];
    let mut msg = header(0x0009, 20, &txid);
    msg.extend_from_slice(&[0x00, 0x0C, 0x00, 0x04, 0x40, 0x17, 0, 0]);
    let port = 7777u16 ^ 0x2112;
    msg.extend_from_slice(&[0x00, 0x12, 0x00, 0x08, 0x00, 0x01]);
    msg.extend_from_slice(&port.to_be_bytes());
    msg.extend_from_slice(&[172 ^ 0x21, 16 ^ 0x12, 0xA4, 9 ^ 0x42]);
    match TurnReq::decode(&msg) {
        Ok(TurnReq::BindChannel { peer, channel, .. }) => {
            assert_eq!(channel, 0x4017);
            assert!(peer.addr_eq(&v4(172, 16, 0, 9, 7777)));
        },
        other => panic!("expected BindChannel, got {other:?}"),
    }
}

#[test]
fn decode_v6_peer_address() {
    let txid = [0x5Au8; 12];
    let mask = switchboard::addr::xor_mask(&txid);
    let ip = [
        0x20u8, 0x01, 0x0d, 0xb8, 0, 1, 2, 3, 4, 5, 6, 7, 8, 9, 10, 11,
    ];
    let mut msg = header(0x0008, 24, &txid);
    let port = 443u16 ^ 0x2112;
    msg.extend_from_slice(&[0x00, 0x12, 0x00, 0x14, 0x00, 0x02]);
    msg.extend_from_slice(&port.to_be_bytes());
    for i in 0..16 {
        msg.push(ip[i] ^ mask[i]);
    }
    match TurnReq::decode(&msg) {
        Ok(TurnReq::Permission { peer, .. }) => {
            assert!(peer.addr_eq(&SockAddr { ip: Ip::V6(ip), port: 443 }));
        },
        other => panic!("expected Permission, got {other:?}"),
    }
}

#[test]
fn refresh_response_exact_bytes() {
    let res = TurnRes::Refresh { txid: [0u8; 12], lifetime: 3600 };
    let bytes = res.encode();
    let mut expected = header(0x0104, 8, &[0u8; 12]);
    expected.extend_from_slice(&[0x00, 0x0D, 0x00, 0x04, 0x00, 0x00, 0x0E, 0x10]);
    assert_eq!(bytes, expected);
}

#[test]
fn permission_and_bind_responses_are_bare_headers() {
    let txid = [3u8; 12];
    assert_eq!(
        TurnRes::Permission { txid }.encode(),
        header(0x0108, 0, &txid)
    );
    assert_eq!(
        TurnRes::BindChannel { txid }.encode(),
        header(0x0109, 0, &txid)
    );
}

#[test]
fn allocate_response_masks_the_relayed_address() {
    let txid = [0u8; 12];
    let res = TurnRes::Allocate {
        txid,
        lifetime: 3600,
        relayed: v4(127, 0, 0, 1, 3478),
    };
    let bytes = res.encode();
    let mut expected = header(0x0103, 32, &txid);
    // Lifetime.
    expected.extend_from_slice(&[0x00, 0x0D, 0x00, 0x04, 0x00, 0x00, 0x0E, 0x10]);
    // XOR-mapped address, then the relayed address, both masked.
    let masked = [
        0x00,
        0x01,
        (3478u16 ^ 0x2112).to_be_bytes()[0],
        (3478u16 ^ 0x2112).to_be_bytes()[1],
        127 ^ 0x21,
        0x12,
        0xA4,
        1 ^ 0x42,
    ];
    expected.extend_from_slice(&[0x00, 0x20, 0x00, 0x08]);
    expected.extend_from_slice(&masked);
    expected.extend_from_slice(&[0x00, 0x16, 0x00, 0x08]);
    expected.extend_from_slice(&masked);
    assert_eq!(bytes, expected);
}

#[test]
fn channel_data_round_trip() {
    let res = TurnRes::ChannelData { channel: 0x4001, data: vec![9, 8, 7] };
    let bytes = res.encode();
    assert_eq!(bytes, vec![0x40, 0x01, 0x00, 0x03, 9, 8, 7, 0]);
    match TurnReq::decode(&bytes) {
        Ok(TurnReq::ChannelData { channel, data }) => {
            assert_eq!(channel, 0x4001);
            assert_eq!(data, vec![9, 8, 7]);
        },
        other => panic!("expected ChannelData, got {other:?}"),
    }
}

#[test]
fn data_response_decodes_back_as_send() {
    // A Data indication and a Send request share their attribute
    // layout; rewriting the type byte turns one into the other, and
    // the XOR masking undoes itself.
    let txid = [0xAAu8; 12];
    let peer = v4(198, 51, 100, 23, 40000);
    let payload = vec![0u8, 1, 2, 3, 4];
    let res = TurnRes::Data { txid, peer, data: payload.clone() };
    let mut bytes = res.encode();
    assert_eq!(bytes.len() % 4, 0);
    assert_eq!(bytes[1], 0x17);
    bytes[1] = 0x16;
    match TurnReq::decode(&bytes) {
        Ok(TurnReq::Send { txid: t, peer: p, data }) => {
            assert_eq!(t, txid);
            assert!(p.addr_eq(&peer));
            assert_eq!(data, payload);
        },
        other => panic!("expected Send, got {other:?}"),
    }
}

#[test]
fn encoded_responses_are_aligned() {
    for n in 0..6usize {
        let res = TurnRes::Data {
            txid: [1u8; 12],
            peer: v4(1, 2, 3, 4, 5),
            data: vec![0u8; n],
        };
        assert_eq!(res.encode().len() % 4, 0);
        let res = TurnRes::ChannelData { channel: 0x4321, data: vec![7u8; n] };
        assert_eq!(res.encode().len() % 4, 0);
    }
}

#[test]
fn first_recognized_attribute_wins() {
    // Two peer addresses: the first is kept.
    let txid = [0u8; 12];
    let mut msg = header(0x0008, 24, &txid);
    let port1 = 1000u16 ^ 0x2112;
    msg.extend_from_slice(&[0x00, 0x12, 0x00, 0x08, 0x00, 0x01]);
    msg.extend_from_slice(&port1.to_be_bytes());
    msg.extend_from_slice(&[1 ^ 0x21, 1 ^ 0x12, 1 ^ 0xA4, 1 ^ 0x42]);
    let port2 = 2000u16 ^ 0x2112;
    msg.extend_from_slice(&[0x00, 0x12, 0x00, 0x08, 0x00, 0x01]);
    msg.extend_from_slice(&port2.to_be_bytes());
    msg.extend_from_slice(&[2 ^ 0x21, 2 ^ 0x12, 2 ^ 0xA4, 2 ^ 0x42]);
    match TurnReq::decode(&msg) {
        Ok(TurnReq::Permission { peer, .. }) => {
            assert!(peer.addr_eq(&v4(1, 1, 1, 1, 1000)));
        },
        other => panic!("expected Permission, got {other:?}"),
    }
}
