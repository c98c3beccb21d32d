use switchboard::addr::{Ip, SockAddr};
use switchboard::attr::StunAttr;
use switchboard::attrs::{AddressDecodeError, Integrity, MappedAddress, Username};
use switchboard::wire;
use hmac::Mac;

fn v4(a: u8, b: u8, c: u8, d: u8, port: u16) -> SockAddr {
    SockAddr { ip: Ip::V4([a, b, c, d]), port }
}

fn v6(bytes: [u8; 16], port: u16) -> SockAddr {
    SockAddr { ip: Ip::V6(bytes), port }
}

#[test]
fn be_round_trips() {
    let mut out: Vec<u8> = Vec::new();
    wire::push_u16_be(&mut out, 0xABCD);
    assert_eq!(out, vec![0xAB, 0xCD]);
    assert_eq!(wire::read_u16_be(&out, 0), 0xABCD);
    let mut out: Vec<u8> = Vec::new();
    wire::push_u32_be(&mut out, 0x2112A442);
    assert_eq!(out, vec![0x21, 0x12, 0xA4, 0x42]);
    assert_eq!(wire::read_u32_be(&out, 0), 0x2112A442);
}

#[test]
fn pad4_rounds_up() {
    assert_eq!(wire::pad4_exec(0), 0);
    assert_eq!(wire::pad4_exec(1), 4);
    assert_eq!(wire::pad4_exec(4), 4);
    assert_eq!(wire::pad4_exec(5), 8);
    assert_eq!(wire::pad4_exec(7), 8);
}

#[test]
fn xor_address_symmetry_v4() {
    let txid = [7u8; 12];
    let mask = switchboard::addr::xor_mask(&txid);
    let a = v4(192, 168, 1, 10, 51820);
    let once = a.xor_with(&mask);
    let twice = once.xor_with(&mask);
    assert!(twice.addr_eq(&a));
    // The mask really changes the bytes.
    assert!(!once.addr_eq(&a));
}

#[test]
fn xor_address_symmetry_v6() {
    let txid = [
        0x01, 0x02, 0x03, 0x04, 0x05, 0x06, 0x07, 0x08, 0x09, 0x0A, 0x0B, 0x0C,
    ];
    let mask = switchboard::addr::xor_mask(&txid);
    let a = v6(
        [
            0x20, 0x01, 0x0d, 0xb8, 0, 0, 0, 0, 0, 0, 0, 0, 0, 0, 0x12, 0x34,
        ],
        3478,
    );
    let twice = a.xor_with(&mask).xor_with(&mask);
    assert!(twice.addr_eq(&a));
}

#[test]
fn xor_mask_is_cookie_then_txid() {
    let txid = [9u8; 12];
    let mask = switchboard::addr::xor_mask(&txid);
    assert_eq!(&mask[..4], &[0x21, 0x12, 0xA4, 0x42]);
    assert_eq!(&mask[4..], &[9u8; 12]);
}

#[test]
fn canonical_unwraps_v4_mapped() {
    let mapped = v6(
        [0, 0, 0, 0, 0, 0, 0, 0, 0, 0, 0xff, 0xff, 10, 0, 0, 7],
        9000,
    );
    let c = mapped.to_canonical();
    assert!(c.addr_eq(&v4(10, 0, 0, 7, 9000)));
    // A native IPv6 address stays itself.
    let native = v6([0x20, 0x01, 0, 0, 0, 0, 0, 0, 0, 0, 0, 0, 0, 0, 0, 1], 1);
    assert!(native.to_canonical().addr_eq(&native));
    // A plain IPv4 address stays itself.
    let plain = v4(1, 2, 3, 4, 5);
    assert!(plain.to_canonical().addr_eq(&plain));
}

#[test]
fn mapped_address_round_trip_v4() {
    let a = MappedAddress(v4(203, 0, 113, 9, 4242));
    let header = [0u8; 20];
    let mut out: Vec<u8> = Vec::new();
    a.encode(&header, &[], &mut out);
    assert_eq!(a.length(), 8);
    assert_eq!(out.len(), 8);
    assert_eq!(out, vec![0, 1, 0x10, 0x92, 203, 0, 113, 9]);
    let back = MappedAddress::decode(&(), &header, &[], &out).unwrap();
    assert!(back.0.addr_eq(&a.0));
}

#[test]
fn mapped_address_round_trip_v6() {
    let ip = [
        0x20, 0x01, 0x0d, 0xb8, 1, 2, 3, 4, 5, 6, 7, 8, 9, 10, 11, 12,
    ];
    let a = MappedAddress(v6(ip, 65535));
    let header = [0u8; 20];
    let mut out: Vec<u8> = Vec::new();
    a.encode(&header, &[], &mut out);
    assert_eq!(a.length(), 20);
    assert_eq!(out.len(), 20);
    let back = MappedAddress::decode(&(), &header, &[], &out).unwrap();
    assert!(back.0.addr_eq(&a.0));
}

#[test]
fn mapped_address_rejects_bad_input() {
    let header = [0u8; 20];
    assert!(matches!(
        MappedAddress::decode(&(), &header, &[], &[0, 1]),
        Err(AddressDecodeError::TooShort)
    ));
    assert!(matches!(
        MappedAddress::decode(&(), &header, &[], &[0, 1, 0, 80, 1, 2, 3]),
        Err(AddressDecodeError::UnexpectedLength(3))
    ));
    assert!(matches!(
        MappedAddress::decode(&(), &header, &[], &[0, 9, 0, 80, 1, 2, 3, 4]),
        Err(AddressDecodeError::UnknownFamily(9))
    ));
}

#[test]
fn username_round_trip() {
    let u = Username(String::from("alice:bob"));
    let header = [0u8; 20];
    let mut out: Vec<u8> = Vec::new();
    u.encode(&header, &[], &mut out);
    assert_eq!(out, b"alice:bob".to_vec());
    assert_eq!(u.length() as usize, out.len());
    let back = Username::decode(&(), &header, &[], &out).unwrap();
    assert_eq!(back.0, "alice:bob");
}

#[test]
fn username_rejects_bad_utf8() {
    let header = [0u8; 20];
    assert!(Username::decode(&(), &header, &[], &[0xff, 0xfe, 0xfd]).is_err());
}

#[test]
fn integrity_verifies_its_own_tag() {
    let key: Vec<u8> = b"shared key".to_vec();
    let header = [0x42u8; 20];
    let prefix = [1u8, 2, 3, 4];
    let made = Integrity { key: key.clone() };
    let mut out: Vec<u8> = Vec::new();
    made.encode(&header, &prefix, &mut out);
    assert_eq!(out.len(), 20);
    // The encoded tag is the real HMAC-SHA1 of header then prefix.
    let mut mac = hmac::Hmac::<sha1::Sha1>::new_from_slice(&key).unwrap();
    mac.update(&header);
    mac.update(&prefix);
    assert_eq!(out, mac.finalize().into_bytes().to_vec());
    // Verifying the same bytes under the same key succeeds.
    let back = Integrity::decode(&key, &header, &prefix, &out);
    assert!(back.is_ok());
    assert_eq!(back.unwrap().key, key);
    // A flipped byte fails verification.
    let mut bad = out.clone();
    bad[0] ^= 1;
    assert!(Integrity::decode(&key, &header, &prefix, &bad).is_err());
    // A wrong key fails verification.
    let other: Vec<u8> = b"other".to_vec();
    assert!(Integrity::decode(&other, &header, &prefix, &out).is_err());
}
