use switchboard::addr::{Ip, SockAddr};
use switchboard::attr::StunAttrObj;
use switchboard::attrs::{AddressDecodeError, MappedAddress};
use switchboard::auth::{Auth, AuthError, Authentication, KeyStore};
use switchboard::dispatch::{KnownStunAttrs, Parse, Stun, StunDecodeErr, UnknownAttrs};
use switchboard::rfc8489::Rfc8489;
use switchboard::stun::{Stun as RawStun, StunDecodeError};
use hmac::Mac;

fn header(typ: u16, len: u16, txid: &[u8; 12]) -> Vec<u8> {
    let mut out = vec![
        (typ >> 8) as u8,
        (typ & 0xff) as u8,
        (len >> 8) as u8,
        (len & 0xff) as u8,
        0x21,
        0x12,
        0xA4,
        0x42,
    ];
    out.extend_from_slice(txid);
    out
}

#[test]
fn decode_dispatches_mapped_address_to_the_chain() {
    let txid = [2u8; 12];
    let mut msg = header(0x0001, 12, &txid);
    msg.extend_from_slice(&[0x00, 0x01, 0x00, 0x08, 0x00, 0x01, 0x10, 0x92, 203, 0, 113, 9]);
    let mut chain: Parse<MappedAddress, UnknownAttrs> = UnknownAttrs::default().parse();
    let stun = Stun::decode(&msg, &mut chain).unwrap();
    assert_eq!(stun.typ, 0x0001);
    assert_eq!(stun.txid, txid);
    assert_eq!(stun.decode_length(), 32);
    let got = chain.attr.expect("the mapped address decodes");
    assert!(got.0.addr_eq(&SockAddr { ip: Ip::V4([203, 0, 113, 9]), port: 4242 }));
    assert_eq!(chain.next.0, Vec::<u16>::new());
}

#[test]
fn unclaimed_comprehension_required_types_are_collected() {
    let txid = [0u8; 12];
    let mut msg = header(0x0001, 16, &txid);
    // One unknown comprehension-required attribute, one optional.
    msg.extend_from_slice(&[0x7F, 0x00, 0x00, 0x02, 1, 2, 0, 0]);
    msg.extend_from_slice(&[0x80, 0x01, 0x00, 0x01, 3, 0, 0, 0]);
    let mut unknown = UnknownAttrs::default();
    Stun::decode(&msg, &mut unknown).unwrap();
    assert_eq!(unknown.0, vec![0x7F00]);
}

#[test]
fn repeated_attributes_keep_the_first() {
    let txid = [0u8; 12];
    let mut msg = header(0x0001, 24, &txid);
    msg.extend_from_slice(&[0x00, 0x01, 0x00, 0x08, 0x00, 0x01, 0x00, 80, 1, 1, 1, 1]);
    msg.extend_from_slice(&[0x00, 0x01, 0x00, 0x08, 0x00, 0x01, 0x00, 80, 2, 2, 2, 2]);
    let mut chain: Parse<MappedAddress, UnknownAttrs> = UnknownAttrs::default().parse();
    Stun::decode(&msg, &mut chain).unwrap();
    let got = chain.attr.expect("the first mapped address decodes");
    assert!(got.0.addr_eq(&SockAddr { ip: Ip::V4([1, 1, 1, 1]), port: 80 }));
}

#[test]
fn decode_rejects_overlong_attribute_after_dispatching_earlier_ones() {
    let txid = [0u8; 12];
    let mut msg = header(0x0001, 12, &txid);
    msg.extend_from_slice(&[0x7F, 0x00, 0x00, 0x00]);
    msg.extend_from_slice(&[0x7F, 0x01, 0x00, 0x40, 0, 0, 0, 0]);
    let mut unknown = UnknownAttrs::default();
    assert!(matches!(
        Stun::decode(&msg, &mut unknown),
        Err(StunDecodeErr::BadAttrLength)
    ));
    // The attribute before the overrun was already dispatched.
    assert_eq!(unknown.0, vec![0x7F00]);
}

#[test]
fn fingerprint_verifies_and_detects_corruption() {
    let txid = [0x31u8; 12];
    // The fingerprint is computed over the header with its length
    // field covering everything up to and including this attribute.
    let head = header(0x0001, 8, &txid);
    let crc = crc32fast::hash(&head) ^ 0x5354554E;
    let mut msg = head.clone();
    msg.extend_from_slice(&[0x80, 0x28, 0x00, 0x04]);
    msg.extend_from_slice(&crc.to_be_bytes());
    let mut chain = Rfc8489::new(Vec::new(), UnknownAttrs::default());
    Stun::decode(&msg, &mut chain).unwrap();
    assert!(chain.fingerprint);

    // Any flipped message byte must change the verification result.
    for i in 8..20 {
        let mut bad = msg.clone();
        bad[i] ^= 0x40;
        let mut chain = Rfc8489::new(Vec::new(), UnknownAttrs::default());
        Stun::decode(&bad, &mut chain).unwrap();
        assert!(!chain.fingerprint, "flipping byte {i} went unnoticed");
    }

    // A stored value that is not the checksum is reported as a
    // mismatch, never accepted.
    let mut bad = msg.clone();
    bad[24] ^= 1;
    let mut chain = Rfc8489::new(Vec::new(), UnknownAttrs::default());
    Stun::decode(&bad, &mut chain).unwrap();
    assert!(!chain.fingerprint);
}

#[test]
fn attributes_after_a_verified_fingerprint_are_ignored() {
    let txid = [7u8; 12];
    let head = header(0x0001, 8, &txid);
    let crc = crc32fast::hash(&head) ^ 0x5354554E;
    let mut msg = header(0x0001, 16, &txid);
    msg.extend_from_slice(&[0x80, 0x28, 0x00, 0x04]);
    msg.extend_from_slice(&crc.to_be_bytes());
    msg.extend_from_slice(&[0x00, 0x06, 0x00, 0x04]);
    msg.extend_from_slice(b"late");
    let mut chain = Rfc8489::new(Vec::new(), UnknownAttrs::default());
    Stun::decode(&msg, &mut chain).unwrap();
    assert!(chain.fingerprint);
    assert_eq!(chain.username, "");
}

#[test]
fn username_lands_in_the_handler() {
    let txid = [0u8; 12];
    let mut msg = header(0x0001, 12, &txid);
    msg.extend_from_slice(&[0x00, 0x06, 0x00, 0x05]);
    msg.extend_from_slice(b"alice");
    msg.extend_from_slice(&[0, 0, 0]);
    let mut chain = Rfc8489::new(Vec::new(), UnknownAttrs::default());
    Stun::decode(&msg, &mut chain).unwrap();
    assert_eq!(chain.username, "alice");
}

#[test]
fn invalid_utf8_username_is_marked() {
    let txid = [0u8; 12];
    let mut msg = header(0x0001, 8, &txid);
    msg.extend_from_slice(&[0x00, 0x06, 0x00, 0x02, 0xFF, 0xFE, 0, 0]);
    let mut chain = Rfc8489::new(Vec::new(), UnknownAttrs::default());
    Stun::decode(&msg, &mut chain).unwrap();
    assert_eq!(chain.username, "[invalid utf-8]");
}

#[test]
fn integrity_in_the_chain_verifies_with_the_right_key() {
    let key = b"relay secret".to_vec();
    let txid = [0x11u8; 12];
    // The integrity tag covers the header (length just past the
    // attribute) and everything before it; here it is the first
    // attribute, so just the header.
    let head: Vec<u8> = header(0x0001, 24, &txid);
    let mut mac = hmac::Hmac::<sha1::Sha1>::new_from_slice(&key).unwrap();
    mac.update(&head);
    let tag = mac.finalize().into_bytes().to_vec();
    let mut msg = header(0x0001, 24, &txid);
    msg.extend_from_slice(&[0x00, 0x08, 0x00, 0x14]);
    msg.extend_from_slice(&tag);
    let mut chain = Rfc8489::new(key, UnknownAttrs::default());
    Stun::decode(&msg, &mut chain).unwrap();
    assert!(chain.integrity);
    // The wrong key rejects the tag.
    let mut chain = Rfc8489::new(b"wrong".to_vec(), UnknownAttrs::default());
    Stun::decode(&msg, &mut chain).unwrap();
    assert!(!chain.integrity);
}

#[test]
fn key_store_looks_up_by_username_in_the_empty_realm() {
    let store = KeyStore(vec![
        (String::from("alice"), b"a-key".to_vec()),
        (String::from("bob"), b"b-key".to_vec()),
    ]);
    assert_eq!(store.key("", "alice"), Some(b"a-key".to_vec()));
    assert_eq!(store.key("", "bob"), Some(b"b-key".to_vec()));
    assert_eq!(store.key("", "carol"), None);
    assert_eq!(store.key("realm", "alice"), None);
    assert_eq!(().key("", "alice"), None);
}

#[test]
fn auth_chain_verifies_integrity_under_the_stored_key() {
    let store = KeyStore(vec![(String::from("alice"), b"a-key".to_vec())]);
    let txid = [0x22u8; 12];
    let username_attr: &[u8] = &[0x00, 0x06, 0x00, 0x05, b'a', b'l', b'i', b'c', b'e', 0, 0, 0];
    // Length just past the integrity attribute: 12 + 24 = 36.
    let head = header(0x0001, 36, &txid);
    let mut covered = head.clone();
    covered.extend_from_slice(username_attr);
    let mut mac = hmac::Hmac::<sha1::Sha1>::new_from_slice(b"a-key").unwrap();
    mac.update(&covered);
    let tag = mac.finalize().into_bytes().to_vec();
    let mut msg = header(0x0001, 36, &txid);
    msg.extend_from_slice(username_attr);
    msg.extend_from_slice(&[0x00, 0x08, 0x00, 0x14]);
    msg.extend_from_slice(&tag);
    let mut chain = Auth::new(store, UnknownAttrs::default());
    Stun::decode(&msg, &mut chain).unwrap();
    assert_eq!(chain.username, "alice");
    assert_eq!(chain.key, Some(b"a-key".to_vec()));
    assert!(chain.error.is_none());
}

#[test]
fn auth_chain_refuses_unknown_users() {
    let store = KeyStore(vec![(String::from("alice"), b"a-key".to_vec())]);
    let txid = [0x22u8; 12];
    let mut msg = header(0x0001, 36, &txid);
    msg.extend_from_slice(&[0x00, 0x06, 0x00, 0x05, b'm', b'a', b'l', b'e', b'k', 0, 0, 0]);
    msg.extend_from_slice(&[0x00, 0x08, 0x00, 0x14]);
    msg.extend_from_slice(&[0u8; 20]);
    let mut chain = Auth::new(store, UnknownAttrs::default());
    Stun::decode(&msg, &mut chain).unwrap();
    assert_eq!(chain.key, None);
    assert_eq!(chain.error, Some(AuthError::Forbidden));
}

#[test]
fn auth_chain_records_fingerprint_failure() {
    let txid = [0u8; 12];
    let mut msg = header(0x0001, 8, &txid);
    msg.extend_from_slice(&[0x80, 0x28, 0x00, 0x04, 0, 0, 0, 0]);
    let mut chain = Auth::new((), UnknownAttrs::default());
    Stun::decode(&msg, &mut chain).unwrap();
    assert!(!chain.fingerprint);
    assert_eq!(chain.error, Some(AuthError::FingerprintFailed));
}

#[test]
fn two_step_codec_decodes_then_parses() {
    let txid = [3u8; 12];
    let mut msg = header(0x0001, 12, &txid);
    msg.extend_from_slice(&[0x00, 0x01, 0x00, 0x08, 0x00, 0x01, 0x00, 80, 6, 7, 8, 9]);
    let stun = switchboard::stun::Stun::decode(&msg).unwrap();
    assert_eq!(stun.typ, 0x0001);
    assert_eq!(stun.txid, txid);
    assert_eq!(stun.decode_length(), 32);
    assert_eq!(stun.attrs.len(), 12);
    let chain: Parse<MappedAddress, UnknownAttrs> = UnknownAttrs::default().parse();
    let parsed = stun.parse(chain);
    assert_eq!(parsed.typ, 0x0001);
    assert_eq!(parsed.txid, txid);
    let got = parsed.attrs.attr.expect("the mapped address decodes");
    assert!(got.0.addr_eq(&SockAddr { ip: Ip::V4([6, 7, 8, 9]), port: 80 }));
}

#[test]
fn two_step_codec_rejects_bad_headers() {
    let txid = [0u8; 12];
    assert!(matches!(
        RawStun::decode(&[0u8; 8]),
        Err(StunDecodeError::TooSmall(20))
    ));
    let msg = header(0x4000, 0, &txid);
    assert!(matches!(
        RawStun::decode(&msg),
        Err(StunDecodeError::TypeOutOfRange)
    ));
    let msg = header(0x0001, 3, &txid);
    assert!(matches!(
        RawStun::decode(&msg),
        Err(StunDecodeError::UnalignedLength)
    ));
    let msg = header(0x0001, 4, &txid);
    assert!(matches!(
        RawStun::decode(&msg),
        Err(StunDecodeError::TooSmall(24))
    ));
    let mut msg = header(0x0001, 0, &txid);
    msg[7] = 0;
    assert!(matches!(
        RawStun::decode(&msg),
        Err(StunDecodeError::BadMagic)
    ));
}

#[test]
fn attribute_slot_takes_the_first_occurrence() {
    let header = [0u8; 20];
    let mut slot: Option<Result<MappedAddress, AddressDecodeError>> = None;
    slot.decode(&header, &[], 0x0006, b"not ours");
    assert!(slot.is_none());
    assert_eq!(slot.header(), None);
    slot.decode(&header, &[], 0x0001, &[0x00, 0x01, 0x00, 80, 9, 9, 9, 9]);
    let first = match &slot {
        Some(Ok(a)) => a.0,
        _ => panic!("the slot decodes the first occurrence"),
    };
    assert!(first.addr_eq(&SockAddr { ip: Ip::V4([9, 9, 9, 9]), port: 80 }));
    assert_eq!(slot.header(), Some((0x0001, 8)));
    // A second occurrence does not replace it.
    slot.decode(&header, &[], 0x0001, &[0x00, 0x01, 0x00, 81, 8, 8, 8, 8]);
    match &slot {
        Some(Ok(a)) => assert!(a.0.addr_eq(&first)),
        _ => panic!("the slot keeps the first occurrence"),
    }
    let mut out: Vec<u8> = Vec::new();
    slot.encode(&header, &[], &mut out);
    assert_eq!(out, vec![0x00, 0x01, 0x00, 80, 9, 9, 9, 9]);
}
