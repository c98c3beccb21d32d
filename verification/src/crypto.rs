//! The checksums and text decoding that the codec leans on outside
//! crates for: CRC32 (fingerprint attribute), HMAC-SHA1 (integrity
//! attribute) and UTF-8 parsing (username attribute).
use hmac::Mac;
use vstd::prelude::*;

verus! {

/// The CRC32 checksum of a byte string, as crc32fast computes it: a
/// function of the bytes alone.
pub uninterp spec fn crc32_of(data: Seq<u8>) -> u32;

/// Relies on crc32fast::hash: the CRC32 of the buffer, a function of its
/// bytes alone.
#[verifier::external_body]
pub(crate) fn crc32(data: &[u8]) -> (r: u32)
    ensures
        r == crc32_of(data@),
{
    crc32fast::hash(data)
}

/// The HMAC-SHA1 tag of a message under a key, as the hmac and sha1
/// crates compute it: a function of key and message alone, 20 bytes
/// long (the SHA-1 output size).
pub uninterp spec fn hmac_sha1_of(key: Seq<u8>, data: Seq<u8>) -> Seq<u8>;

/// Relies on hmac::Hmac over sha1::Sha1: the 20-byte HMAC-SHA1 tag of
/// the message under the key; HMAC accepts keys of any length.
#[verifier::external_body]
pub(crate) fn hmac_sha1(key: &[u8], data: &[u8]) -> (r: Vec<u8>)
    ensures
        r@ == hmac_sha1_of(key@, data@),
        r@.len() == 20,
{
    let mut mac = <hmac::Hmac<sha1::Sha1> as hmac::Mac>::new_from_slice(key)
        .expect("HMAC accepts keys of any length");
    mac.update(data);
    mac.finalize().into_bytes().to_vec()
}

/// Relies on str::from_utf8: succeeds exactly on valid UTF-8 and yields
/// the characters the bytes encode.
#[verifier::external_body]
pub(crate) fn parse_utf8(v: &[u8]) -> (r: Option<String>)
    ensures
        r is Some <==> vstd::utf8::valid_utf8(v@),
        r matches Some(s) ==> s@ == vstd::utf8::decode_utf8(v@),
{
    std::str::from_utf8(v).ok().map(|s| s.to_string())
}

} // verus!
