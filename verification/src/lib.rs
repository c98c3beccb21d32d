//! A STUN/TURN-style wire codec and a relay-hub model for NAT-traversal
//! rendezvous: header and attribute framing with 4-byte alignment,
//! XOR-obfuscated addresses, CRC32 fingerprints and HMAC-SHA1 integrity,
//! a reduced TURN request/response vocabulary, and the registry and
//! routing rules of the relay server that speaks it.
use vstd::prelude::*;

pub mod wire;
pub mod addr;
pub mod crypto;
pub mod frame;
pub mod dispatch;
pub mod laws;
pub mod stun;
pub mod attr;
pub mod attrs;
pub mod rfc8489;
pub mod auth;
pub mod turn;
pub mod hub;

verus! {

/// The fixed 32-bit constant that distinguishes this framing from
/// arbitrary data and seeds the XOR address mask.
pub const MAGIC: u32 = 0x2112A442;

} // verus!
