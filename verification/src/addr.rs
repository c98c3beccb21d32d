//! The socket-address model of the library: 4- or 16-byte address plus
//! port, canonicalization of IPv4-mapped IPv6 addresses, the broadcast
//! sentinel, and the XOR obfuscation applied by the XOR address
//! attributes.
use vstd::prelude::*;

use crate::wire::{spec_u32_be, spec_be_u16};
use crate::MAGIC;

verus! {

/// An IP address held as its raw bytes: 4 for IPv4, 16 for IPv6.
#[derive(Clone, Copy, Debug)]
pub enum Ip {
    V4([u8; 4]),
    V6([u8; 16]),
}

/// A socket address: an IP address and a port.
#[derive(Clone, Copy, Debug)]
pub struct SockAddr {
    pub ip: Ip,
    pub port: u16,
}

impl View for Ip {
    type V = Seq<u8>;

    open spec fn view(&self) -> Seq<u8> {
        match self {
            Ip::V4(b) => b@,
            Ip::V6(b) => b@,
        }
    }
}

impl View for SockAddr {
    type V = (Seq<u8>, u16);

    open spec fn view(&self) -> (Seq<u8>, u16) {
        (self.ip@, self.port)
    }
}

impl Ip {
    /// Address family code on the wire: 1 for IPv4, 2 for IPv6.
    pub open spec fn spec_family(self) -> u8 {
        match self {
            Ip::V4(_) => 1,
            Ip::V6(_) => 2,
        }
    }

    pub fn family(&self) -> (r: u8)
        ensures
            r == self.spec_family(),
    {
        match self {
            Ip::V4(_) => 1,
            Ip::V6(_) => 2,
        }
    }

    pub proof fn lemma_len(self)
        ensures
            self@.len() == if self matches Ip::V4(_) { 4int } else { 16int },
    {
    }
}

/// True of the 16 address bytes of an IPv4-mapped IPv6 address
/// (`::ffff:a.b.c.d`).
pub open spec fn is_v4_mapped(s: Seq<u8>) -> bool {
    &&& s.len() == 16
    &&& forall|i: int| 0 <= i < 10 ==> s[i] == 0
    &&& s[10] == 0xff
    &&& s[11] == 0xff
}

/// The canonical form of an address view: an IPv4-mapped IPv6 address
/// becomes the plain IPv4 address it holds; everything else is itself.
pub open spec fn spec_canonical(a: (Seq<u8>, u16)) -> (Seq<u8>, u16) {
    if is_v4_mapped(a.0) {
        (a.0.subrange(12, 16), a.1)
    } else {
        a
    }
}

/// The 16-byte XOR mask for XOR address attributes: the big-endian magic
/// cookie followed by the 12 transaction-id bytes.
pub open spec fn spec_xor_mask(txid: Seq<u8>) -> Seq<u8> {
    spec_u32_be(MAGIC) + txid
}

/// Each byte of `s` XORed with the byte of `m` at the same index.
pub open spec fn xor_seq(s: Seq<u8>, m: Seq<u8>) -> Seq<u8> {
    Seq::new(s.len(), |i: int| s[i] ^ m[i])
}

/// The port mask of the XOR address attributes: the top 16 bits of the
/// magic cookie.
pub open spec fn spec_port_mask() -> u16 {
    spec_be_u16(spec_u32_be(MAGIC)[0], spec_u32_be(MAGIC)[1])
}

/// XOR applied twice with the same mask gives the bytes back.
pub proof fn lemma_xor_seq_involution(s: Seq<u8>, m: Seq<u8>)
    requires
        m.len() >= s.len(),
    ensures
        xor_seq(xor_seq(s, m), m) == s,
{
    assert forall|i: int| 0 <= i < s.len() implies xor_seq(xor_seq(s, m), m)[i] == s[i] by {
        let x = s[i];
        let y = m[i];
        assert((x ^ y) ^ y == x) by (bit_vector);
    }
    assert(xor_seq(xor_seq(s, m), m) =~= s);
}

/// XOR applied twice with the same mask gives the port back.
pub proof fn lemma_xor_port_involution(p: u16, m: u16)
    ensures
        (p ^ m) ^ m == p,
{
    assert((p ^ m) ^ m == p) by (bit_vector);
}

/// Builds the 16-byte XOR mask from a transaction id.
pub fn xor_mask(txid: &[u8; 12]) -> (r: [u8; 16])
    ensures
        r@ == spec_xor_mask(txid@),
{
    let magic = crate::MAGIC;
    let mut r = [0u8; 16];
    r[0] = (magic >> 24) as u8;
    r[1] = ((magic >> 16) & 0xff) as u8;
    r[2] = ((magic >> 8) & 0xff) as u8;
    r[3] = (magic & 0xff) as u8;
    let mut i: usize = 0;
    while i < 12
        invariant
            0 <= i <= 12,
            r@.len() == 16,
            r@.subrange(0, 4) =~= spec_u32_be(MAGIC),
            forall|j: int| 0 <= j < i ==> r@[4 + j] == txid@[j],
        decreases 12 - i,
    {
        r[4 + i] = txid[i];
        i += 1;
    }
    assert(r@ =~= spec_xor_mask(txid@));
    r
}

impl SockAddr {
    /// The canonical form of this address: an IPv4-mapped IPv6 address is
    /// normalized to the IPv4 address it holds, so that the two compare
    /// equal as registry keys.
    pub fn to_canonical(&self) -> (r: SockAddr)
        ensures
            r@ == spec_canonical(self@),
    {
        match &self.ip {
            Ip::V6(b) => {
                let mut mapped = true;
                let mut i: usize = 0;
                while i < 10
                    invariant
                        0 <= i <= 10,
                        mapped <==> forall|j: int| 0 <= j < i ==> b@[j] == 0,
                    decreases 10 - i,
                {
                    if b[i] != 0 {
                        mapped = false;
                    }
                    i += 1;
                }
                if mapped && b[10] == 0xff && b[11] == 0xff {
                    let v4 = [b[12], b[13], b[14], b[15]];
                    assert(v4@ =~= b@.subrange(12, 16));
                    SockAddr { ip: Ip::V4(v4), port: self.port }
                } else {
                    *self
                }
            },
            Ip::V4(_) => *self,
        }
    }

    /// True when this address already is its canonical form.
    pub open spec fn is_canonical(self) -> bool {
        self@ == spec_canonical(self@)
    }

    /// True of the broadcast sentinel: the all-ones IPv4 address, on any
    /// port.
    pub open spec fn spec_is_broadcast(self) -> bool {
        self.ip@ == seq![0xffu8, 0xff, 0xff, 0xff]
    }

    pub fn is_broadcast(&self) -> (r: bool)
        ensures
            r == self.spec_is_broadcast(),
    {
        match &self.ip {
            Ip::V4(b) => {
                let r = b[0] == 0xff && b[1] == 0xff && b[2] == 0xff && b[3] == 0xff;
                proof {
                    if r {
                        assert(b@ =~= seq![0xffu8, 0xff, 0xff, 0xff]);
                    }
                    if b@ == seq![0xffu8, 0xff, 0xff, 0xff] {
                        assert(b@[0] == 0xff && b@[1] == 0xff && b@[2] == 0xff && b@[3] == 0xff);
                    }
                }
                r
            },
            Ip::V6(b) => {
                proof {
                    assert(b@.len() == 16);
                }
                false
            },
        }
    }

    /// True when the two addresses are equal byte for byte and in port.
    pub fn addr_eq(&self, other: &SockAddr) -> (r: bool)
        ensures
            r <==> self@ == other@,
    {
        if self.port != other.port {
            return false;
        }
        match (&self.ip, &other.ip) {
            (Ip::V4(a), Ip::V4(b)) => crate::wire::bytes_eq(a.as_slice(), b.as_slice()),
            (Ip::V6(a), Ip::V6(b)) => crate::wire::bytes_eq(a.as_slice(), b.as_slice()),
            (Ip::V4(a), Ip::V6(b)) => {
                proof {
                    assert(a@.len() == 4 && b@.len() == 16);
                }
                false
            },
            (Ip::V6(a), Ip::V4(b)) => {
                proof {
                    assert(a@.len() == 16 && b@.len() == 4);
                }
                false
            },
        }
    }

    /// XORs the address bytes with the mask and the port with the top of
    /// the magic cookie, as the XOR address attributes do. Applying it
    /// twice with the same mask gives the address back.
    pub fn xor_with(&self, mask: &[u8; 16]) -> (r: SockAddr)
        ensures
            r@.0 == xor_seq(self@.0, mask@),
            r@.1 == self@.1 ^ spec_port_mask(),
    {
        let port_mask = 0x2112u16;
        proof {
            assert((0x2112A442u32 >> 24) as u8 == 0x21u8) by (bit_vector);
            assert(((0x2112A442u32 >> 16) & 0xff) as u8 == 0x12u8) by (bit_vector);
            assert(((0x21u8 as u16) << 8 | (0x12u8 as u16)) == 0x2112u16) by (bit_vector);
            assert(spec_port_mask() == 0x2112u16);
        }
        let ip = match &self.ip {
            Ip::V4(b) => {
                let mut out = [0u8; 4];
                let mut i: usize = 0;
                while i < 4
                    invariant
                        0 <= i <= 4,
                        out@.len() == 4,
                        forall|j: int| 0 <= j < i ==> out@[j] == (b@[j] ^ mask@[j]),
                    decreases 4 - i,
                {
                    out[i] = b[i] ^ mask[i];
                    i += 1;
                }
                proof {
                    assert(out@ =~= xor_seq(b@, mask@));
                }
                Ip::V4(out)
            },
            Ip::V6(b) => {
                let mut out = [0u8; 16];
                let mut i: usize = 0;
                while i < 16
                    invariant
                        0 <= i <= 16,
                        out@.len() == 16,
                        forall|j: int| 0 <= j < i ==> out@[j] == (b@[j] ^ mask@[j]),
                    decreases 16 - i,
                {
                    out[i] = b[i] ^ mask[i];
                    i += 1;
                }
                proof {
                    assert(out@ =~= xor_seq(b@, mask@));
                }
                Ip::V6(out)
            },
        };
        SockAddr { ip, port: self.port ^ port_mask }
    }
}

/// XOR obfuscation is an involution on whole addresses: masking twice
/// with the same transaction id gives the address back unchanged.
pub proof fn lemma_xor_addr_symmetry(a: SockAddr, b: SockAddr, c: SockAddr, txid: Seq<u8>)
    requires
        txid.len() == 12,
        b@.0 == xor_seq(a@.0, spec_xor_mask(txid)),
        b@.1 == a@.1 ^ spec_port_mask(),
        c@.0 == xor_seq(b@.0, spec_xor_mask(txid)),
        c@.1 == b@.1 ^ spec_port_mask(),
    ensures
        c@ == a@,
{
    lemma_xor_seq_involution(a@.0, spec_xor_mask(txid));
    lemma_xor_port_involution(a@.1, spec_port_mask());
}

} // verus!
