//! The concrete attribute codecs: mapped addresses, usernames, and the
//! keyed message-integrity check.
use vstd::prelude::*;

use crate::addr::{Ip, SockAddr};
use crate::attr::StunAttr;
use crate::crypto::{hmac_sha1, hmac_sha1_of, parse_utf8};
use crate::wire::{bytes_eq_fixed, push_bytes, push_u16_be, read_u16_be, spec_be_u16, spec_u16_be};
use vstd::slice::slice_to_vec;
use vstd::utf8::{decode_utf8, encode_utf8, valid_utf8};

verus! {

/// Why address value bytes do not decode.
#[derive(Debug)]
pub enum AddressDecodeError {
    /// Fewer than the four fixed bytes.
    TooShort,
    /// The address bytes do not match the family (the actual count).
    UnexpectedLength(usize),
    /// A family code other than IPv4 or IPv6.
    UnknownFamily(u8),
}

/// The value bytes of a plain address attribute: a zero byte, the
/// family code, the big-endian port, the address bytes.
pub open spec fn spec_addr_value(a: SockAddr) -> Seq<u8> {
    seq![0u8, a.ip.spec_family()] + spec_u16_be(a.port) + a.ip@
}

/// What decoding address value bytes yields: the address on success,
/// and the exact error otherwise.
pub open spec fn spec_addr_decode(value: Seq<u8>, r: Result<SockAddr, AddressDecodeError>) -> bool {
    if value.len() < 4 {
        r matches Err(AddressDecodeError::TooShort)
    } else {
        let family = value[1];
        let port = spec_be_u16(value[2], value[3]);
        let body = value.subrange(4, value.len() as int);
        if family == 1 && body.len() == 4 {
            r matches Ok(a) && a.ip@ == body && a.ip.spec_family() == 1 && a.port == port
        } else if family == 2 && body.len() == 16 {
            r matches Ok(a) && a.ip@ == body && a.ip.spec_family() == 2 && a.port == port
        } else if family == 1 || family == 2 {
            r == Err::<SockAddr, AddressDecodeError>(
                AddressDecodeError::UnexpectedLength(body.len() as usize),
            )
        } else {
            r == Err::<SockAddr, AddressDecodeError>(AddressDecodeError::UnknownFamily(family))
        }
    }
}

/// Decodes address value bytes: a zero byte, the family, the port, and
/// 4 or 16 address bytes.
pub fn decode_addr_value(value: &[u8]) -> (r: Result<SockAddr, AddressDecodeError>)
    ensures
        spec_addr_decode(value@, r),
{
    if value.len() < 4 {
        return Err(AddressDecodeError::TooShort);
    }
    let family = value[1];
    let port = read_u16_be(value, 2);
    let body_len = value.len() - 4;
    if family == 1 && body_len == 4 {
        let mut b = [0u8; 4];
        let mut i: usize = 0;
        while i < 4
            invariant
                0 <= i <= 4,
                value@.len() == 8,
                b@.len() == 4,
                forall|j: int| 0 <= j < i ==> b@[j] == value@[4 + j],
            decreases 4 - i,
        {
            b[i] = value[4 + i];
            i += 1;
        }
        proof {
            assert(b@ =~= value@.subrange(4, value@.len() as int));
        }
        Ok(SockAddr { ip: Ip::V4(b), port })
    } else if family == 2 && body_len == 16 {
        let mut b = [0u8; 16];
        let mut i: usize = 0;
        while i < 16
            invariant
                0 <= i <= 16,
                value@.len() == 20,
                b@.len() == 16,
                forall|j: int| 0 <= j < i ==> b@[j] == value@[4 + j],
            decreases 16 - i,
        {
            b[i] = value[4 + i];
            i += 1;
        }
        proof {
            assert(b@ =~= value@.subrange(4, value@.len() as int));
        }
        Ok(SockAddr { ip: Ip::V6(b), port })
    } else if family == 1 || family == 2 {
        Err(AddressDecodeError::UnexpectedLength(body_len))
    } else {
        Err(AddressDecodeError::UnknownFamily(family))
    }
}

/// Appends the value bytes of a plain address attribute.
pub fn encode_addr_value(a: &SockAddr, out: &mut Vec<u8>)
    ensures
        final(out)@ == old(out)@ + spec_addr_value(*a),
{
    out.push(0);
    out.push(a.ip.family());
    push_u16_be(out, a.port);
    match &a.ip {
        Ip::V4(b) => push_bytes(out, b.as_slice()),
        Ip::V6(b) => push_bytes(out, b.as_slice()),
    }
    proof {
        assert(final(out)@ =~= old(out)@ + spec_addr_value(*a));
    }
}

/// The mapped-address attribute: a socket address, in plain (not
/// XOR-obfuscated) form.
#[derive(Debug, Clone, Copy)]
pub struct MappedAddress(pub SockAddr);

impl StunAttr for MappedAddress {
    type Context = ();

    type Error = AddressDecodeError;

    open spec fn spec_attr_typ() -> u16 {
        0x0001
    }

    fn attr_typ() -> u16 {
        0x0001
    }

    open spec fn decode_spec(
        ctx: (),
        header: Seq<u8>,
        prefix: Seq<u8>,
        value: Seq<u8>,
        r: Result<Self, Self::Error>,
    ) -> bool {
        match r {
            Ok(m) => spec_addr_decode(value, Ok(m.0)),
            Err(e) => spec_addr_decode(value, Err(e)),
        }
    }

    fn decode(ctx: &(), header: &[u8; 20], prefix: &[u8], value: &[u8]) -> (r: Result<
        Self,
        Self::Error,
    >) {
        match decode_addr_value(value) {
            Ok(a) => Ok(MappedAddress(a)),
            Err(e) => Err(e),
        }
    }

    open spec fn spec_length(self) -> u16 {
        match self.0.ip {
            Ip::V4(_) => 8,
            Ip::V6(_) => 20,
        }
    }

    fn length(&self) -> u16 {
        match self.0.ip {
            Ip::V4(_) => 8,
            Ip::V6(_) => 20,
        }
    }

    open spec fn encode_spec(
        self,
        header: Seq<u8>,
        prefix: Seq<u8>,
        old_out: Seq<u8>,
        new_out: Seq<u8>,
    ) -> bool {
        new_out == old_out + spec_addr_value(self.0)
    }

    fn encode(&self, header: &[u8; 20], prefix: &[u8], out: &mut Vec<u8>) {
        encode_addr_value(&self.0, out);
    }
}

/// Whether address value bytes are well formed: the fixed four bytes
/// and address bytes matching a known family.
pub open spec fn spec_addr_ok(value: Seq<u8>) -> bool {
    value.len() >= 4 && ((value[1] == 1 && value.len() == 8) || (value[1] == 2 && value.len()
        == 20))
}

impl crate::dispatch::StunAttrEncode for MappedAddress {
    open spec fn spec_attr_header(self) -> Option<(u16, u16)> {
        Some((0x0001, <MappedAddress as StunAttr>::spec_length(self)))
    }

    fn header(&self) -> Option<(u16, u16)> {
        Some((0x0001, <MappedAddress as StunAttr>::length(self)))
    }

    open spec fn encode_spec(
        self,
        header: Seq<u8>,
        prefix: Seq<u8>,
        old_out: Seq<u8>,
        new_out: Seq<u8>,
    ) -> bool {
        new_out == old_out + spec_addr_value(self.0)
    }

    fn encode(&self, header: &[u8; 20], attr_prefix: &[u8], out: &mut Vec<u8>) {
        encode_addr_value(&self.0, out);
    }
}

impl crate::dispatch::StunAttr for MappedAddress {
    open spec fn spec_attr_type() -> u16 {
        0x0001
    }

    fn attr_type() -> u16 {
        0x0001
    }

    open spec fn decode_spec(header: Seq<u8>, prefix: Seq<u8>, value: Seq<u8>, r: Option<Self>) -> bool {
        match r {
            Some(m) => spec_addr_decode(value, Ok(m.0)),
            None => !spec_addr_ok(value),
        }
    }

    fn decode(header: &[u8; 20], attr_prefix: &[u8], value: &[u8]) -> (r: Option<Self>) {
        match decode_addr_value(value) {
            Ok(a) => Some(MappedAddress(a)),
            Err(_) => None,
        }
    }
}

/// Decoding the encoded value of any address gives that address back.
pub proof fn lemma_addr_round_trip(a: SockAddr, r: Result<SockAddr, AddressDecodeError>)
    requires
        spec_addr_decode(spec_addr_value(a), r),
    ensures
        r matches Ok(b) && b@ == a@ && b.ip.spec_family() == a.ip.spec_family(),
{
    let value = spec_addr_value(a);
    a.ip.lemma_len();
    assert(value[1] == a.ip.spec_family());
    assert(value[2] == spec_u16_be(a.port)[0]);
    assert(value[3] == spec_u16_be(a.port)[1]);
    crate::wire::lemma_u16_be_round_trip(a.port);
    assert(value.subrange(4, value.len() as int) =~= a.ip@);
}

/// A bad-UTF-8 rejection of a username attribute's bytes.
#[derive(Debug)]
pub struct BadUtf8;

/// The username attribute: UTF-8 text.
#[derive(Debug)]
pub struct Username(pub String);

impl StunAttr for Username {
    type Context = ();

    type Error = BadUtf8;

    open spec fn spec_attr_typ() -> u16 {
        0x0006
    }

    fn attr_typ() -> u16 {
        0x0006
    }

    open spec fn decode_spec(
        ctx: (),
        header: Seq<u8>,
        prefix: Seq<u8>,
        value: Seq<u8>,
        r: Result<Self, Self::Error>,
    ) -> bool {
        &&& r is Ok <==> valid_utf8(value)
        &&& r matches Ok(u) ==> u.0@ == decode_utf8(value)
    }

    fn decode(ctx: &(), header: &[u8; 20], prefix: &[u8], value: &[u8]) -> (r: Result<
        Self,
        Self::Error,
    >) {
        match parse_utf8(value) {
            Some(s) => Ok(Username(s)),
            None => Err(BadUtf8),
        }
    }

    open spec fn spec_length(self) -> u16 {
        (encode_utf8(self.0@).len() as usize) as u16
    }

    fn length(&self) -> u16 {
        #[verifier::truncate] (self.0.as_str().len() as u16)
    }

    open spec fn encode_spec(
        self,
        header: Seq<u8>,
        prefix: Seq<u8>,
        old_out: Seq<u8>,
        new_out: Seq<u8>,
    ) -> bool {
        new_out == old_out + encode_utf8(self.0@)
    }

    fn encode(&self, header: &[u8; 20], prefix: &[u8], out: &mut Vec<u8>) {
        push_bytes(out, self.0.as_str().as_bytes());
    }
}

/// Decoding the encoded bytes of any username gives the same text
/// back.
pub proof fn lemma_username_round_trip(u: Seq<char>, r: Result<Username, BadUtf8>)
    requires
        Username::decode_spec((), Seq::empty(), Seq::empty(), encode_utf8(u), r),
    ensures
        r matches Ok(v) && v.0@ == u,
{
    vstd::utf8::encode_utf8_valid_utf8(u);
    vstd::utf8::encode_utf8_decode_utf8(u);
}

/// A failed integrity verification: the stored tag does not match the
/// message prefix under the key.
#[derive(Debug)]
pub struct IntegrityError;

/// The message-integrity attribute: an HMAC-SHA1 tag over the message
/// prefix under a shared key. A decoded or constructed value carries
/// the key it was verified or is to be encoded under.
#[derive(Debug)]
pub struct Integrity {
    pub key: Vec<u8>,
}

impl StunAttr for Integrity {
    type Context = Vec<u8>;

    type Error = IntegrityError;

    open spec fn spec_attr_typ() -> u16 {
        0x0008
    }

    fn attr_typ() -> u16 {
        0x0008
    }

    open spec fn decode_spec(
        ctx: Vec<u8>,
        header: Seq<u8>,
        prefix: Seq<u8>,
        value: Seq<u8>,
        r: Result<Self, Self::Error>,
    ) -> bool {
        if value == hmac_sha1_of(ctx@, header + prefix) {
            r matches Ok(i) && i.key@ == ctx@
        } else {
            r matches Err(IntegrityError)
        }
    }

    fn decode(ctx: &Vec<u8>, header: &[u8; 20], prefix: &[u8], value: &[u8]) -> (r: Result<
        Self,
        Self::Error,
    >) {
        let mut msg: Vec<u8> = Vec::new();
        push_bytes(&mut msg, header.as_slice());
        push_bytes(&mut msg, prefix);
        let expected = hmac_sha1(ctx.as_slice(), msg.as_slice());
        if value.len() == expected.len() && bytes_eq_fixed(value, expected.as_slice()) {
            Ok(Integrity { key: slice_to_vec(ctx.as_slice()) })
        } else {
            Err(IntegrityError)
        }
    }

    open spec fn spec_length(self) -> u16 {
        20
    }

    fn length(&self) -> u16 {
        20
    }

    open spec fn encode_spec(
        self,
        header: Seq<u8>,
        prefix: Seq<u8>,
        old_out: Seq<u8>,
        new_out: Seq<u8>,
    ) -> bool {
        new_out == old_out + hmac_sha1_of(self.key@, header + prefix)
    }

    fn encode(&self, header: &[u8; 20], prefix: &[u8], out: &mut Vec<u8>) {
        let mut msg: Vec<u8> = Vec::new();
        push_bytes(&mut msg, header.as_slice());
        push_bytes(&mut msg, prefix);
        let tag = hmac_sha1(self.key.as_slice(), msg.as_slice());
        push_bytes(out, tag.as_slice());
    }
}

/// Verifying an integrity tag that was encoded over the same message
/// prefix under the same key always succeeds.
pub proof fn lemma_integrity_round_trip(
    key: Vec<u8>,
    header: Seq<u8>,
    prefix: Seq<u8>,
    r: Result<Integrity, IntegrityError>,
)
    requires
        Integrity::decode_spec(key, header, prefix, hmac_sha1_of(key@, header + prefix), r),
    ensures
        r matches Ok(i) && i.key@ == key@,
{
}

} // verus!
