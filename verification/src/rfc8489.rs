//! The standard attribute handler: skips the plain mapped address in
//! favour of its XOR variant, verifies the CRC32 fingerprint, records
//! the username, verifies the keyed integrity tag, and passes anything
//! else down the chain.
use vstd::prelude::*;

use crate::crypto::{crc32, crc32_of, hmac_sha1, hmac_sha1_of, parse_utf8};
use crate::dispatch::{AttrCall, KnownStunAttrs};
use crate::wire::{bytes_eq_fixed, push_bytes, read_u32_be, spec_be_u32};

verus! {

/// The value the stored fingerprint is checked against: the CRC32 of
/// the message prefix, XORed with a fixed constant.
pub open spec fn spec_fingerprint(header: Seq<u8>, prefix: Seq<u8>) -> u32 {
    crc32_of(header + prefix) ^ 0x5354554E
}

/// The 32-bit value stored in a fingerprint attribute: its first four
/// bytes, or zero when it is shorter.
pub open spec fn spec_stored_fingerprint(value: Seq<u8>) -> u32 {
    if value.len() >= 4 {
        spec_be_u32(value[0], value[1], value[2], value[3])
    } else {
        0
    }
}

/// An error response in the making: a numeric code, a reason, and the
/// comprehension-required attribute types that were not understood.
pub struct StunError {
    pub code: u16,
    pub reason: String,
    pub unknown_attrs: Vec<u16>,
}

/// A handler for the standard attributes. `fingerprint` records
/// whether a fingerprint attribute verified; once one did, everything
/// after it is ignored. `integrity` records whether an integrity
/// attribute verified under `key`; attributes after a verified
/// integrity (the fingerprint aside) are ignored too.
pub struct Rfc8489<N> {
    pub username: String,
    pub key: Vec<u8>,
    pub integrity: bool,
    pub fingerprint: bool,
    pub next: N,
}

impl<N> Rfc8489<N> {
    /// A fresh handler that verifies integrity under the given key.
    pub fn new(key: Vec<u8>, next: N) -> (r: Self)
        ensures
            r.username@ == Seq::<char>::empty(),
            r.key@ == key@,
            !r.integrity,
            !r.fingerprint,
            r.next == next,
    {
        Rfc8489 { username: String::new(), key, integrity: false, fingerprint: false, next }
    }
}

impl<N: KnownStunAttrs> KnownStunAttrs for Rfc8489<N> {
    open spec fn attr_update(pre: Self, post: Self, call: AttrCall) -> bool {
        if call.attr_typ == 0x0001 {
            // The plain mapped address is skipped in favour of the XOR
            // variant.
            post == pre
        } else if pre.fingerprint {
            // Nothing after a verified fingerprint is trusted.
            post == pre
        } else if call.attr_typ == 0x8028 {
            &&& post.username == pre.username
            &&& post.key == pre.key
            &&& post.integrity == pre.integrity
            &&& post.next == pre.next
            &&& post.fingerprint == (spec_stored_fingerprint(call.value) == spec_fingerprint(
                call.header,
                call.prefix,
            ))
        } else if pre.integrity {
            // Attributes after a verified integrity tag (the
            // fingerprint aside) are ignored.
            post == pre
        } else if call.attr_typ == 0x0006 {
            &&& post.key == pre.key
            &&& post.integrity == pre.integrity
            &&& post.fingerprint == pre.fingerprint
            &&& post.next == pre.next
            &&& if pre.username@.len() != 0 {
                post.username == pre.username
            } else if vstd::utf8::valid_utf8(call.value) {
                post.username@ == vstd::utf8::decode_utf8(call.value)
            } else {
                post.username@ == "[invalid utf-8]"@
            }
        } else if call.attr_typ == 0x0008 {
            &&& post.username == pre.username
            &&& post.key == pre.key
            &&& post.fingerprint == pre.fingerprint
            &&& post.next == pre.next
            &&& post.integrity == (call.value == hmac_sha1_of(pre.key@, call.header + call.prefix))
        } else {
            &&& post.username == pre.username
            &&& post.key == pre.key
            &&& post.integrity == pre.integrity
            &&& post.fingerprint == pre.fingerprint
            &&& N::attr_update(pre.next, post.next, call)
        }
    }

    fn decode_attr(&mut self, attr_typ: u16, header: &[u8; 20], attr_prefix: &[u8], value: &[u8]) {
        if attr_typ == 0x0001 {
            // Skip: the XOR variant carries the address.
        } else if self.fingerprint {
            // Ignore everything after a verified fingerprint.
        } else if attr_typ == 0x8028 {
            let actual = if value.len() >= 4 {
                read_u32_be(value, 0)
            } else {
                0
            };
            let mut msg: Vec<u8> = Vec::new();
            push_bytes(&mut msg, header.as_slice());
            push_bytes(&mut msg, attr_prefix);
            let expected = crc32(msg.as_slice()) ^ 0x5354554E;
            self.fingerprint = actual == expected;
        } else if self.integrity {
            // Ignore attributes after a verified integrity tag.
        } else if attr_typ == 0x0006 {
            if self.username.as_str().is_empty() {
                match parse_utf8(value) {
                    Some(s) => {
                        self.username = s;
                    },
                    None => {
                        self.username = "[invalid utf-8]".to_owned();
                    },
                }
            }
        } else if attr_typ == 0x0008 {
            let mut msg: Vec<u8> = Vec::new();
            push_bytes(&mut msg, header.as_slice());
            push_bytes(&mut msg, attr_prefix);
            let tag = hmac_sha1(self.key.as_slice(), msg.as_slice());
            self.integrity = value.len() == tag.len() && bytes_eq_fixed(value, tag.as_slice());
        } else {
            self.next.decode_attr(attr_typ, header, attr_prefix, value);
        }
    }
}

/// A fingerprint attribute whose stored value does not equal the CRC32
/// of the message prefix XORed with the fingerprint constant never
/// verifies: the handler reports the mismatch.
pub proof fn lemma_fingerprint_mismatch_rejected<N: KnownStunAttrs>(
    pre: Rfc8489<N>,
    post: Rfc8489<N>,
    call: AttrCall,
)
    requires
        !pre.fingerprint,
        call.attr_typ == 0x8028,
        <Rfc8489<N> as KnownStunAttrs>::attr_update(pre, post, call),
        spec_stored_fingerprint(call.value) != spec_fingerprint(call.header, call.prefix),
    ensures
        !post.fingerprint,
{
}

/// A fingerprint attribute whose stored value does equal the computed
/// checksum verifies.
pub proof fn lemma_fingerprint_match_accepted<N: KnownStunAttrs>(
    pre: Rfc8489<N>,
    post: Rfc8489<N>,
    call: AttrCall,
)
    requires
        !pre.fingerprint,
        call.attr_typ == 0x8028,
        <Rfc8489<N> as KnownStunAttrs>::attr_update(pre, post, call),
        spec_stored_fingerprint(call.value) == spec_fingerprint(call.header, call.prefix),
    ensures
        post.fingerprint,
{
}

} // verus!
