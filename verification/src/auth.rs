//! Credential lookup and the authenticating attribute handler: it
//! collects username, realm and nonce, verifies the CRC32 fingerprint,
//! and checks the message-integrity tag under the key the credentials
//! yield.
use vstd::prelude::*;

use crate::crypto::{crc32, hmac_sha1, hmac_sha1_of, parse_utf8};
use crate::dispatch::{AttrCall, KnownStunAttrs};
use crate::rfc8489::{spec_fingerprint, spec_stored_fingerprint};
use crate::wire::{bytes_eq, bytes_eq_fixed, push_bytes, read_u32_be};
use vstd::slice::slice_to_vec;

verus! {

/// Yields the key for a realm and username, or nothing when the pair
/// has no credentials.
pub trait Authentication: Sized {
    /// The key the implementor holds for the pair, if any.
    spec fn spec_key(self, realm: Seq<char>, username: Seq<char>) -> Option<Seq<u8>>;

    fn key(&self, realm: &str, username: &str) -> (r: Option<Vec<u8>>)
        ensures
            match r {
                Some(k) => self.spec_key(realm@, username@) == Some(k@),
                None => self.spec_key(realm@, username@) is None,
            },
    ;
}

/// No credentials at all.
impl Authentication for () {
    open spec fn spec_key(self, realm: Seq<char>, username: Seq<char>) -> Option<Seq<u8>> {
        None
    }

    fn key(&self, realm: &str, username: &str) -> Option<Vec<u8>> {
        None
    }
}

/// The first key stored under a username, or nothing.
pub open spec fn spec_lookup(entries: Seq<(String, Vec<u8>)>, username: Seq<char>) -> Option<
    Seq<u8>,
>
    decreases entries.len(),
{
    if entries.len() == 0 {
        None
    } else if entries[0].0@ == username {
        Some(entries[0].1@)
    } else {
        spec_lookup(entries.drop_first(), username)
    }
}

/// A plain credential store: username and key pairs, searched in
/// order, for the empty realm only.
pub struct KeyStore(pub Vec<(String, Vec<u8>)>);

impl Authentication for KeyStore {
    open spec fn spec_key(self, realm: Seq<char>, username: Seq<char>) -> Option<Seq<u8>> {
        if realm.len() != 0 {
            None
        } else {
            spec_lookup(self.0@, username)
        }
    }

    fn key(&self, realm: &str, username: &str) -> (r: Option<Vec<u8>>) {
        if !realm.is_empty() {
            return None;
        }
        proof {
            assert(self.0@.subrange(0, self.0@.len() as int) =~= self.0@);
        }
        let mut i: usize = 0;
        while i < self.0.len()
            invariant
                0 <= i <= self.0@.len(),
                realm@.len() == 0,
                spec_lookup(self.0@, username@) == spec_lookup(
                    self.0@.subrange(i as int, self.0@.len() as int),
                    username@,
                ),
            decreases self.0@.len() - i,
        {
            let ghost rest = self.0@.subrange(i as int, self.0@.len() as int);
            proof {
                assert(rest[0] == self.0@[i as int]);
                assert(rest.drop_first() =~= self.0@.subrange(i + 1, self.0@.len() as int));
            }
            let entry = &self.0[i];
            if bytes_eq(entry.0.as_str().as_bytes(), username.as_bytes()) {
                proof {
                    vstd::utf8::encode_utf8_decode_utf8(entry.0@);
                    vstd::utf8::encode_utf8_decode_utf8(username@);
                    assert(entry.0@ == username@);
                }
                return Some(slice_to_vec(entry.1.as_slice()));
            }
            proof {
                vstd::utf8::encode_utf8_decode_utf8(entry.0@);
                vstd::utf8::encode_utf8_decode_utf8(username@);
                assert(entry.0@ != username@);
            }
            i += 1;
        }
        proof {
            assert(self.0@.subrange(self.0@.len() as int, self.0@.len() as int)
                =~= Seq::<(String, Vec<u8>)>::empty());
        }
        None
    }
}

/// Why authentication over a message's attributes failed.
#[derive(Debug, PartialEq, Eq, Structural)]
pub enum AuthError {
    /// The stored fingerprint did not match the computed checksum.
    FingerprintFailed,
    /// The username attribute's bytes are not UTF-8.
    UsernameNotUtf,
    /// The realm attribute's bytes are not UTF-8.
    RealmNotUtf,
    /// The nonce attribute's bytes are not UTF-8.
    NonceNotUtf,
    /// The credentials yield no key for the realm and username.
    Forbidden,
}

/// An authenticating handler. It records realm, username and nonce
/// (first occurrence each), verifies the fingerprint, and on the
/// integrity attribute looks the key up and checks the tag: `key`
/// becomes the verified key on success and stays empty on a mismatch.
/// The first failure is kept in `error`. Once the fingerprint
/// verified, everything after it is ignored; once the integrity
/// verified, everything but a fingerprint is ignored.
pub struct Auth<A, N> {
    pub authentication: A,
    pub realm: String,
    pub username: String,
    pub nonce: String,
    pub key: Option<Vec<u8>>,
    pub fingerprint: bool,
    pub error: Option<AuthError>,
    pub next: N,
}

impl<A, N> Auth<A, N> {
    /// A fresh handler over the given credentials.
    pub fn new(authentication: A, next: N) -> (r: Self)
        ensures
            r.authentication == authentication,
            r.realm@ == Seq::<char>::empty(),
            r.username@ == Seq::<char>::empty(),
            r.nonce@ == Seq::<char>::empty(),
            r.key is None,
            !r.fingerprint,
            r.error is None,
            r.next == next,
    {
        Auth {
            authentication,
            realm: String::new(),
            username: String::new(),
            nonce: String::new(),
            key: None,
            fingerprint: false,
            error: None,
            next,
        }
    }
}

/// The error slot after a failure: the first failure wins.
pub open spec fn spec_record_error(pre: Option<AuthError>, e: AuthError) -> Option<AuthError> {
    if pre is None {
        Some(e)
    } else {
        pre
    }
}

impl<A: Authentication, N: KnownStunAttrs> KnownStunAttrs for Auth<A, N> {
    open spec fn attr_update(pre: Self, post: Self, call: AttrCall) -> bool {
        if pre.fingerprint {
            // Nothing after a verified fingerprint is trusted.
            post == pre
        } else if call.attr_typ == 0x8028 {
            let ok = spec_stored_fingerprint(call.value) == spec_fingerprint(
                call.header,
                call.prefix,
            );
            &&& post.authentication == pre.authentication
            &&& post.realm == pre.realm
            &&& post.username == pre.username
            &&& post.nonce == pre.nonce
            &&& post.key == pre.key
            &&& post.next == pre.next
            &&& post.fingerprint == ok
            &&& post.error == if ok {
                pre.error
            } else {
                spec_record_error(pre.error, AuthError::FingerprintFailed)
            }
        } else if pre.key is Some {
            // Attributes after a verified integrity tag (the
            // fingerprint aside) are ignored.
            post == pre
        } else if call.attr_typ == 0x0006 {
            &&& post.authentication == pre.authentication
            &&& post.realm == pre.realm
            &&& post.nonce == pre.nonce
            &&& post.key == pre.key
            &&& post.fingerprint == pre.fingerprint
            &&& post.next == pre.next
            &&& if pre.username@.len() != 0 {
                post.username == pre.username && post.error == pre.error
            } else if vstd::utf8::valid_utf8(call.value) {
                post.username@ == vstd::utf8::decode_utf8(call.value) && post.error == pre.error
            } else {
                post.username == pre.username && post.error == spec_record_error(
                    pre.error,
                    AuthError::UsernameNotUtf,
                )
            }
        } else if call.attr_typ == 0x0014 {
            &&& post.authentication == pre.authentication
            &&& post.username == pre.username
            &&& post.nonce == pre.nonce
            &&& post.key == pre.key
            &&& post.fingerprint == pre.fingerprint
            &&& post.next == pre.next
            &&& if pre.realm@.len() != 0 {
                post.realm == pre.realm && post.error == pre.error
            } else if vstd::utf8::valid_utf8(call.value) {
                post.realm@ == vstd::utf8::decode_utf8(call.value) && post.error == pre.error
            } else {
                post.realm == pre.realm && post.error == spec_record_error(
                    pre.error,
                    AuthError::RealmNotUtf,
                )
            }
        } else if call.attr_typ == 0x0015 {
            &&& post.authentication == pre.authentication
            &&& post.realm == pre.realm
            &&& post.username == pre.username
            &&& post.key == pre.key
            &&& post.fingerprint == pre.fingerprint
            &&& post.next == pre.next
            &&& if pre.nonce@.len() != 0 {
                post.nonce == pre.nonce && post.error == pre.error
            } else if vstd::utf8::valid_utf8(call.value) {
                post.nonce@ == vstd::utf8::decode_utf8(call.value) && post.error == pre.error
            } else {
                post.nonce == pre.nonce && post.error == spec_record_error(
                    pre.error,
                    AuthError::NonceNotUtf,
                )
            }
        } else if call.attr_typ == 0x0008 {
            &&& post.authentication == pre.authentication
            &&& post.realm == pre.realm
            &&& post.username == pre.username
            &&& post.nonce == pre.nonce
            &&& post.fingerprint == pre.fingerprint
            &&& post.next == pre.next
            &&& match A::spec_key(pre.authentication, pre.realm@, pre.username@) {
                None => {
                    &&& post.key is None
                    &&& post.error == spec_record_error(pre.error, AuthError::Forbidden)
                },
                Some(k) => {
                    &&& post.error == pre.error
                    &&& if call.value == hmac_sha1_of(k, call.header + call.prefix) {
                        post.key matches Some(pk) && pk@ == k
                    } else {
                        post.key is None
                    }
                },
            }
        } else {
            &&& post.authentication == pre.authentication
            &&& post.realm == pre.realm
            &&& post.username == pre.username
            &&& post.nonce == pre.nonce
            &&& post.key == pre.key
            &&& post.fingerprint == pre.fingerprint
            &&& post.error == pre.error
            &&& N::attr_update(pre.next, post.next, call)
        }
    }

    fn decode_attr(&mut self, attr_typ: u16, header: &[u8; 20], attr_prefix: &[u8], value: &[u8]) {
        if self.fingerprint {
            // Ignore everything after a verified fingerprint.
        } else if attr_typ == 0x8028 {
            let actual = if value.len() >= 4 {
                read_u32_be(value, 0)
            } else {
                0
            };
            let mut msg: Vec<u8> = Vec::new();
            push_bytes(&mut msg, header.as_slice());
            push_bytes(&mut msg, attr_prefix);
            let expected = crc32(msg.as_slice()) ^ 0x5354554E;
            let ok = actual == expected;
            self.fingerprint = ok;
            if !ok && self.error.is_none() {
                self.error = Some(AuthError::FingerprintFailed);
            }
        } else if self.key.is_some() {
            // Ignore attributes after a verified integrity tag.
        } else if attr_typ == 0x0006 {
            if self.username.as_str().is_empty() {
                match parse_utf8(value) {
                    Some(s) => {
                        self.username = s;
                    },
                    None => {
                        if self.error.is_none() {
                            self.error = Some(AuthError::UsernameNotUtf);
                        }
                    },
                }
            }
        } else if attr_typ == 0x0014 {
            if self.realm.as_str().is_empty() {
                match parse_utf8(value) {
                    Some(s) => {
                        self.realm = s;
                    },
                    None => {
                        if self.error.is_none() {
                            self.error = Some(AuthError::RealmNotUtf);
                        }
                    },
                }
            }
        } else if attr_typ == 0x0015 {
            if self.nonce.as_str().is_empty() {
                match parse_utf8(value) {
                    Some(s) => {
                        self.nonce = s;
                    },
                    None => {
                        if self.error.is_none() {
                            self.error = Some(AuthError::NonceNotUtf);
                        }
                    },
                }
            }
        } else if attr_typ == 0x0008 {
            match self.authentication.key(self.realm.as_str(), self.username.as_str()) {
                None => {
                    if self.error.is_none() {
                        self.error = Some(AuthError::Forbidden);
                    }
                },
                Some(k) => {
                    let mut msg: Vec<u8> = Vec::new();
                    push_bytes(&mut msg, header.as_slice());
                    push_bytes(&mut msg, attr_prefix);
                    let tag = hmac_sha1(k.as_slice(), msg.as_slice());
                    if value.len() == tag.len() && bytes_eq_fixed(value, tag.as_slice()) {
                        self.key = Some(k);
                    }
                },
            }
        } else {
            self.next.decode_attr(attr_typ, header, attr_prefix, value);
        }
    }
}

} // verus!
