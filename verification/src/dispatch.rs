//! The extensible attribute dispatch: a chain of handlers tried in
//! order, the first handler claiming an attribute type wins, and
//! unclaimed comprehension-required types are collected for
//! diagnostics; plus the incremental decoder that walks a message and
//! feeds each attribute to the chain.
use vstd::prelude::*;

use crate::frame::{spec_header, parse_attrs};
use crate::wire::{spec_be_u16, spec_be_u32, spec_u16_be, spec_u32_be, pad4, pad4_exec, read_u16_be,
    read_u32_be};
use crate::MAGIC;
use vstd::slice::slice_subrange;

verus! {

/// One dispatched attribute, as the chain sees it: the header with its
/// length field rewritten to the offset just past this attribute, the
/// section bytes before the attribute, its type, and its value.
pub struct AttrCall {
    pub header: Seq<u8>,
    pub prefix: Seq<u8>,
    pub attr_typ: u16,
    pub value: Seq<u8>,
}

/// A chain of known-attribute handlers. Each implementor states in
/// `attr_update` how one dispatched attribute changes its state, and
/// `decode_attr` is bound to that statement.
pub trait KnownStunAttrs: Sized {
    /// How one dispatched attribute changes this handler's state.
    spec fn attr_update(pre: Self, post: Self, call: AttrCall) -> bool;

    /// Handles one attribute of a message.
    fn decode_attr(&mut self, attr_typ: u16, header: &[u8; 20], attr_prefix: &[u8], value: &[u8])
        ensures
            Self::attr_update(
                *old(self),
                *final(self),
                (AttrCall { header: header@, prefix: attr_prefix@, attr_typ, value: value@ }),
            ),
    ;

    /// Chains a single-attribute slot in front of this handler.
    fn parse<A>(self) -> (r: Parse<A, Self>)
        ensures
            r.attr is None,
            r.next == self,
    {
        Parse { attr: None, next: self }
    }
}

/// The state changes of a whole sequence of dispatched attributes, in
/// order: there are intermediate states linked by `attr_update`.
pub open spec fn chain_update<A: KnownStunAttrs>(pre: A, post: A, calls: Seq<AttrCall>) -> bool
    decreases calls.len(),
{
    if calls.len() == 0 {
        post == pre
    } else {
        exists|mid: A|
            #[trigger] A::attr_update(pre, mid, calls[0]) && chain_update(mid, post, calls.drop_first())
    }
}

/// Extends a chain of updates by one more dispatched attribute.
pub proof fn lemma_chain_update_snoc<A: KnownStunAttrs>(
    pre: A,
    mid: A,
    post: A,
    calls: Seq<AttrCall>,
    c: AttrCall,
)
    requires
        chain_update(pre, mid, calls),
        A::attr_update(mid, post, c),
    ensures
        chain_update(pre, post, calls.push(c)),
    decreases calls.len(),
{
    if calls.len() == 0 {
        assert(mid == pre);
        assert(calls.push(c)[0] == c);
        assert(calls.push(c).drop_first() =~= Seq::<AttrCall>::empty());
        assert(A::attr_update(pre, post, calls.push(c)[0]));
        assert(chain_update(post, post, calls.push(c).drop_first()));
    } else {
        let m1 = choose|m1: A|
            #[trigger] A::attr_update(pre, m1, calls[0]) && chain_update(m1, mid, calls.drop_first());
        lemma_chain_update_snoc(m1, mid, post, calls.drop_first(), c);
        assert(calls.push(c).drop_first() =~= calls.drop_first().push(c));
        assert(calls.push(c)[0] == calls[0]);
        assert(A::attr_update(pre, m1, calls.push(c)[0]));
        assert(chain_update(m1, post, calls.push(c).drop_first()));
    }
}

/// The calls a decoder makes while walking an attribute section:
/// `done` bytes have been walked already, `rest` remain. The walk
/// stops at an attribute whose declared length exceeds what remains.
pub open spec fn spec_calls(typ: u16, txid: Seq<u8>, done: Seq<u8>, rest: Seq<u8>) -> Seq<AttrCall>
    decreases rest.len(),
{
    if rest.len() < 4 {
        Seq::empty()
    } else {
        let t = spec_be_u16(rest[0], rest[1]);
        let n = spec_be_u16(rest[2], rest[3]) as int;
        if 4 + n > rest.len() {
            Seq::empty()
        } else {
            let step = if pad4(4 + n) <= rest.len() {
                pad4(4 + n)
            } else {
                rest.len() as int
            };
            let call = AttrCall {
                header: spec_header(typ, (done.len() + step) as u16, txid),
                prefix: done,
                attr_typ: t,
                value: rest.subrange(4, 4 + n),
            };
            seq![call] + spec_calls(
                typ,
                txid,
                done + rest.subrange(0, step),
                rest.subrange(step, rest.len() as int),
            )
        }
    }
}

/// Collects the comprehension-required attribute types (codes below
/// 0x8000) that no earlier handler in the chain claimed.
#[derive(Debug)]
pub struct UnknownAttrs(pub Vec<u16>);

impl Default for UnknownAttrs {
    fn default() -> (r: Self)
        ensures
            r.0@ == Seq::<u16>::empty(),
    {
        UnknownAttrs(Vec::new())
    }
}

impl KnownStunAttrs for UnknownAttrs {
    open spec fn attr_update(pre: Self, post: Self, call: AttrCall) -> bool {
        if call.attr_typ < 0x8000 {
            post.0@ == pre.0@.push(call.attr_typ)
        } else {
            post == pre
        }
    }

    fn decode_attr(&mut self, attr_typ: u16, header: &[u8; 20], attr_prefix: &[u8], value: &[u8]) {
        // Record any comprehension-required attribute nobody claimed.
        if attr_typ < 0x8000 {
            self.0.push(attr_typ);
        }
    }
}

/// A single typed attribute codec: how the attribute decodes from and
/// encodes to its value bytes.
pub trait StunAttr: StunAttrEncode {
    /// The attribute type code this codec claims.
    spec fn spec_attr_type() -> u16;

    fn attr_type() -> (r: u16)
        ensures
            r == Self::spec_attr_type(),
    ;

    /// What decoding yields on the given dispatched bytes.
    spec fn decode_spec(header: Seq<u8>, prefix: Seq<u8>, value: Seq<u8>, r: Option<Self>) -> bool;

    fn decode(header: &[u8; 20], attr_prefix: &[u8], value: &[u8]) -> (r: Option<Self>)
        ensures
            Self::decode_spec(header@, attr_prefix@, value@, r),
    ;
}

/// The encoding half of an attribute codec: the attribute's header
/// entry (type and unpadded length) and its value bytes.
pub trait StunAttrEncode: Sized {
    /// The type and unpadded value length this attribute encodes under,
    /// or nothing when it does not encode.
    spec fn spec_attr_header(self) -> Option<(u16, u16)>;

    fn header(&self) -> (r: Option<(u16, u16)>)
        ensures
            r == self.spec_attr_header(),
    ;

    /// What encoding appends for the given message header and prefix.
    spec fn encode_spec(self, header: Seq<u8>, prefix: Seq<u8>, old_out: Seq<u8>, new_out: Seq<u8>) -> bool;

    fn encode(&self, header: &[u8; 20], attr_prefix: &[u8], out: &mut Vec<u8>)
        ensures
            Self::encode_spec(*self, header@, attr_prefix@, old(out)@, final(out)@),
    ;
}

/// A chain link that claims one attribute type: the first occurrence
/// decodes into the slot, repeats are ignored, everything else passes
/// to the next handler.
pub struct Parse<A, N> {
    pub attr: Option<A>,
    pub next: N,
}

impl<A: StunAttr, N: KnownStunAttrs> KnownStunAttrs for Parse<A, N> {
    open spec fn attr_update(pre: Self, post: Self, call: AttrCall) -> bool {
        if call.attr_typ == A::spec_attr_type() {
            &&& post.next == pre.next
            &&& if pre.attr is None {
                A::decode_spec(call.header, call.prefix, call.value, post.attr)
            } else {
                post.attr == pre.attr
            }
        } else {
            &&& post.attr == pre.attr
            &&& N::attr_update(pre.next, post.next, call)
        }
    }

    fn decode_attr(&mut self, attr_typ: u16, header: &[u8; 20], attr_prefix: &[u8], value: &[u8]) {
        if attr_typ == A::attr_type() {
            if self.attr.is_none() {
                self.attr = A::decode(header, attr_prefix, value);
            }
        } else {
            self.next.decode_attr(attr_typ, header, attr_prefix, value);
        }
    }
}

/// The decoded frame of a message: its type, its transaction id, and
/// the byte length of its attribute section.
#[derive(Debug)]
pub struct Stun {
    pub typ: u16,
    pub txid: [u8; 12],
    pub attrs: u16,
}

/// Why a buffer is not a well-formed message.
#[derive(Debug)]
pub enum StunDecodeErr {
    /// The buffer is shorter than the given byte count requires.
    TooShort(usize),
    /// The type field is outside the non-channel-data range.
    TypeOutOfRange,
    /// The attribute-section length is not a multiple of 4.
    UnalignedLength,
    /// The magic cookie does not match.
    BadMagic,
    /// An attribute's declared length exceeds the bytes that remain.
    BadAttrLength,
}

/// Checks the fixed header of a buffer: on success, the message type
/// and the attribute-section length; otherwise the first of the framing
/// errors, in the order the decoder tests them.
pub open spec fn spec_header_check(b: Seq<u8>) -> Result<(u16, u16), StunDecodeErr> {
    if b.len() < 4 {
        Err(StunDecodeErr::TooShort(4))
    } else {
        let typ = spec_be_u16(b[0], b[1]);
        let len = spec_be_u16(b[2], b[3]);
        if typ >= 0x4000 {
            Err(StunDecodeErr::TypeOutOfRange)
        } else if len % 4 != 0 {
            Err(StunDecodeErr::UnalignedLength)
        } else if b.len() < 20 + len {
            Err(StunDecodeErr::TooShort((20 + len) as usize))
        } else if spec_be_u32(b[4], b[5], b[6], b[7]) != MAGIC {
            Err(StunDecodeErr::BadMagic)
        } else {
            Ok((typ, len))
        }
    }
}

/// The attribute-section bytes of a buffer whose header declared `len`.
pub open spec fn spec_section(b: Seq<u8>, len: u16) -> Seq<u8> {
    b.subrange(20, 20 + len)
}

impl Stun {
    /// Decodes the header of a message and dispatches every attribute
    /// to the handler chain, each with the exact byte prefix preceding
    /// it and the header's length field rewritten to just past it.
    /// Fails with the first framing error; an attribute that overruns
    /// the message stops the walk with `BadAttrLength`, the attributes
    /// before it already dispatched.
    #[verifier::rlimit(100)]
    pub fn decode<A: KnownStunAttrs>(buffer: &[u8], known: &mut A) -> (r: Result<Stun, StunDecodeErr>)
        ensures
            match spec_header_check(buffer@) {
                Err(e) => r matches Err(e2) && e2 == e && *final(known) == *old(known),
                Ok(p) => {
                    let sect = spec_section(buffer@, p.1);
                    let tx = buffer@.subrange(8, 20);
                    &&& chain_update(
                        *old(known),
                        *final(known),
                        spec_calls(p.0, tx, Seq::empty(), sect),
                    )
                    &&& match r {
                        Ok(s) => {
                            &&& s.typ == p.0
                            &&& s.attrs == p.1
                            &&& s.txid@ == tx
                            &&& parse_attrs(sect) is Some
                        },
                        Err(e) => e == StunDecodeErr::BadAttrLength && parse_attrs(sect) is None,
                    }
                },
            },
    {
        let ghost b = buffer@;
        if buffer.len() < 4 {
            return Err(StunDecodeErr::TooShort(4));
        }
        let typ = read_u16_be(buffer, 0);
        if typ >= 0x4000 {
            return Err(StunDecodeErr::TypeOutOfRange);
        }
        let length = read_u16_be(buffer, 2);
        if length % 4 != 0 {
            return Err(StunDecodeErr::UnalignedLength);
        }
        let packet_length = 20 + length as usize;
        if buffer.len() < packet_length {
            return Err(StunDecodeErr::TooShort(packet_length));
        }
        let magic = read_u32_be(buffer, 4);
        if magic != MAGIC {
            return Err(StunDecodeErr::BadMagic);
        }

        let ghost tx = b.subrange(8, 20);
        let ghost sect = spec_section(b, length);

        // Copy out the transaction id.
        let mut txid = [0u8; 12];
        let mut k: usize = 0;
        while k < 12
            invariant
                0 <= k <= 12,
                b == buffer@,
                b.len() >= 20,
                txid@.len() == 12,
                forall|j: int| 0 <= j < k ==> txid@[j] == b[8 + j],
            decreases 12 - k,
        {
            txid[k] = buffer[8 + k];
            k += 1;
        }
        proof {
            assert(txid@ =~= tx);
        }

        // Prepare the header for attribute dispatch; its length field is
        // rewritten before each attribute.
        let mut header = [0u8; 20];
        header[0] = (typ >> 8) as u8;
        header[1] = (typ & 0xff) as u8;
        header[4] = (magic >> 24) as u8;
        header[5] = ((magic >> 16) & 0xff) as u8;
        header[6] = ((magic >> 8) & 0xff) as u8;
        header[7] = (magic & 0xff) as u8;
        let mut k: usize = 0;
        while k < 12
            invariant
                0 <= k <= 12,
                tx.len() == 12,
                txid@ == tx,
                header@.len() == 20,
                header@[0] == spec_u16_be(typ)[0],
                header@[1] == spec_u16_be(typ)[1],
                header@[4] == spec_u32_be(MAGIC)[0],
                header@[5] == spec_u32_be(MAGIC)[1],
                header@[6] == spec_u32_be(MAGIC)[2],
                header@[7] == spec_u32_be(MAGIC)[3],
                forall|j: int| 8 <= j < 8 + k ==> header@[j] == tx[j - 8],
            decreases 12 - k,
        {
            header[8 + k] = txid[k];
            k += 1;
        }

        let ghost full_calls = spec_calls(typ, tx, Seq::empty(), sect);
        let ghost mut done_calls = Seq::<AttrCall>::empty();
        proof {
            assert(sect.subrange(0, 0) =~= Seq::<u8>::empty());
            assert(sect.subrange(0, sect.len() as int) =~= sect);
            assert(done_calls + full_calls =~= full_calls);
        }
        let mut i: usize = 0;
        while i < length as usize
            invariant
                spec_header_check(b) == Ok::<(u16, u16), StunDecodeErr>((typ, length)),
                b == buffer@,
                tx == b.subrange(8, 20),
                tx.len() == 12,
                sect == spec_section(b, length),
                sect.len() == length,
                b.len() >= 20 + length,
                length % 4 == 0,
                i % 4 == 0,
                0 <= i <= length,
                txid@ == tx,
                header@.len() == 20,
                header@[0] == spec_u16_be(typ)[0],
                header@[1] == spec_u16_be(typ)[1],
                header@[4] == spec_u32_be(MAGIC)[0],
                header@[5] == spec_u32_be(MAGIC)[1],
                header@[6] == spec_u32_be(MAGIC)[2],
                header@[7] == spec_u32_be(MAGIC)[3],
                forall|j: int| 8 <= j < 20 ==> header@[j] == tx[j - 8],
                full_calls == spec_calls(typ, tx, Seq::empty(), sect),
                chain_update(*old(known), *known, done_calls),
                done_calls + spec_calls(
                    typ,
                    tx,
                    sect.subrange(0, i as int),
                    sect.subrange(i as int, sect.len() as int),
                ) == full_calls,
                parse_attrs(sect) is Some <==> parse_attrs(
                    sect.subrange(i as int, sect.len() as int),
                ) is Some,
            decreases length as int - i,
        {
            let ghost done = sect.subrange(0, i as int);
            let ghost rest = sect.subrange(i as int, sect.len() as int);
            proof {
                assert((length as int - i as int) % 4 == 0);
                assert(length as int - i as int >= 4);
                assert(rest.len() == length - i);
                assert(rest[0] == b[20 + i]);
                assert(rest[1] == b[20 + i + 1]);
                assert(rest[2] == b[20 + i + 2]);
                assert(rest[3] == b[20 + i + 3]);
            }
            let t = read_u16_be(buffer, 20 + i);
            let n = read_u16_be(buffer, 20 + i + 2);
            if i + 4 + n as usize > length as usize {
                proof {
                    // The walk and the spec both stop here.
                    assert(spec_calls(typ, tx, done, rest) =~= Seq::<AttrCall>::empty());
                    assert(done_calls =~= full_calls);
                    assert(parse_attrs(rest) is None);
                }
                return Err(StunDecodeErr::BadAttrLength);
            }
            let next = pad4_exec(i + 4 + n as usize);
            proof {
                // Stepping past this attribute stays inside the section.
                assert(pad4(i + 4 + n as int) == i + pad4(4 + n as int));
                assert(pad4(4 + n as int) <= rest.len()) by {
                    assert(pad4(i + 4 + n as int) <= pad4(length as int));
                }
            }
            let next16 = next as u16;
            header[2] = (next16 >> 8) as u8;
            header[3] = (next16 & 0xff) as u8;
            let value = slice_subrange(buffer, 20 + i + 4, 20 + i + 4 + n as usize);
            let prefix = slice_subrange(buffer, 20, 20 + i);
            let ghost pre_known = *known;
            proof {
                assert(header@ =~= spec_header(typ, next16, tx));
            }
            known.decode_attr(t, &header, prefix, value);
            proof {
                let step = pad4(4 + n as int);
                let call = AttrCall { header: header@, prefix: prefix@, attr_typ: t, value: value@ };
                assert(prefix@ =~= done);
                assert(value@ =~= rest.subrange(4, 4 + n as int));
                assert(done.len() + step == next);
                assert(spec_calls(typ, tx, done, rest)[0] == call);
                assert(done + rest.subrange(0, step) =~= sect.subrange(0, next as int));
                assert(rest.subrange(step, rest.len() as int) =~= sect.subrange(
                    next as int,
                    sect.len() as int,
                ));
                assert(spec_calls(typ, tx, done, rest) == seq![call] + spec_calls(
                    typ,
                    tx,
                    sect.subrange(0, next as int),
                    sect.subrange(next as int, sect.len() as int),
                ));
                lemma_chain_update_snoc(*old(known), pre_known, *known, done_calls, call);
                done_calls = done_calls.push(call);
                assert(done_calls + spec_calls(
                    typ,
                    tx,
                    sect.subrange(0, next as int),
                    sect.subrange(next as int, sect.len() as int),
                ) =~= full_calls);
                // The pure walk takes the same step.
                assert(parse_attrs(rest) is Some <==> parse_attrs(
                    sect.subrange(next as int, sect.len() as int),
                ) is Some);
            }
            i = next;
        }
        proof {
            assert(i == length);
            assert(sect.subrange(i as int, sect.len() as int) =~= Seq::<u8>::empty());
            assert(spec_calls(typ, tx, sect.subrange(0, i as int), Seq::empty())
                =~= Seq::<AttrCall>::empty());
            assert(done_calls =~= full_calls);
            assert(parse_attrs(Seq::<u8>::empty()) is Some);
        }
        Ok(Stun { typ, txid, attrs: length })
    }

    /// The total byte length of the decoded message: the 20 header
    /// bytes plus the attribute section.
    pub fn decode_length(&self) -> (r: usize)
        ensures
            r == 20 + self.attrs,
    {
        20 + self.attrs as usize
    }
}

} // verus!
