//! The two-step message codec: `decode` validates the fixed header and
//! takes an owned copy of the attribute section, `parse` walks that
//! section and feeds each attribute to a handler chain.
use vstd::prelude::*;

use crate::dispatch::{AttrCall, KnownStunAttrs, chain_update, lemma_chain_update_snoc, spec_calls};
use crate::frame::spec_header;
use crate::wire::{spec_be_u16, spec_be_u32, spec_u16_be, spec_u32_be, pad4, pad4_exec, read_u16_be,
    read_u32_be};
use crate::MAGIC;
use vstd::slice::{slice_subrange, slice_to_vec};

verus! {

/// A message: its type, its 12-byte transaction id, and its attribute
/// section, first as raw bytes and after `parse` as a handler chain's
/// final state.
pub struct Stun<A> {
    pub typ: u16,
    pub txid: [u8; 12],
    pub attrs: A,
}

/// Why a buffer is not a well-formed message.
#[derive(Debug)]
pub enum StunDecodeError {
    /// The buffer is shorter than the given byte count requires.
    TooSmall(usize),
    /// The type field is outside the non-channel-data range.
    TypeOutOfRange,
    /// The attribute-section length is not a multiple of 4.
    UnalignedLength,
    /// The magic cookie does not match.
    BadMagic,
}

/// Checks the fixed header of a buffer: on success, the message type
/// and the attribute-section length; otherwise the first of the
/// framing errors, in the order the decoder tests them.
pub open spec fn spec_stun_check(b: Seq<u8>) -> Result<(u16, u16), StunDecodeError> {
    if b.len() < 20 {
        Err(StunDecodeError::TooSmall(20))
    } else {
        let typ = spec_be_u16(b[0], b[1]);
        let len = spec_be_u16(b[2], b[3]);
        if typ >= 0x4000 {
            Err(StunDecodeError::TypeOutOfRange)
        } else if len % 4 != 0 {
            Err(StunDecodeError::UnalignedLength)
        } else if b.len() < 20 + len {
            Err(StunDecodeError::TooSmall((20 + len) as usize))
        } else if spec_be_u32(b[4], b[5], b[6], b[7]) != MAGIC {
            Err(StunDecodeError::BadMagic)
        } else {
            Ok((typ, len))
        }
    }
}

impl Stun<Vec<u8>> {
    /// Decodes the fixed header of a buffer, taking an owned copy of
    /// the attribute section; fails with the first framing error.
    pub fn decode(buffer: &[u8]) -> (r: Result<Self, StunDecodeError>)
        ensures
            match spec_stun_check(buffer@) {
                Err(e) => r matches Err(e2) && e2 == e,
                Ok(p) => r matches Ok(s) && s.typ == p.0 && s.txid@ == buffer@.subrange(8, 20)
                    && s.attrs@ == buffer@.subrange(20, 20 + p.1),
            },
    {
        if buffer.len() < 20 {
            return Err(StunDecodeError::TooSmall(20));
        }
        let typ = read_u16_be(buffer, 0);
        if typ >= 0x4000 {
            return Err(StunDecodeError::TypeOutOfRange);
        }
        let length = read_u16_be(buffer, 2);
        if length % 4 != 0 {
            return Err(StunDecodeError::UnalignedLength);
        }
        let packet_length = 20 + length as usize;
        if buffer.len() < packet_length {
            return Err(StunDecodeError::TooSmall(packet_length));
        }
        let magic = read_u32_be(buffer, 4);
        if magic != MAGIC {
            return Err(StunDecodeError::BadMagic);
        }
        let mut txid = [0u8; 12];
        let mut k: usize = 0;
        while k < 12
            invariant
                0 <= k <= 12,
                buffer@.len() >= 20,
                txid@.len() == 12,
                forall|j: int| 0 <= j < k ==> txid@[j] == buffer@[8 + j],
            decreases 12 - k,
        {
            txid[k] = buffer[8 + k];
            k += 1;
        }
        proof {
            assert(txid@ =~= buffer@.subrange(8, 20));
        }
        let attrs = slice_to_vec(slice_subrange(buffer, 20, packet_length));
        Ok(Stun { typ, txid, attrs })
    }

    /// The total byte length of the decoded message: the 20 header
    /// bytes plus the attribute section.
    pub fn decode_length(&self) -> (r: usize)
        requires
            self.attrs@.len() + 20 <= usize::MAX,
        ensures
            r == 20 + self.attrs@.len(),
    {
        20 + self.attrs.len()
    }

    /// Walks the attribute section, dispatching every attribute to the
    /// handler chain with the exact byte prefix preceding it and the
    /// header's length field rewritten to just past it. An attribute
    /// whose declared length exceeds what remains stops the walk
    /// silently, the attributes before it already dispatched.
    #[verifier::rlimit(80)]
    pub fn parse<B: KnownStunAttrs>(self, attrs: B) -> (r: Stun<B>)
        requires
            self.attrs@.len() % 4 == 0,
            self.attrs@.len() <= 0xffff,
        ensures
            r.typ == self.typ,
            r.txid@ == self.txid@,
            chain_update(
                attrs,
                r.attrs,
                spec_calls(self.typ, self.txid@, Seq::empty(), self.attrs@),
            ),
    {
        let Stun { typ, txid, attrs: section } = self;
        let mut known = attrs;
        let ghost sect = section@;
        let ghost tx = txid@;
        let length = section.len();

        // Prepare the header for attribute dispatch; its length field
        // is rewritten before each attribute.
        let mut header = [0u8; 20];
        header[0] = (typ >> 8) as u8;
        header[1] = (typ & 0xff) as u8;
        let magic = MAGIC;
        header[4] = (magic >> 24) as u8;
        header[5] = ((magic >> 16) & 0xff) as u8;
        header[6] = ((magic >> 8) & 0xff) as u8;
        header[7] = (magic & 0xff) as u8;
        let mut k: usize = 0;
        while k < 12
            invariant
                0 <= k <= 12,
                tx.len() == 12,
                txid@ == tx,
                typ == self.typ,
                header@.len() == 20,
                header@[0] == spec_u16_be(typ)[0],
                header@[1] == spec_u16_be(typ)[1],
                header@[4] == spec_u32_be(MAGIC)[0],
                header@[5] == spec_u32_be(MAGIC)[1],
                header@[6] == spec_u32_be(MAGIC)[2],
                header@[7] == spec_u32_be(MAGIC)[3],
                forall|j: int| 8 <= j < 8 + k ==> header@[j] == tx[j - 8],
            decreases 12 - k,
        {
            header[8 + k] = txid[k];
            k += 1;
        }

        let ghost full_calls = spec_calls(typ, tx, Seq::empty(), sect);
        let ghost mut done_calls = Seq::<AttrCall>::empty();
        proof {
            assert(sect.subrange(0, 0) =~= Seq::<u8>::empty());
            assert(sect.subrange(0, sect.len() as int) =~= sect);
            assert(done_calls + full_calls =~= full_calls);
        }
        let mut i: usize = 0;
        loop
            invariant_except_break
                sect == section@,
                tx.len() == 12,
                length == sect.len(),
                length % 4 == 0,
                length <= 0xffff,
                i % 4 == 0,
                0 <= i <= length,
                header@.len() == 20,
                header@[0] == spec_u16_be(typ)[0],
                header@[1] == spec_u16_be(typ)[1],
                header@[4] == spec_u32_be(MAGIC)[0],
                header@[5] == spec_u32_be(MAGIC)[1],
                header@[6] == spec_u32_be(MAGIC)[2],
                header@[7] == spec_u32_be(MAGIC)[3],
                forall|j: int| 8 <= j < 20 ==> header@[j] == tx[j - 8],
                full_calls == spec_calls(typ, tx, Seq::empty(), sect),
                chain_update(attrs, known, done_calls),
                done_calls + spec_calls(
                    typ,
                    tx,
                    sect.subrange(0, i as int),
                    sect.subrange(i as int, sect.len() as int),
                ) == full_calls,
            ensures
                chain_update(attrs, known, full_calls),
            decreases length as int - i,
        {
            if i >= length {
                proof {
                    assert(sect.subrange(i as int, sect.len() as int) =~= Seq::<u8>::empty());
                    assert(spec_calls(typ, tx, sect.subrange(0, i as int), Seq::<u8>::empty())
                        =~= Seq::<AttrCall>::empty());
                    assert(done_calls =~= full_calls);
                }
                break;
            }
            let ghost done = sect.subrange(0, i as int);
            let ghost rest = sect.subrange(i as int, sect.len() as int);
            proof {
                assert((length as int - i as int) % 4 == 0);
                assert(length as int - i as int >= 4);
                assert(rest[0] == sect[i as int]);
                assert(rest[1] == sect[i + 1]);
                assert(rest[2] == sect[i + 2]);
                assert(rest[3] == sect[i + 3]);
            }
            let sect_slice = section.as_slice();
            let t = read_u16_be(sect_slice, i);
            let n = read_u16_be(sect_slice, i + 2);
            if i + 4 + n as usize > length {
                proof {
                    // The walk and the spec both stop here.
                    assert(spec_calls(typ, tx, done, rest) =~= Seq::<AttrCall>::empty());
                    assert(done_calls =~= full_calls);
                }
                break;
            }
            let next = pad4_exec(i + 4 + n as usize);
            proof {
                // Stepping past this attribute stays inside the section.
                assert(pad4(i + 4 + n as int) == i + pad4(4 + n as int));
                assert(pad4(4 + n as int) <= rest.len()) by {
                    assert(pad4(i + 4 + n as int) <= pad4(length as int));
                }
            }
            let next16 = next as u16;
            header[2] = (next16 >> 8) as u8;
            header[3] = (next16 & 0xff) as u8;
            let value = slice_subrange(sect_slice, i + 4, i + 4 + n as usize);
            let prefix = slice_subrange(sect_slice, 0, i);
            let ghost pre_known = known;
            proof {
                assert(header@ =~= spec_header(typ, next16, tx));
            }
            known.decode_attr(t, &header, prefix, value);
            proof {
                let step = pad4(4 + n as int);
                let call = AttrCall { header: header@, prefix: prefix@, attr_typ: t, value: value@ };
                assert(prefix@ =~= done);
                assert(value@ =~= rest.subrange(4, 4 + n as int));
                assert(done.len() + step == next);
                assert(spec_calls(typ, tx, done, rest)[0] == call);
                assert(done + rest.subrange(0, step) =~= sect.subrange(0, next as int));
                assert(rest.subrange(step, rest.len() as int) =~= sect.subrange(
                    next as int,
                    sect.len() as int,
                ));
                assert(spec_calls(typ, tx, done, rest) == seq![call] + spec_calls(
                    typ,
                    tx,
                    sect.subrange(0, next as int),
                    sect.subrange(next as int, sect.len() as int),
                ));
                lemma_chain_update_snoc(attrs, pre_known, known, done_calls, call);
                done_calls = done_calls.push(call);
                assert(done_calls + spec_calls(
                    typ,
                    tx,
                    sect.subrange(0, next as int),
                    sect.subrange(next as int, sect.len() as int),
                ) =~= full_calls);
            }
            i = next;
        }
        Stun { typ, txid, attrs: known }
    }
}

} // verus!
