//! The mathematical model of the wire format: header bytes, the
//! type-length-value attribute framing with 4-byte alignment, and the
//! round-trip laws of that framing.
use vstd::prelude::*;

use crate::wire::{spec_u16_be, spec_u32_be, spec_be_u16, pad4};
use crate::MAGIC;

verus! {

/// The 20 header bytes: type, attribute-section length, magic cookie,
/// 12-byte transaction id.
pub open spec fn spec_header(typ: u16, len: u16, txid: Seq<u8>) -> Seq<u8> {
    spec_u16_be(typ) + spec_u16_be(len) + spec_u32_be(MAGIC) + txid
}

/// `n` zero bytes.
pub open spec fn spec_zeros(n: int) -> Seq<u8> {
    Seq::new(if n >= 0 {
        n as nat
    } else {
        0
    }, |i: int| 0u8)
}

/// One attribute on the wire: type, unpadded value length, value bytes,
/// zero padding up to the next multiple of 4.
pub open spec fn attr_wire(t: u16, v: Seq<u8>) -> Seq<u8> {
    spec_u16_be(t) + spec_u16_be(v.len() as u16) + v + spec_zeros(pad4(v.len() as int) - v.len())
}

/// Every value short enough for its 16-bit declared length.
pub open spec fn attrs_wf(l: Seq<(u16, Seq<u8>)>) -> bool {
    forall|i: int| 0 <= i < l.len() ==> (#[trigger] l[i]).1.len() <= 0xffff
}

/// A whole attribute section on the wire: each attribute in order.
pub open spec fn attrs_wire(l: Seq<(u16, Seq<u8>)>) -> Seq<u8>
    decreases l.len(),
{
    if l.len() == 0 {
        Seq::empty()
    } else {
        attr_wire(l[0].0, l[0].1) + attrs_wire(l.drop_first())
    }
}

/// Walks an attribute section, returning the attribute types and values
/// in order, or nothing when some attribute's declared length exceeds
/// the bytes that remain.
pub open spec fn parse_attrs(b: Seq<u8>) -> Option<Seq<(u16, Seq<u8>)>>
    decreases b.len(),
{
    if b.len() == 0 {
        Some(Seq::empty())
    } else if b.len() < 4 {
        None
    } else {
        let t = spec_be_u16(b[0], b[1]);
        let n = spec_be_u16(b[2], b[3]) as int;
        if 4 + n > b.len() {
            None
        } else {
            let v = b.subrange(4, 4 + n);
            let step = if pad4(4 + n) <= b.len() {
                pad4(4 + n)
            } else {
                b.len() as int
            };
            match parse_attrs(b.subrange(step, b.len() as int)) {
                Some(l) => Some(seq![(t, v)] + l),
                None => None,
            }
        }
    }
}

pub proof fn lemma_attr_wire_len(t: u16, v: Seq<u8>)
    ensures
        attr_wire(t, v).len() == 4 + pad4(v.len() as int),
        attr_wire(t, v).len() % 4 == 0,
        4 + v.len() <= attr_wire(t, v).len(),
{
}

/// The encoded attribute section's byte length is always a multiple
/// of 4, whatever the attributes.
pub proof fn lemma_attrs_wire_aligned(l: Seq<(u16, Seq<u8>)>)
    ensures
        attrs_wire(l).len() % 4 == 0,
    decreases l.len(),
{
    if l.len() != 0 {
        lemma_attr_wire_len(l[0].0, l[0].1);
        lemma_attrs_wire_aligned(l.drop_first());
    }
}

/// Walking an encoded attribute section recovers exactly the attributes
/// that were encoded: the same count, the same types, the same values.
pub proof fn lemma_parse_attrs_round_trip(l: Seq<(u16, Seq<u8>)>)
    requires
        attrs_wf(l),
    ensures
        parse_attrs(attrs_wire(l)) == Some(l),
    decreases l.len(),
{
    if l.len() == 0 {
        assert(parse_attrs(attrs_wire(l)) == Some(Seq::<(u16, Seq<u8>)>::empty()));
        assert(l =~= Seq::<(u16, Seq<u8>)>::empty());
    } else {
        let t = l[0].0;
        let v = l[0].1;
        let head = attr_wire(t, v);
        let tail = attrs_wire(l.drop_first());
        let b = attrs_wire(l);
        assert(b == head + tail);
        lemma_attr_wire_len(t, v);
        let n = v.len() as int;

        // The four framing bytes of the first attribute.
        assert(b[0] == spec_u16_be(t)[0]);
        assert(b[1] == spec_u16_be(t)[1]);
        assert(b[2] == spec_u16_be(v.len() as u16)[0]);
        assert(b[3] == spec_u16_be(v.len() as u16)[1]);
        crate::wire::lemma_u16_be_round_trip(t);
        crate::wire::lemma_u16_be_round_trip(v.len() as u16);
        assert(spec_be_u16(b[0], b[1]) == t);
        assert(spec_be_u16(b[2], b[3]) == v.len() as u16);
        assert(v.len() as u16 == n);
        assert(4 + n <= b.len());

        // The value bytes.
        assert(b.subrange(4, 4 + n) =~= v);

        // The parser steps over the padding, exactly onto the rest.
        let step = pad4(4 + n);
        assert(step == head.len());
        assert(step <= b.len());
        assert(b.subrange(step, b.len() as int) =~= tail);

        assert(attrs_wf(l.drop_first())) by {
            assert(forall|i: int|
                0 <= i < l.drop_first().len() ==> l.drop_first()[i] == l[i + 1]);
        }
        lemma_parse_attrs_round_trip(l.drop_first());
        assert(parse_attrs(tail) == Some(l.drop_first()));
        assert(seq![(t, v)] + l.drop_first() =~= l);
    }
}

} // verus!
