//! Properties proved across the codec's pieces: what the attribute
//! walk visits, and what the unknown-attribute collector ends up
//! holding.
use vstd::prelude::*;

use crate::dispatch::{AttrCall, KnownStunAttrs, UnknownAttrs, chain_update, spec_calls};
use crate::wire::{pad4, spec_u16_be};

verus! {

/// The walk over an encoded attribute section visits exactly the
/// attributes that were encoded: one call each, in order, with the
/// encoded type and value.
pub proof fn lemma_spec_calls_of_encoded(
    typ: u16,
    txid: Seq<u8>,
    done: Seq<u8>,
    l: Seq<(u16, Seq<u8>)>,
)
    requires
        crate::frame::attrs_wf(l),
    ensures
        ({
            let calls = spec_calls(typ, txid, done, crate::frame::attrs_wire(l));
            &&& calls.len() == l.len()
            &&& forall|i: int|
                0 <= i < l.len() ==> (#[trigger] calls[i]).attr_typ == l[i].0 && calls[i].value
                    == l[i].1
        }),
    decreases l.len(),
{
    let b = crate::frame::attrs_wire(l);
    let calls = spec_calls(typ, txid, done, b);
    if l.len() == 0 {
        assert(calls =~= Seq::<AttrCall>::empty());
    } else {
        let t = l[0].0;
        let v = l[0].1;
        let head = crate::frame::attr_wire(t, v);
        let tail = crate::frame::attrs_wire(l.drop_first());
        assert(b == head + tail);
        crate::frame::lemma_attr_wire_len(t, v);
        let n = v.len() as int;
        assert(b[0] == spec_u16_be(t)[0]);
        assert(b[1] == spec_u16_be(t)[1]);
        assert(b[2] == spec_u16_be(v.len() as u16)[0]);
        assert(b[3] == spec_u16_be(v.len() as u16)[1]);
        crate::wire::lemma_u16_be_round_trip(t);
        crate::wire::lemma_u16_be_round_trip(v.len() as u16);
        assert(4 + n <= b.len());
        assert(b.subrange(4, 4 + n) =~= v);
        let step = pad4(4 + n);
        assert(step == head.len());
        assert(step <= b.len());
        assert(b.subrange(step, b.len() as int) =~= tail);
        assert(b.subrange(0, step) =~= head);
        assert(crate::frame::attrs_wf(l.drop_first())) by {
            assert(forall|i: int|
                0 <= i < l.drop_first().len() ==> l.drop_first()[i] == l[i + 1]);
        }
        lemma_spec_calls_of_encoded(typ, txid, done + head, l.drop_first());
        let rest_calls = spec_calls(typ, txid, done + head, tail);
        assert(calls[0].attr_typ == t && calls[0].value == v);
        assert(forall|i: int| 1 <= i < calls.len() ==> (#[trigger] calls[i]) == rest_calls[i - 1]);
        assert(forall|i: int|
            0 <= i < l.drop_first().len() ==> l.drop_first()[i] == l[i + 1]);
    }
}

/// The comprehension-required attribute types among a sequence of
/// dispatched attributes, in order.
pub open spec fn spec_comprehension_required(calls: Seq<AttrCall>) -> Seq<u16>
    decreases calls.len(),
{
    if calls.len() == 0 {
        Seq::empty()
    } else if calls[0].attr_typ < 0x8000 {
        seq![calls[0].attr_typ] + spec_comprehension_required(calls.drop_first())
    } else {
        spec_comprehension_required(calls.drop_first())
    }
}

/// After a walk, the collector holds what it held before followed by
/// exactly the comprehension-required types of the dispatched
/// attributes, in dispatch order.
pub proof fn lemma_unknown_attrs_collects(pre: UnknownAttrs, post: UnknownAttrs, calls: Seq<AttrCall>)
    requires
        chain_update(pre, post, calls),
    ensures
        post.0@ == pre.0@ + spec_comprehension_required(calls),
    decreases calls.len(),
{
    if calls.len() == 0 {
        assert(pre.0@ + Seq::<u16>::empty() =~= pre.0@);
    } else {
        let mid = choose|mid: UnknownAttrs|
            #[trigger] <UnknownAttrs as KnownStunAttrs>::attr_update(pre, mid, calls[0])
                && chain_update(mid, post, calls.drop_first());
        lemma_unknown_attrs_collects(mid, post, calls.drop_first());
        if calls[0].attr_typ < 0x8000 {
            assert(mid.0@ == pre.0@.push(calls[0].attr_typ));
            assert(pre.0@.push(calls[0].attr_typ) + spec_comprehension_required(
                calls.drop_first(),
            ) =~= pre.0@ + spec_comprehension_required(calls));
        } else {
            assert(mid.0@ + spec_comprehension_required(calls.drop_first()) =~= pre.0@
                + spec_comprehension_required(calls));
        }
    }
}

} // verus!
