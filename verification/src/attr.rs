//! The typed attribute interface of the codec: a codec per attribute
//! type, and a single-slot adapter that lets an optional attribute act
//! as a handler.
use vstd::prelude::*;

verus! {

/// A typed attribute codec: decodes from dispatched bytes under a
/// caller-supplied context, and encodes back to value bytes. Each
/// implementor states its exact behaviour in the spec members, and the
/// executable members are bound to those statements.
pub trait StunAttr: Sized {
    /// What decoding needs besides the bytes (a key, or nothing).
    type Context;

    /// Why the value bytes do not decode.
    type Error;

    /// The attribute type code this codec claims.
    spec fn spec_attr_typ() -> u16;

    fn attr_typ() -> (r: u16)
        ensures
            r == Self::spec_attr_typ(),
    ;

    /// What decoding yields on the given dispatched bytes.
    spec fn decode_spec(
        ctx: Self::Context,
        header: Seq<u8>,
        prefix: Seq<u8>,
        value: Seq<u8>,
        r: Result<Self, Self::Error>,
    ) -> bool;

    fn decode(ctx: &Self::Context, header: &[u8; 20], prefix: &[u8], value: &[u8]) -> (r: Result<
        Self,
        Self::Error,
    >)
        ensures
            Self::decode_spec(*ctx, header@, prefix@, value@, r),
    ;

    /// The unpadded byte length this attribute encodes to.
    spec fn spec_length(self) -> u16;

    fn length(&self) -> (r: u16)
        ensures
            r == self.spec_length(),
    ;

    /// What encoding appends for the given message header and prefix.
    spec fn encode_spec(
        self,
        header: Seq<u8>,
        prefix: Seq<u8>,
        old_out: Seq<u8>,
        new_out: Seq<u8>,
    ) -> bool;

    fn encode(&self, header: &[u8; 20], prefix: &[u8], out: &mut Vec<u8>)
        ensures
            Self::encode_spec(*self, header@, prefix@, old(out)@, final(out)@),
    ;
}

/// An attribute slot that can take part in dispatch: offered each
/// attribute in turn, remembering the first occurrence of the type it
/// claims.
pub trait StunAttrObj: Sized {
    /// How one offered attribute changes the slot.
    spec fn obj_update(
        pre: Self,
        post: Self,
        header: Seq<u8>,
        prefix: Seq<u8>,
        attr_typ: u16,
        value: Seq<u8>,
    ) -> bool;

    fn decode(&mut self, header: &[u8; 20], attr_prefix: &[u8], attr_typ: u16, value: &[u8])
        ensures
            Self::obj_update(*old(self), *final(self), header@, attr_prefix@, attr_typ, value@),
    ;

    /// The type and unpadded length this slot encodes under, or nothing
    /// when it holds no decoded attribute.
    spec fn spec_attr_header(self) -> Option<(u16, u16)>;

    fn header(&self) -> (r: Option<(u16, u16)>)
        ensures
            r == self.spec_attr_header(),
    ;

    /// What encoding appends: the held attribute's value bytes, or
    /// nothing.
    spec fn obj_encode_spec(self, header: Seq<u8>, prefix: Seq<u8>, old_out: Seq<u8>, new_out: Seq<u8>) -> bool;

    fn encode(&self, header: &[u8; 20], prefix: &[u8], out: &mut Vec<u8>)
        ensures
            Self::obj_encode_spec(*self, header@, prefix@, old(out)@, final(out)@),
    ;
}

impl<A: StunAttr<Context = ()>> StunAttrObj for Option<Result<A, A::Error>> {
    open spec fn obj_update(
        pre: Self,
        post: Self,
        header: Seq<u8>,
        prefix: Seq<u8>,
        attr_typ: u16,
        value: Seq<u8>,
    ) -> bool {
        if pre is None && attr_typ == A::spec_attr_typ() {
            post matches Some(res) && A::decode_spec((), header, prefix, value, res)
        } else {
            post == pre
        }
    }

    fn decode(&mut self, header: &[u8; 20], attr_prefix: &[u8], attr_typ: u16, value: &[u8]) {
        if self.is_none() && attr_typ == A::attr_typ() {
            *self = Some(A::decode(&(), header, attr_prefix, value));
        }
    }

    open spec fn spec_attr_header(self) -> Option<(u16, u16)> {
        match self {
            Some(Ok(a)) => Some((A::spec_attr_typ(), a.spec_length())),
            _ => None,
        }
    }

    fn header(&self) -> (r: Option<(u16, u16)>) {
        match self {
            Some(Ok(a)) => Some((A::attr_typ(), a.length())),
            _ => None,
        }
    }

    open spec fn obj_encode_spec(
        self,
        header: Seq<u8>,
        prefix: Seq<u8>,
        old_out: Seq<u8>,
        new_out: Seq<u8>,
    ) -> bool {
        match self {
            Some(Ok(a)) => A::encode_spec(a, header, prefix, old_out, new_out),
            _ => new_out == old_out,
        }
    }

    fn encode(&self, header: &[u8; 20], prefix: &[u8], out: &mut Vec<u8>) {
        if let Some(Ok(a)) = self {
            a.encode(header, prefix, out);
        }
    }
}

} // verus!
