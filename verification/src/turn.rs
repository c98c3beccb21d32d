//! The reduced relay vocabulary: six request kinds decoded from
//! message bytes, six response kinds encoded back to bytes, with
//! XOR-obfuscated peer addresses, length-prefixed payloads, and the
//! header-free channel-data framing.
use vstd::prelude::*;

use crate::addr::{Ip, SockAddr, spec_port_mask, spec_xor_mask, xor_mask, xor_seq};
use crate::frame::{parse_attrs, spec_zeros};
use crate::wire::{pad4, pad4_exec, push_bytes, push_u16_be, push_u32_be, push_zeros, read_u16_be,
    read_u32_be, spec_be_u16, spec_be_u32, spec_u16_be, spec_u32_be};
use crate::MAGIC;
use vstd::slice::{slice_subrange, slice_to_vec};

verus! {

/// A request read from a client's connection.
#[derive(Debug)]
pub enum TurnReq {
    Allocate { txid: [u8; 12] },
    Refresh { txid: [u8; 12] },
    Permission { txid: [u8; 12], peer: SockAddr },
    Send { txid: [u8; 12], peer: SockAddr, data: Vec<u8> },
    BindChannel { txid: [u8; 12], peer: SockAddr, channel: u16 },
    ChannelData { channel: u16, data: Vec<u8> },
}

/// A response to be written to a client's connection.
#[derive(Debug)]
pub enum TurnRes {
    Allocate { txid: [u8; 12], lifetime: u32, relayed: SockAddr },
    Refresh { txid: [u8; 12], lifetime: u32 },
    Permission { txid: [u8; 12] },
    Data { txid: [u8; 12], peer: SockAddr, data: Vec<u8> },
    BindChannel { txid: [u8; 12] },
    ChannelData { channel: u16, data: Vec<u8> },
}

/// Why bytes do not decode as a request.
#[derive(Debug)]
pub enum TurnDecodeError {
    /// The buffer is shorter than the given byte count requires.
    TooShort(usize),
    /// The attribute-section length of a message is not a multiple
    /// of 4.
    UnalignedLength,
    /// The magic cookie does not match.
    BadMagic,
    /// An attribute's declared length exceeds the message.
    AttrTooLong,
    /// A channel-number attribute whose declared length is not 4.
    BadChannelNumberLength,
    /// A channel number outside the valid range.
    ChannelNumberOutOfRange,
    /// A peer-address attribute too short for its family.
    PeerAddressTooShort,
    /// A peer-address family other than IPv4 or IPv6.
    UnknownFamily,
    /// A Send without a peer-address or data attribute, a Permission
    /// without a peer-address, or a channel bind without one of its
    /// attributes: the missing attribute's type code.
    MissingAttr(u16),
    /// A type outside both the message and the channel-data ranges.
    UnexpectedType(u16),
}

/// The total byte count of the message that starts with the given
/// type and length fields: the 20-byte header plus the attribute
/// section for messages, the 4-byte prefix plus the padded payload
/// for channel data.
pub open spec fn spec_message_length(typ: u16, len: u16) -> int {
    if typ < 0x4000 {
        20 + len
    } else {
        4 + pad4(len as int)
    }
}

/// How many bytes the message occupies on the wire, given its first
/// four bytes' type and length fields; a reader takes this many bytes
/// before decoding.
pub fn message_length(typ: u16, length: u16) -> (r: usize)
    ensures
        r == spec_message_length(typ, length),
{
    if typ < 0x4000 {
        20 + length as usize
    } else {
        4 + pad4_exec(length as usize)
    }
}

/// The attribute values a request walk collects: the first
/// channel-number, peer-address and data attributes, if present. The
/// peer address is held as its view: address bytes (already
/// unmasked) and port.
pub struct ReqFields {
    pub channel: Option<u16>,
    pub peer: Option<(Seq<u8>, u16)>,
    pub data: Option<Seq<u8>>,
}

/// Walks the parsed attributes of a request in order, collecting the
/// first occurrence of each recognized type, unmasking the peer
/// address with the message's XOR mask, and failing on the first
/// malformed recognized attribute.
pub open spec fn spec_walk_req_attrs(
    l: Seq<(u16, Seq<u8>)>,
    mask: Seq<u8>,
    acc: ReqFields,
) -> Result<ReqFields, TurnDecodeError>
    decreases l.len(),
{
    if l.len() == 0 {
        Ok(acc)
    } else {
        let t = l[0].0;
        let v = l[0].1;
        let rest = l.drop_first();
        if t == 0x000C && acc.channel is None {
            if v.len() != 4 {
                Err(TurnDecodeError::BadChannelNumberLength)
            } else {
                let num = spec_be_u16(v[0], v[1]);
                if !(0x4000 <= num && num <= 0x7ffe) {
                    Err(TurnDecodeError::ChannelNumberOutOfRange)
                } else {
                    spec_walk_req_attrs(
                        rest,
                        mask,
                        (ReqFields { channel: Some(num), peer: acc.peer, data: acc.data }),
                    )
                }
            }
        } else if t == 0x0012 && acc.peer is None {
            if v.len() < 8 {
                Err(TurnDecodeError::PeerAddressTooShort)
            } else {
                let family = v[1];
                let port = (spec_be_u16(v[2], v[3]) ^ spec_port_mask()) as u16;
                if family == 1 {
                    spec_walk_req_attrs(
                        rest,
                        mask,
                        (ReqFields {
                            channel: acc.channel,
                            peer: Some((xor_seq(v.subrange(4, 8), mask), port)),
                            data: acc.data,
                        }),
                    )
                } else if family == 2 {
                    if v.len() < 20 {
                        Err(TurnDecodeError::PeerAddressTooShort)
                    } else {
                        spec_walk_req_attrs(
                            rest,
                            mask,
                            (ReqFields {
                                channel: acc.channel,
                                peer: Some((xor_seq(v.subrange(4, 20), mask), port)),
                                data: acc.data,
                            }),
                        )
                    }
                } else {
                    Err(TurnDecodeError::UnknownFamily)
                }
            }
        } else if t == 0x0013 && acc.data is None {
            spec_walk_req_attrs(rest, mask, (ReqFields { channel: acc.channel, peer: acc.peer, data: Some(v) }))
        } else {
            spec_walk_req_attrs(rest, mask, acc)
        }
    }
}

/// The attribute list a raw attribute vector stands for.
pub open spec fn spec_attrs_view(v: Seq<(u16, Vec<u8>)>) -> Seq<(u16, Seq<u8>)> {
    v.map_values(|p: (u16, Vec<u8>)| (p.0, p.1@))
}

/// Collects the raw attributes of an aligned attribute section in
/// order, or fails when one's declared length exceeds what remains.
fn collect_attrs(section: &[u8]) -> (r: Result<Vec<(u16, Vec<u8>)>, TurnDecodeError>)
    requires
        section@.len() % 4 == 0,
        section@.len() <= 0xffff,
    ensures
        match r {
            Ok(v) => parse_attrs(section@) == Some(spec_attrs_view(v@)),
            Err(e) => parse_attrs(section@) is None && e == TurnDecodeError::AttrTooLong,
        },
{
    let ghost sect = section@;
    let length = section.len();
    let mut out: Vec<(u16, Vec<u8>)> = Vec::new();
    proof {
        assert(sect.subrange(0, sect.len() as int) =~= sect);
        if parse_attrs(sect) is Some {
            assert(spec_attrs_view(out@) + parse_attrs(sect).unwrap() =~= parse_attrs(
                sect,
            ).unwrap());
        }
    }
    let mut i: usize = 0;
    loop
        invariant_except_break
            sect == section@,
            length == sect.len(),
            length % 4 == 0,
            length <= 0xffff,
            i % 4 == 0,
            0 <= i <= length,
            match parse_attrs(sect.subrange(i as int, sect.len() as int)) {
                Some(l2) => parse_attrs(sect) == Some(spec_attrs_view(out@) + l2),
                None => parse_attrs(sect) is None,
            },
        ensures
            parse_attrs(sect) == Some(spec_attrs_view(out@)),
        decreases length as int - i,
    {
        if i >= length {
            proof {
                assert(sect.subrange(i as int, sect.len() as int) =~= Seq::<u8>::empty());
                assert(parse_attrs(Seq::<u8>::empty()) == Some(Seq::<(u16, Seq<u8>)>::empty()));
                assert(spec_attrs_view(out@) + Seq::<(u16, Seq<u8>)>::empty() =~= spec_attrs_view(
                    out@,
                ));
            }
            break;
        }
        let ghost rest = sect.subrange(i as int, sect.len() as int);
        proof {
            assert((length as int - i as int) % 4 == 0);
            assert(length as int - i as int >= 4);
            assert(rest[0] == sect[i as int]);
            assert(rest[1] == sect[i + 1]);
            assert(rest[2] == sect[i + 2]);
            assert(rest[3] == sect[i + 3]);
        }
        let t = read_u16_be(section, i);
        let n = read_u16_be(section, i + 2);
        if i + 4 + n as usize > length {
            proof {
                assert(parse_attrs(rest) is None);
            }
            return Err(TurnDecodeError::AttrTooLong);
        }
        let value = slice_to_vec(slice_subrange(section, i + 4, i + 4 + n as usize));
        let next = pad4_exec(i + 4 + n as usize);
        proof {
            assert(pad4(i + 4 + n as int) == i + pad4(4 + n as int));
            assert(pad4(4 + n as int) <= rest.len()) by {
                assert(pad4(i + 4 + n as int) <= pad4(length as int));
            }
            assert(value@ =~= rest.subrange(4, 4 + n as int));
            assert(rest.subrange(pad4(4 + n as int), rest.len() as int) =~= sect.subrange(
                next as int,
                sect.len() as int,
            ));
        }
        out.push((t, value));
        proof {
            let l1 = spec_attrs_view(out@);
            assert(l1 =~= spec_attrs_view(out@.drop_last()) + seq![
                (t, rest.subrange(4, 4 + n as int)),
            ]);
            if parse_attrs(sect.subrange(next as int, sect.len() as int)) is Some {
                let l2 = parse_attrs(sect.subrange(next as int, sect.len() as int)).unwrap();
                assert(parse_attrs(rest) == Some(seq![(t, rest.subrange(4, 4 + n as int))] + l2));
                assert(spec_attrs_view(out@.drop_last()) + (seq![
                    (t, rest.subrange(4, 4 + n as int)),
                ] + l2) =~= l1 + l2);
            } else {
                assert(parse_attrs(rest) is None);
            }
        }
        i = next;
    }
    Ok(out)
}

/// No attributes collected yet.
pub open spec fn spec_no_fields() -> ReqFields {
    ReqFields { channel: None, peer: None, data: None }
}

/// The view of optional exec attribute values as walk fields.
pub open spec fn spec_fields_of(
    channel: Option<u16>,
    peer: Option<SockAddr>,
    data: Option<Vec<u8>>,
) -> ReqFields {
    ReqFields {
        channel,
        peer: match peer {
            Some(a) => Some(a@),
            None => None,
        },
        data: match data {
            Some(v) => Some(v@),
            None => None,
        },
    }
}

/// Processes collected raw attributes in order, keeping the first
/// channel number, peer address and payload, with the peer address
/// unmasked.
fn process_attrs(attrs: &Vec<(u16, Vec<u8>)>, mask: &[u8; 16]) -> (r: Result<
    (Option<u16>, Option<SockAddr>, Option<Vec<u8>>),
    TurnDecodeError,
>)
    ensures
        match r {
            Ok(f) => spec_walk_req_attrs(spec_attrs_view(attrs@), mask@, spec_no_fields())
                == Ok::<ReqFields, TurnDecodeError>(spec_fields_of(f.0, f.1, f.2)),
            Err(e) => spec_walk_req_attrs(spec_attrs_view(attrs@), mask@, spec_no_fields())
                matches Err(e2) && e2 == e,
        },
{
    let mut channel: Option<u16> = None;
    let mut peer: Option<SockAddr> = None;
    let mut data: Option<Vec<u8>> = None;
    let ghost full = spec_attrs_view(attrs@);
    proof {
        assert(spec_attrs_view(attrs@.subrange(0, attrs@.len() as int)) =~= full);
    }
    let mut i: usize = 0;
    while i < attrs.len()
        invariant
            full == spec_attrs_view(attrs@),
            0 <= i <= attrs@.len(),
            spec_walk_req_attrs(full, mask@, spec_no_fields()) == spec_walk_req_attrs(
                spec_attrs_view(attrs@.subrange(i as int, attrs@.len() as int)),
                mask@,
                spec_fields_of(channel, peer, data),
            ),
        decreases attrs@.len() - i,
    {
        let ghost l = spec_attrs_view(attrs@.subrange(i as int, attrs@.len() as int));
        proof {
            assert(l[0] == (attrs@[i as int].0, attrs@[i as int].1@));
            assert(l.drop_first() =~= spec_attrs_view(
                attrs@.subrange(i + 1, attrs@.len() as int),
            ));
        }
        let pair = &attrs[i];
        let t = pair.0;
        let v = &pair.1;
        if t == 0x000C && channel.is_none() {
            if v.len() != 4 {
                return Err(TurnDecodeError::BadChannelNumberLength);
            }
            let num = read_u16_be(v.as_slice(), 0);
            if !(0x4000 <= num && num <= 0x7ffe) {
                return Err(TurnDecodeError::ChannelNumberOutOfRange);
            }
            channel = Some(num);
        } else if t == 0x0012 && peer.is_none() {
            if v.len() < 8 {
                return Err(TurnDecodeError::PeerAddressTooShort);
            }
            let family = v[1];
            let port = read_u16_be(v.as_slice(), 2);
            if family == 1 {
                let mut b = [0u8; 4];
                let mut k: usize = 0;
                while k < 4
                    invariant
                        0 <= k <= 4,
                        v@.len() >= 8,
                        b@.len() == 4,
                        forall|j: int| 0 <= j < k ==> b@[j] == v@[4 + j],
                    decreases 4 - k,
                {
                    b[k] = v[4 + k];
                    k += 1;
                }
                proof {
                    assert(b@ =~= v@.subrange(4, 8));
                }
                let raw = SockAddr { ip: Ip::V4(b), port };
                peer = Some(raw.xor_with(mask));
            } else if family == 2 {
                if v.len() < 20 {
                    return Err(TurnDecodeError::PeerAddressTooShort);
                }
                let mut b = [0u8; 16];
                let mut k: usize = 0;
                while k < 16
                    invariant
                        0 <= k <= 16,
                        v@.len() >= 20,
                        b@.len() == 16,
                        forall|j: int| 0 <= j < k ==> b@[j] == v@[4 + j],
                    decreases 16 - k,
                {
                    b[k] = v[4 + k];
                    k += 1;
                }
                proof {
                    assert(b@ =~= v@.subrange(4, 20));
                }
                let raw = SockAddr { ip: Ip::V6(b), port };
                peer = Some(raw.xor_with(mask));
            } else {
                return Err(TurnDecodeError::UnknownFamily);
            }
        } else if t == 0x0013 && data.is_none() {
            data = Some(slice_to_vec(v.as_slice()));
        }
        i += 1;
    }
    proof {
        assert(spec_attrs_view(attrs@.subrange(attrs@.len() as int, attrs@.len() as int))
            =~= Seq::<(u16, Seq<u8>)>::empty());
    }
    Ok((channel, peer, data))
}

/// The mathematical shape of a request: every field as its view.
pub enum ReqView {
    Allocate { txid: Seq<u8> },
    Refresh { txid: Seq<u8> },
    Permission { txid: Seq<u8>, peer: (Seq<u8>, u16) },
    Send { txid: Seq<u8>, peer: (Seq<u8>, u16), data: Seq<u8> },
    BindChannel { txid: Seq<u8>, peer: (Seq<u8>, u16), channel: u16 },
    ChannelData { channel: u16, data: Seq<u8> },
}

impl View for TurnReq {
    type V = ReqView;

    open spec fn view(&self) -> ReqView {
        match self {
            TurnReq::Allocate { txid } => ReqView::Allocate { txid: txid@ },
            TurnReq::Refresh { txid } => ReqView::Refresh { txid: txid@ },
            TurnReq::Permission { txid, peer } => ReqView::Permission { txid: txid@, peer: peer@ },
            TurnReq::Send { txid, peer, data } => ReqView::Send {
                txid: txid@,
                peer: peer@,
                data: data@,
            },
            TurnReq::BindChannel { txid, peer, channel } => ReqView::BindChannel {
                txid: txid@,
                peer: peer@,
                channel: *channel,
            },
            TurnReq::ChannelData { channel, data } => ReqView::ChannelData {
                channel: *channel,
                data: data@,
            },
        }
    }
}

/// Decodes a whole message's bytes as a request: the exact result,
/// success or error, for every buffer.
pub open spec fn spec_req_decode(b: Seq<u8>) -> Result<ReqView, TurnDecodeError> {
    if b.len() < 4 {
        Err(TurnDecodeError::TooShort(4))
    } else {
        let typ = spec_be_u16(b[0], b[1]);
        let len = spec_be_u16(b[2], b[3]);
        if typ >= 0x4000 {
            if typ <= 0x7ffe {
                if b.len() < 4 + pad4(len as int) {
                    Err(TurnDecodeError::TooShort((4 + pad4(len as int)) as usize))
                } else {
                    Ok(ReqView::ChannelData { channel: typ, data: b.subrange(4, 4 + len) })
                }
            } else {
                Err(TurnDecodeError::UnexpectedType(typ))
            }
        } else if len % 4 != 0 {
            Err(TurnDecodeError::UnalignedLength)
        } else if b.len() < 20 + len {
            Err(TurnDecodeError::TooShort((20 + len) as usize))
        } else if spec_be_u32(b[4], b[5], b[6], b[7]) != MAGIC {
            Err(TurnDecodeError::BadMagic)
        } else {
            let txid = b.subrange(8, 20);
            let mask = spec_xor_mask(txid);
            match parse_attrs(b.subrange(20, 20 + len)) {
                None => Err(TurnDecodeError::AttrTooLong),
                Some(l) => match spec_walk_req_attrs(l, mask, spec_no_fields()) {
                    Err(e) => Err(e),
                    Ok(f) => {
                        if typ == 0x003 {
                            Ok(ReqView::Allocate { txid })
                        } else if typ == 0x004 {
                            Ok(ReqView::Refresh { txid })
                        } else if typ == 0x016 {
                            match f.peer {
                                None => Err(TurnDecodeError::MissingAttr(0x0012)),
                                Some(p) => match f.data {
                                    None => Err(TurnDecodeError::MissingAttr(0x0013)),
                                    Some(d) => Ok(ReqView::Send { txid, peer: p, data: d }),
                                },
                            }
                        } else if typ == 0x008 {
                            match f.peer {
                                None => Err(TurnDecodeError::MissingAttr(0x0012)),
                                Some(p) => Ok(ReqView::Permission { txid, peer: p }),
                            }
                        } else if typ == 0x009 {
                            match f.peer {
                                None => Err(TurnDecodeError::MissingAttr(0x0012)),
                                Some(p) => match f.channel {
                                    None => Err(TurnDecodeError::MissingAttr(0x000C)),
                                    Some(c) => Ok(ReqView::BindChannel {
                                        txid,
                                        peer: p,
                                        channel: c,
                                    }),
                                },
                            }
                        } else {
                            Err(TurnDecodeError::UnexpectedType(typ))
                        }
                    },
                },
            }
        }
    }
}

impl TurnReq {
    /// Decodes one whole message's bytes: a STUN-framed request with
    /// its attributes, or raw channel data; fails with the first
    /// framing or attribute error, exactly as `spec_req_decode` says.
    pub fn decode(buffer: &[u8]) -> (r: Result<TurnReq, TurnDecodeError>)
        ensures
            (match r {
                Ok(req) => spec_req_decode(buffer@) matches Ok(v) && req@ == v,
                Err(e) => spec_req_decode(buffer@) matches Err(e2) && e2 == e,
            }),
    {
        if buffer.len() < 4 {
            return Err(TurnDecodeError::TooShort(4));
        }
        let typ = read_u16_be(buffer, 0);
        let length = read_u16_be(buffer, 2);
        if typ >= 0x4000 {
            if typ <= 0x7ffe {
                let total = 4 + pad4_exec(length as usize);
                if buffer.len() < total {
                    return Err(TurnDecodeError::TooShort(total));
                }
                let data = slice_to_vec(slice_subrange(buffer, 4, 4 + length as usize));
                return Ok(TurnReq::ChannelData { channel: typ, data });
            } else {
                return Err(TurnDecodeError::UnexpectedType(typ));
            }
        }
        if length % 4 != 0 {
            return Err(TurnDecodeError::UnalignedLength);
        }
        let packet_length = 20 + length as usize;
        if buffer.len() < packet_length {
            return Err(TurnDecodeError::TooShort(packet_length));
        }
        let magic = read_u32_be(buffer, 4);
        if magic != MAGIC {
            return Err(TurnDecodeError::BadMagic);
        }
        let mut txid = [0u8; 12];
        let mut k: usize = 0;
        while k < 12
            invariant
                0 <= k <= 12,
                buffer@.len() >= 20,
                txid@.len() == 12,
                forall|j: int| 0 <= j < k ==> txid@[j] == buffer@[8 + j],
            decreases 12 - k,
        {
            txid[k] = buffer[8 + k];
            k += 1;
        }
        proof {
            assert(txid@ =~= buffer@.subrange(8, 20));
        }
        let mask = xor_mask(&txid);
        let section = slice_subrange(buffer, 20, packet_length);
        let attrs = match collect_attrs(section) {
            Ok(v) => v,
            Err(e) => {
                return Err(e);
            },
        };
        let f = match process_attrs(&attrs, &mask) {
            Ok(f) => f,
            Err(e) => {
                return Err(e);
            },
        };
        let (channel, peer, data) = f;
        if typ == 0x003 {
            Ok(TurnReq::Allocate { txid })
        } else if typ == 0x004 {
            Ok(TurnReq::Refresh { txid })
        } else if typ == 0x016 {
            let peer = match peer {
                Some(p) => p,
                None => {
                    return Err(TurnDecodeError::MissingAttr(0x0012));
                },
            };
            let data = match data {
                Some(d) => d,
                None => {
                    return Err(TurnDecodeError::MissingAttr(0x0013));
                },
            };
            Ok(TurnReq::Send { txid, peer, data })
        } else if typ == 0x008 {
            let peer = match peer {
                Some(p) => p,
                None => {
                    return Err(TurnDecodeError::MissingAttr(0x0012));
                },
            };
            Ok(TurnReq::Permission { txid, peer })
        } else if typ == 0x009 {
            let peer = match peer {
                Some(p) => p,
                None => {
                    return Err(TurnDecodeError::MissingAttr(0x0012));
                },
            };
            let channel = match channel {
                Some(c) => c,
                None => {
                    return Err(TurnDecodeError::MissingAttr(0x000C));
                },
            };
            Ok(TurnReq::BindChannel { txid, peer, channel })
        } else {
            Err(TurnDecodeError::UnexpectedType(typ))
        }
    }
}

/// The bit pattern ORed into a method code for a success response.
pub const SUCCESS_BITS: u16 = 0x0100;

/// The bit pattern ORed into a method code for an indication.
pub const INDICATION_BITS: u16 = 0x0010;

/// The mathematical shape of a response: every field as its view.
pub enum ResView {
    Allocate { txid: Seq<u8>, lifetime: u32, relayed: (Seq<u8>, u16) },
    Refresh { txid: Seq<u8>, lifetime: u32 },
    Permission { txid: Seq<u8> },
    Data { txid: Seq<u8>, peer: (Seq<u8>, u16), data: Seq<u8> },
    BindChannel { txid: Seq<u8> },
    ChannelData { channel: u16, data: Seq<u8> },
}

impl View for TurnRes {
    type V = ResView;

    open spec fn view(&self) -> ResView {
        match self {
            TurnRes::Allocate { txid, lifetime, relayed } => ResView::Allocate {
                txid: txid@,
                lifetime: *lifetime,
                relayed: relayed@,
            },
            TurnRes::Refresh { txid, lifetime } => ResView::Refresh {
                txid: txid@,
                lifetime: *lifetime,
            },
            TurnRes::Permission { txid } => ResView::Permission { txid: txid@ },
            TurnRes::Data { txid, peer, data } => ResView::Data {
                txid: txid@,
                peer: peer@,
                data: data@,
            },
            TurnRes::BindChannel { txid } => ResView::BindChannel { txid: txid@ },
            TurnRes::ChannelData { channel, data } => ResView::ChannelData {
                channel: *channel,
                data: data@,
            },
        }
    }
}

/// The value bytes of an XOR address attribute: a zero byte, the
/// canonical family, the masked port, and the masked canonical
/// address bytes.
pub open spec fn spec_xaddr_value(a: (Seq<u8>, u16), mask: Seq<u8>) -> Seq<u8> {
    let c = crate::addr::spec_canonical(a);
    let family: u8 = if c.0.len() == 4 {
        1
    } else {
        2
    };
    seq![0u8, family] + spec_u16_be((c.1 ^ spec_port_mask()) as u16) + xor_seq(c.0, mask)
}

/// An XOR address attribute on the wire: type, value length, then the
/// value bytes.
pub open spec fn spec_xaddr_attr(t: u16, a: (Seq<u8>, u16), mask: Seq<u8>) -> Seq<u8> {
    let c = crate::addr::spec_canonical(a);
    let vlen: u16 = if c.0.len() == 4 {
        8
    } else {
        20
    };
    spec_u16_be(t) + spec_u16_be(vlen) + spec_xaddr_value(a, mask)
}

/// Unmasking the encoded XOR peer address gives the canonical address
/// back: the walk over one peer-address attribute whose value was
/// encoded for this transaction id recovers exactly the address that
/// went in, for IPv4 and IPv6 alike.
pub proof fn lemma_xaddr_value_round_trip(a: (Seq<u8>, u16), txid: Seq<u8>)
    requires
        a.0.len() == 4 || a.0.len() == 16,
        txid.len() == 12,
    ensures
        ({
            let mask = spec_xor_mask(txid);
            let v = spec_xaddr_value(a, mask);
            spec_walk_req_attrs(seq![(0x0012u16, v)], mask, spec_no_fields()) matches Ok(f)
                && f.peer == Some(crate::addr::spec_canonical(a))
        }),
{
    let mask = spec_xor_mask(txid);
    let c = crate::addr::spec_canonical(a);
    let v = spec_xaddr_value(a, mask);
    let l = seq![(0x0012u16, v)];
    assert(c.0.len() == 4 || c.0.len() == 16);
    assert(v.len() == 4 + c.0.len());
    assert(v[1] == if c.0.len() == 4 { 1u8 } else { 2u8 });
    assert(v[2] == spec_u16_be((c.1 ^ spec_port_mask()) as u16)[0]);
    assert(v[3] == spec_u16_be((c.1 ^ spec_port_mask()) as u16)[1]);
    crate::wire::lemma_u16_be_round_trip((c.1 ^ spec_port_mask()) as u16);
    crate::addr::lemma_xor_port_involution(c.1, spec_port_mask());
    assert(v.subrange(4, v.len() as int) =~= xor_seq(c.0, mask));
    crate::addr::lemma_xor_seq_involution(c.0, mask);
    assert((c.0, c.1) == c);
    assert(l.drop_first() =~= Seq::<(u16, Seq<u8>)>::empty());
    let port = (spec_be_u16(v[2], v[3]) ^ spec_port_mask()) as u16;
    assert(port == c.1);
    if c.0.len() == 4 {
        assert(v.subrange(4, 8) =~= xor_seq(c.0, mask));
        assert(xor_seq(v.subrange(4, 8), mask) == c.0);
        let f = ReqFields { channel: None, peer: Some((xor_seq(v.subrange(4, 8), mask), port)), data: None };
        assert(spec_walk_req_attrs(l.drop_first(), mask, f) == Ok::<
            ReqFields,
            TurnDecodeError,
        >(f));
        assert(spec_walk_req_attrs(l, mask, spec_no_fields()) == Ok::<
            ReqFields,
            TurnDecodeError,
        >(f));
    } else {
        assert(v.subrange(4, 20) =~= xor_seq(c.0, mask));
        assert(xor_seq(v.subrange(4, 20), mask) == c.0);
        let f = ReqFields { channel: None, peer: Some((xor_seq(v.subrange(4, 20), mask), port)), data: None };
        assert(spec_walk_req_attrs(l.drop_first(), mask, f) == Ok::<
            ReqFields,
            TurnDecodeError,
        >(f));
        assert(spec_walk_req_attrs(l, mask, spec_no_fields()) == Ok::<
            ReqFields,
            TurnDecodeError,
        >(f));
    }
}

/// The lifetime attribute on the wire.
pub open spec fn spec_lifetime_attr(lifetime: u32) -> Seq<u8> {
    spec_u16_be(0x000D) + spec_u16_be(4) + spec_u32_be(lifetime)
}

/// The byte length of a response's attribute section.
pub open spec fn spec_res_attrs_len(v: ResView) -> int {
    match v {
        ResView::Allocate { relayed, .. } => 8 + 2 * (
        if crate::addr::spec_canonical(relayed).0.len() == 4 {
            12int
        } else {
            24int
        }),
        ResView::Refresh { .. } => 8,
        ResView::Permission { .. } => 0,
        ResView::BindChannel { .. } => 0,
        ResView::Data { peer, data, .. } => (
        if crate::addr::spec_canonical(peer).0.len() == 4 {
            12int
        } else {
            24int
        }) + pad4(4 + data.len() as int),
        ResView::ChannelData { data, .. } => pad4(data.len() as int),
    }
}

/// A whole response on the wire. A channel-data response is its
/// 4-byte prefix and padded payload; every other response is a
/// 20-byte header (success or indication type code, section length,
/// magic cookie, transaction id) followed by its attributes.
pub open spec fn spec_res_bytes(v: ResView) -> Seq<u8> {
    match v {
        ResView::ChannelData { channel, data } => spec_u16_be(channel) + spec_u16_be(
            data.len() as u16,
        ) + data + spec_zeros(pad4(data.len() as int) - data.len()),
        ResView::Allocate { txid, lifetime, relayed } => {
            let mask = spec_xor_mask(txid);
            spec_u16_be(SUCCESS_BITS | 0x003) + spec_u16_be(spec_res_attrs_len(v) as u16) + spec_u32_be(MAGIC)
                + txid + spec_lifetime_attr(lifetime) + spec_xaddr_attr(0x0020, relayed, mask)
                + spec_xaddr_attr(0x0016, relayed, mask)
        },
        ResView::Refresh { txid, lifetime } => spec_u16_be(SUCCESS_BITS | 0x004) + spec_u16_be(
            spec_res_attrs_len(v) as u16,
        ) + spec_u32_be(MAGIC) + txid + spec_lifetime_attr(lifetime),
        ResView::Permission { txid } => spec_u16_be(SUCCESS_BITS | 0x008) + spec_u16_be(0) + spec_u32_be(MAGIC)
            + txid,
        ResView::BindChannel { txid } => spec_u16_be(SUCCESS_BITS | 0x009) + spec_u16_be(0) + spec_u32_be(MAGIC)
            + txid,
        ResView::Data { txid, peer, data } => {
            let mask = spec_xor_mask(txid);
            spec_u16_be(INDICATION_BITS | 0x007) + spec_u16_be(spec_res_attrs_len(v) as u16) + spec_u32_be(MAGIC)
                + txid + spec_xaddr_attr(0x0012, peer, mask) + spec_u16_be(0x0013) + spec_u16_be(
                data.len() as u16,
            ) + data + spec_zeros(pad4(4 + data.len() as int) - (4 + data.len()))
        },
    }
}

/// Appends one XOR address attribute: type, value length, then the
/// canonicalized, masked address.
fn push_xaddr_attr(out: &mut Vec<u8>, t: u16, a: &SockAddr, mask: &[u8; 16])
    ensures
        final(out)@ == old(out)@ + spec_xaddr_attr(t, a@, mask@),
{
    let c = a.to_canonical();
    let x = c.xor_with(mask);
    push_u16_be(out, t);
    match &c.ip {
        Ip::V4(_) => {
            push_u16_be(out, 8);
            out.push(0);
            out.push(1);
        },
        Ip::V6(_) => {
            push_u16_be(out, 20);
            out.push(0);
            out.push(2);
        },
    }
    push_u16_be(out, x.port);
    match &x.ip {
        Ip::V4(b) => push_bytes(out, b.as_slice()),
        Ip::V6(b) => push_bytes(out, b.as_slice()),
    }
    proof {
        c.ip.lemma_len();
        x.ip.lemma_len();
        assert(x.ip@.len() == c.ip@.len());
        assert(final(out)@ =~= old(out)@ + spec_xaddr_attr(t, a@, mask@));
    }
}

impl TurnRes {
    /// Encodes this response as its whole wire message, exactly as
    /// `spec_res_bytes` says; the result's length is always a
    /// multiple of 4.
    pub fn encode(&self) -> (r: Vec<u8>)
        requires
            (match self {
                TurnRes::Data { data, .. } => data@.len() <= 0xffc0,
                TurnRes::ChannelData { data, .. } => data@.len() <= 0xffff,
                _ => true,
            }),
        ensures
            r@ == spec_res_bytes(self@),
            r@.len() % 4 == 0,
    {
        let mut out: Vec<u8> = Vec::new();
        match self {
            TurnRes::ChannelData { channel, data } => {
                push_u16_be(&mut out, *channel);
                push_u16_be(&mut out, data.len() as u16);
                push_bytes(&mut out, data.as_slice());
                let padded = pad4_exec(data.len());
                push_zeros(&mut out, padded - data.len());
                proof {
                    assert(out@ =~= spec_res_bytes(self@));
                }
            },
            TurnRes::Allocate { txid, lifetime, relayed } => {
                let mask = xor_mask(txid);
                let c = relayed.to_canonical();
                let alen: u16 = match &c.ip {
                    Ip::V4(_) => 8 + 24,
                    Ip::V6(_) => 8 + 48,
                };
                proof {
                    c.ip.lemma_len();
                }
                push_u16_be(&mut out, SUCCESS_BITS | 0x003);
                push_u16_be(&mut out, alen);
                push_u32_be(&mut out, MAGIC);
                push_bytes(&mut out, txid.as_slice());
                push_u16_be(&mut out, 0x000D);
                push_u16_be(&mut out, 4);
                push_u32_be(&mut out, *lifetime);
                push_xaddr_attr(&mut out, 0x0020, relayed, &mask);
                push_xaddr_attr(&mut out, 0x0016, relayed, &mask);
                proof {
                    assert(out@ =~= spec_res_bytes(self@));
                }
            },
            TurnRes::Refresh { txid, lifetime } => {
                push_u16_be(&mut out, SUCCESS_BITS | 0x004);
                push_u16_be(&mut out, 8);
                push_u32_be(&mut out, MAGIC);
                push_bytes(&mut out, txid.as_slice());
                push_u16_be(&mut out, 0x000D);
                push_u16_be(&mut out, 4);
                push_u32_be(&mut out, *lifetime);
                proof {
                    assert(out@ =~= spec_res_bytes(self@));
                }
            },
            TurnRes::Permission { txid } => {
                push_u16_be(&mut out, SUCCESS_BITS | 0x008);
                push_u16_be(&mut out, 0);
                push_u32_be(&mut out, MAGIC);
                push_bytes(&mut out, txid.as_slice());
                proof {
                    assert(out@ =~= spec_res_bytes(self@));
                }
            },
            TurnRes::BindChannel { txid } => {
                push_u16_be(&mut out, SUCCESS_BITS | 0x009);
                push_u16_be(&mut out, 0);
                push_u32_be(&mut out, MAGIC);
                push_bytes(&mut out, txid.as_slice());
                proof {
                    assert(out@ =~= spec_res_bytes(self@));
                }
            },
            TurnRes::Data { txid, peer, data } => {
                let mask = xor_mask(txid);
                let c = peer.to_canonical();
                let addr_attr_len: u16 = match &c.ip {
                    Ip::V4(_) => 12,
                    Ip::V6(_) => 24,
                };
                proof {
                    c.ip.lemma_len();
                }
                let data_attr_len = pad4_exec(4 + data.len());
                let alen: u16 = addr_attr_len + data_attr_len as u16;
                push_u16_be(&mut out, INDICATION_BITS | 0x007);
                push_u16_be(&mut out, alen);
                push_u32_be(&mut out, MAGIC);
                push_bytes(&mut out, txid.as_slice());
                push_xaddr_attr(&mut out, 0x0012, peer, &mask);
                push_u16_be(&mut out, 0x0013);
                push_u16_be(&mut out, data.len() as u16);
                push_bytes(&mut out, data.as_slice());
                push_zeros(&mut out, data_attr_len - (4 + data.len()));
                proof {
                    assert(out@ =~= spec_res_bytes(self@));
                }
            },
        }
        out
    }
}

/// A response view with a 12-byte transaction id and a 4- or 16-byte
/// address, as every `TurnRes` value's view is.
pub open spec fn res_view_wf(v: ResView) -> bool {
    match v {
        ResView::Allocate { txid, relayed, .. } => txid.len() == 12 && (relayed.0.len() == 4
            || relayed.0.len() == 16),
        ResView::Refresh { txid, .. } => txid.len() == 12,
        ResView::Permission { txid } => txid.len() == 12,
        ResView::BindChannel { txid } => txid.len() == 12,
        ResView::Data { txid, peer, .. } => txid.len() == 12 && (peer.0.len() == 4 || peer.0.len()
            == 16),
        ResView::ChannelData { .. } => true,
    }
}

/// Every encoded response is 4-byte aligned, and a header-framed
/// response's attribute section is too.
pub proof fn lemma_res_bytes_aligned(v: ResView)
    requires
        res_view_wf(v),
    ensures
        spec_res_bytes(v).len() % 4 == 0,
        spec_res_attrs_len(v) % 4 == 0,
        !(v is ChannelData) ==> spec_res_bytes(v).len() == 20 + spec_res_attrs_len(v),
{
}

} // verus!
