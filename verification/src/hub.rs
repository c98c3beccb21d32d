//! The relay hub's decisions: the registry that maps each canonical
//! client address to exactly one connection handle, the routing of
//! each request to its response and destination, payload filtering,
//! broadcast fan-out, and cancellation. The I/O around these
//! decisions — reading requests, writing responses, the task per
//! connection — stays outside the library.
use vstd::prelude::*;

use crate::addr::SockAddr;
use crate::turn::{ResView, TurnReq, TurnRes};

verus! {

/// The first handle registered under an address, if any.
pub open spec fn spec_lookup(s: Seq<(SockAddr, u64)>, a: (Seq<u8>, u16)) -> Option<u64>
    decreases s.len(),
{
    if s.len() == 0 {
        None
    } else if s[0].0@ == a {
        Some(s[0].1)
    } else {
        spec_lookup(s.drop_first(), a)
    }
}

/// The entries with any other address: removing one address keeps
/// every other entry, in order.
pub open spec fn spec_remove_addr(s: Seq<(SockAddr, u64)>, a: (Seq<u8>, u16)) -> Seq<
    (SockAddr, u64),
>
    decreases s.len(),
{
    if s.len() == 0 {
        s
    } else {
        let rest = spec_remove_addr(s.drop_first(), a);
        if s[0].0@ == a {
            rest
        } else {
            seq![s[0]] + rest
        }
    }
}

/// No entry has the address exactly when the lookup finds nothing.
pub proof fn lemma_lookup_none(s: Seq<(SockAddr, u64)>, a: (Seq<u8>, u16))
    ensures
        spec_lookup(s, a) is None <==> forall|i: int|
            0 <= i < s.len() ==> (#[trigger] s[i]).0@ != a,
    decreases s.len(),
{
    if s.len() != 0 {
        lemma_lookup_none(s.drop_first(), a);
        assert(forall|i: int|
            1 <= i < s.len() ==> (#[trigger] s[i]) == s.drop_first()[i - 1]);
    }
}

/// Looking up any other address is unchanged by a removal.
pub proof fn lemma_remove_addr_lookup(s: Seq<(SockAddr, u64)>, a: (Seq<u8>, u16), b: (Seq<u8>, u16))
    requires
        b != a,
    ensures
        spec_lookup(spec_remove_addr(s, a), b) == spec_lookup(s, b),
    decreases s.len(),
{
    if s.len() != 0 {
        lemma_remove_addr_lookup(s.drop_first(), a, b);
        let rest = spec_remove_addr(s.drop_first(), a);
        if s[0].0@ == a {
        } else {
            assert(seq![s[0]] + rest =~= spec_remove_addr(s, a));
            assert((seq![s[0]] + rest)[0] == s[0]);
            assert((seq![s[0]] + rest).drop_first() =~= rest);
        }
    }
}

/// The removed address is gone.
pub proof fn lemma_remove_addr_gone(s: Seq<(SockAddr, u64)>, a: (Seq<u8>, u16))
    ensures
        spec_lookup(spec_remove_addr(s, a), a) is None,
    decreases s.len(),
{
    if s.len() != 0 {
        lemma_remove_addr_gone(s.drop_first(), a);
        let rest = spec_remove_addr(s.drop_first(), a);
        if s[0].0@ != a {
            assert((seq![s[0]] + rest)[0] == s[0]);
            assert((seq![s[0]] + rest).drop_first() =~= rest);
        }
    }
}

/// Every entry left by a removal was there before.
pub proof fn lemma_remove_addr_contains(s: Seq<(SockAddr, u64)>, a: (Seq<u8>, u16), e: (SockAddr, u64))
    requires
        spec_remove_addr(s, a).contains(e),
    ensures
        s.contains(e),
    decreases s.len(),
{
    if s.len() != 0 {
        let rest = spec_remove_addr(s.drop_first(), a);
        if s[0].0@ == a {
            lemma_remove_addr_contains(s.drop_first(), a, e);
            let i = choose|i: int| 0 <= i < s.drop_first().len() && s.drop_first()[i] == e;
            assert(s[i + 1] == e);
        } else {
            let r = seq![s[0]] + rest;
            let i = choose|i: int| 0 <= i < r.len() && r[i] == e;
            if i == 0 {
                assert(s[0] == e);
            } else {
                assert(rest[i - 1] == e);
                lemma_remove_addr_contains(s.drop_first(), a, e);
                let j = choose|j: int| 0 <= j < s.drop_first().len() && s.drop_first()[j] == e;
                assert(s[j + 1] == e);
            }
        }
    }
}

/// A registry of connections: each entry a canonical client address
/// and the handle of its one connection.
pub struct Registry {
    pub entries: Vec<(SockAddr, u64)>,
}

impl Registry {
    /// Every address canonical, and no address twice: the hard
    /// invariant of the registry.
    pub open spec fn wf(self) -> bool {
        &&& forall|i: int|
            0 <= i < self.entries@.len() ==> (#[trigger] self.entries@[i]).0.is_canonical()
        &&& forall|i: int, j: int|
            0 <= i < j < self.entries@.len() ==> (#[trigger] self.entries@[i]).0@ != (
            #[trigger] self.entries@[j]).0@
    }

    /// Whether an address holds a registry slot.
    pub open spec fn contains_addr(self, a: (Seq<u8>, u16)) -> bool {
        spec_lookup(self.entries@, a) is Some
    }

    pub fn new() -> (r: Registry)
        ensures
            r.wf(),
            r.entries@.len() == 0,
    {
        Registry { entries: Vec::new() }
    }

    /// Atomically claims the slot for a canonical address:
    /// first-writer-wins. Succeeds and registers the handle exactly
    /// when the address holds no slot; otherwise the registry is
    /// unchanged and the newcomer is refused.
    pub fn claim(&mut self, addr: SockAddr, id: u64) -> (r: bool)
        requires
            old(self).wf(),
            addr.is_canonical(),
        ensures
            final(self).wf(),
            r <==> !old(self).contains_addr(addr@),
            r ==> final(self).entries@ == old(self).entries@.push((addr, id)),
            !r ==> final(self).entries@ == old(self).entries@,
    {
        let ghost s = self.entries@;
        proof {
            assert(s.subrange(0, s.len() as int) =~= s);
        }
        let mut i: usize = 0;
        while i < self.entries.len()
            invariant
                s == self.entries@,
                s == old(self).entries@,
                old(self).wf(),
                0 <= i <= s.len(),
                spec_lookup(s, addr@) == spec_lookup(s.subrange(i as int, s.len() as int), addr@),
            decreases s.len() - i,
        {
            let ghost rest = s.subrange(i as int, s.len() as int);
            proof {
                assert(rest[0] == s[i as int]);
                assert(rest.drop_first() =~= s.subrange(i + 1, s.len() as int));
            }
            if self.entries[i].0.addr_eq(&addr) {
                proof {
                    assert(spec_lookup(rest, addr@) is Some);
                }
                return false;
            }
            i += 1;
        }
        proof {
            assert(s.subrange(s.len() as int, s.len() as int) =~= Seq::<(SockAddr, u64)>::empty());
            lemma_lookup_none(s, addr@);
        }
        self.entries.push((addr, id));
        proof {
            assert(forall|k: int|
                0 <= k < s.len() ==> self.entries@[k] == (#[trigger] s[k]));
        }
        true
    }

    /// The handle registered under an address, if any.
    pub fn lookup(&self, addr: &SockAddr) -> (r: Option<u64>)
        ensures
            r == spec_lookup(self.entries@, addr@),
    {
        let ghost s = self.entries@;
        proof {
            assert(s.subrange(0, s.len() as int) =~= s);
        }
        let mut i: usize = 0;
        while i < self.entries.len()
            invariant
                s == self.entries@,
                0 <= i <= s.len(),
                spec_lookup(s, addr@) == spec_lookup(s.subrange(i as int, s.len() as int), addr@),
            decreases s.len() - i,
        {
            let ghost rest = s.subrange(i as int, s.len() as int);
            proof {
                assert(rest[0] == s[i as int]);
                assert(rest.drop_first() =~= s.subrange(i + 1, s.len() as int));
            }
            if self.entries[i].0.addr_eq(addr) {
                proof {
                    assert(spec_lookup(rest, addr@) is Some);
                }
                return Some(self.entries[i].1);
            }
            i += 1;
        }
        proof {
            assert(s.subrange(s.len() as int, s.len() as int) =~= Seq::<(SockAddr, u64)>::empty());
        }
        None
    }

    /// Releases an address's slot, making it immediately available
    /// for reclaim; every other entry is kept, with its handle and in
    /// order.
    pub fn remove(&mut self, addr: &SockAddr)
        requires
            old(self).wf(),
        ensures
            final(self).wf(),
            final(self).entries@ == spec_remove_addr(old(self).entries@, addr@),
            !final(self).contains_addr(addr@),
            forall|b: (Seq<u8>, u16)|
                b != addr@ ==> #[trigger] spec_lookup(final(self).entries@, b) == spec_lookup(
                    old(self).entries@,
                    b,
                ),
    {
        let ghost s = self.entries@;
        let mut out: Vec<(SockAddr, u64)> = Vec::new();
        proof {
            assert(s.subrange(0, s.len() as int) =~= s);
            assert(out@ + spec_remove_addr(s, addr@) =~= spec_remove_addr(s, addr@));
        }
        let mut i: usize = 0;
        while i < self.entries.len()
            invariant
                s == self.entries@,
                0 <= i <= s.len(),
                spec_remove_addr(s, addr@) == out@ + spec_remove_addr(
                    s.subrange(i as int, s.len() as int),
                    addr@,
                ),
            decreases s.len() - i,
        {
            let ghost rest = s.subrange(i as int, s.len() as int);
            proof {
                assert(rest[0] == s[i as int]);
                assert(rest.drop_first() =~= s.subrange(i + 1, s.len() as int));
            }
            let keep = !self.entries[i].0.addr_eq(addr);
            if keep {
                let entry = (self.entries[i].0, self.entries[i].1);
                out.push(entry);
                proof {
                    assert(out@.drop_last() + (seq![s[i as int]] + spec_remove_addr(
                        rest.drop_first(),
                        addr@,
                    )) =~= out@ + spec_remove_addr(rest.drop_first(), addr@));
                }
            }
            i += 1;
        }
        proof {
            assert(s.subrange(s.len() as int, s.len() as int) =~= Seq::<(SockAddr, u64)>::empty());
            assert(out@ + Seq::<(SockAddr, u64)>::empty() =~= out@);
        }
        self.entries = out;
        proof {
            let t = spec_remove_addr(s, addr@);
            lemma_remove_addr_gone(s, addr@);
            assert forall|b: (Seq<u8>, u16)| b != addr@ implies #[trigger] spec_lookup(t, b)
                == spec_lookup(s, b) by {
                lemma_remove_addr_lookup(s, addr@, b);
            }
            // The invariant survives: every kept entry was an entry.
            assert forall|k: int| 0 <= k < t.len() implies (#[trigger] t[k]).0.is_canonical() by {
                assert(t.contains(t[k]));
                lemma_remove_addr_contains(s, addr@, t[k]);
                let j = choose|j: int| 0 <= j < s.len() && s[j] == t[k];
                assert(s[j].0.is_canonical());
            }
            assert forall|k1: int, k2: int| 0 <= k1 < k2 < t.len() implies (#[trigger] t[k1]).0@
                != (#[trigger] t[k2]).0@ by {
                lemma_remove_addr_distinct(s, addr@, k1, k2);
            }
        }
    }

}

/// Whether a relayed payload may be forwarded: its first byte must be
/// STUN-class (0 to 3) or DTLS-class (20 to 63); an empty payload or
/// any other leading byte is dropped.
pub open spec fn spec_payload_allowed(data: Seq<u8>) -> bool {
    data.len() > 0 && (data[0] <= 3 || (20 <= data[0] && data[0] <= 63))
}

/// What the hub does with one request: answer the sender, route a
/// response to a destination (possibly the broadcast sentinel), drop
/// the request silently, or close the connection.
pub enum Routing {
    Reply(TurnRes),
    Route(SockAddr, TurnRes),
    Drop,
    Close,
}

/// The hub's shared state: the registry and the one process-wide
/// cancellation flag.
pub struct Hub {
    pub registry: Registry,
    pub cancelled: bool,
    pub lifetime: u32,
}

impl Hub {
    pub fn new(lifetime: u32) -> (r: Hub)
        ensures
            r.registry.wf(),
            r.registry.entries@.len() == 0,
            !r.cancelled,
            r.lifetime == lifetime,
    {
        Hub { registry: Registry::new(), cancelled: false, lifetime }
    }

    /// Signals process-wide cancellation: from here on no connection
    /// registers and every connection is told to close.
    pub fn cancel(&mut self)
        ensures
            final(self).cancelled,
            final(self).registry == old(self).registry,
            final(self).lifetime == old(self).lifetime,
    {
        self.cancelled = true;
    }

    /// Registers a newly accepted connection under its canonical
    /// address: succeeds exactly when cancellation has not been
    /// signaled and the address holds no slot.
    pub fn try_register(&mut self, addr: SockAddr, id: u64) -> (r: bool)
        requires
            old(self).registry.wf(),
            addr.is_canonical(),
        ensures
            final(self).registry.wf(),
            final(self).cancelled == old(self).cancelled,
            final(self).lifetime == old(self).lifetime,
            r <==> (!old(self).cancelled && !old(self).registry.contains_addr(addr@)),
            r ==> final(self).registry.entries@ == old(self).registry.entries@.push((addr, id)),
            !r ==> final(self).registry.entries@ == old(self).registry.entries@,
    {
        if self.cancelled {
            return false;
        }
        self.registry.claim(addr, id)
    }

    /// Removes a terminated connection's registry entry, whatever
    /// ended it, making its address immediately available again.
    pub fn deregister(&mut self, addr: &SockAddr)
        requires
            old(self).registry.wf(),
        ensures
            final(self).registry.wf(),
            final(self).cancelled == old(self).cancelled,
            final(self).lifetime == old(self).lifetime,
            final(self).registry.entries@ == spec_remove_addr(old(self).registry.entries@, addr@),
            !final(self).registry.contains_addr(addr@),
            forall|b: (Seq<u8>, u16)|
                b != addr@ ==> #[trigger] spec_lookup(final(self).registry.entries@, b)
                    == spec_lookup(old(self).registry.entries@, b),
    {
        self.registry.remove(addr);
    }

    /// Decides one request from the connection with the given
    /// canonical address. Once cancellation is signaled every request
    /// closes the connection, so no new allocation succeeds after it.
    /// Allocate, Refresh and Permission are acknowledged to the
    /// sender; a channel bind is silently dropped; channel data closes
    /// the connection; a Send becomes a Data indication to its peer's
    /// canonical address, carrying the payload unchanged and naming
    /// the sender, unless the payload's class forbids forwarding.
    pub fn handle(&self, addr: SockAddr, req: TurnReq) -> (r: Routing)
        ensures
            (match req {
                TurnReq::Allocate { txid } => {
                    if self.cancelled {
                        r is Close
                    } else {
                        r matches Routing::Reply(res) && res@ == (ResView::Allocate {
                            txid: txid@,
                            lifetime: self.lifetime,
                            relayed: addr@,
                        })
                    }
                },
                TurnReq::Refresh { txid } => {
                    if self.cancelled {
                        r is Close
                    } else {
                        r matches Routing::Reply(res) && res@ == (ResView::Refresh {
                            txid: txid@,
                            lifetime: self.lifetime,
                        })
                    }
                },
                TurnReq::Permission { txid, .. } => {
                    if self.cancelled {
                        r is Close
                    } else {
                        r matches Routing::Reply(res) && res@ == (ResView::Permission {
                            txid: txid@,
                        })
                    }
                },
                TurnReq::BindChannel { .. } => {
                    if self.cancelled {
                        r is Close
                    } else {
                        r is Drop
                    }
                },
                TurnReq::Send { txid, peer, data } => {
                    if self.cancelled {
                        r is Close
                    } else if spec_payload_allowed(data@) {
                        r matches Routing::Route(dst, res) && dst@ == crate::addr::spec_canonical(
                            peer@,
                        ) && res@ == (ResView::Data { txid: txid@, peer: addr@, data: data@ })
                    } else {
                        r is Drop
                    }
                },
                TurnReq::ChannelData { .. } => r is Close,
            }),
    {
        if self.cancelled {
            return Routing::Close;
        }
        match req {
            TurnReq::Allocate { txid } => Routing::Reply(
                TurnRes::Allocate { txid, lifetime: self.lifetime, relayed: addr },
            ),
            TurnReq::Refresh { txid } => Routing::Reply(
                TurnRes::Refresh { txid, lifetime: self.lifetime },
            ),
            TurnReq::Permission { txid, .. } => Routing::Reply(TurnRes::Permission { txid }),
            TurnReq::BindChannel { .. } => Routing::Drop,
            TurnReq::Send { txid, peer, data } => {
                let allowed = data.len() > 0 && {
                    let b = data[0];
                    b <= 3 || (20 <= b && b <= 63)
                };
                if allowed {
                    let dst = peer.to_canonical();
                    Routing::Route(dst, TurnRes::Data { txid, peer: addr, data })
                } else {
                    Routing::Drop
                }
            },
            TurnReq::ChannelData { .. } => Routing::Close,
        }
    }

    /// The connections a routed response goes to: every registered
    /// connection for the broadcast sentinel, the destination's one
    /// connection when it is registered, and none otherwise (the send
    /// is dropped).
    pub fn targets(&self, dst: &SockAddr) -> (r: Vec<u64>)
        ensures
            dst.spec_is_broadcast() ==> r@ == Seq::new(
                self.registry.entries@.len(),
                |i: int| self.registry.entries@[i].1,
            ),
            !dst.spec_is_broadcast() ==> r@ == (match spec_lookup(self.registry.entries@, dst@) {
                Some(id) => seq![id],
                None => Seq::<u64>::empty(),
            }),
    {
        let mut out: Vec<u64> = Vec::new();
        if dst.is_broadcast() {
            let mut i: usize = 0;
            while i < self.registry.entries.len()
                invariant
                    0 <= i <= self.registry.entries@.len(),
                    out@ =~= Seq::new(i as nat, |j: int| self.registry.entries@[j].1),
                decreases self.registry.entries@.len() - i,
            {
                out.push(self.registry.entries[i].1);
                proof {
                    assert(out@ =~= Seq::new((i + 1) as nat, |j: int| self.registry.entries@[j].1));
                }
                i += 1;
            }
        } else {
            match self.registry.lookup(dst) {
                Some(id) => {
                    out.push(id);
                    proof {
                        assert(out@ =~= seq![id]);
                    }
                },
                None => {},
            }
        }
        out
    }
}

/// Registry uniqueness: when two connection attempts from the same
/// canonical address claim their slot one after the other, the first
/// registers and the second is refused, leaving the first's entry in
/// place.
pub proof fn lemma_duplicate_claim_refused(
    pre: Registry,
    mid: Registry,
    addr: SockAddr,
    id: u64,
)
    requires
        pre.wf(),
        !pre.contains_addr(addr@),
        mid.entries@ == pre.entries@.push((addr, id)),
    ensures
        mid.contains_addr(addr@),
        spec_lookup(mid.entries@, addr@) == Some(id),
{
    lemma_lookup_push(pre.entries@, addr, id);
}

/// Pushing an entry for an absent address registers exactly it.
pub proof fn lemma_lookup_push(s: Seq<(SockAddr, u64)>, addr: SockAddr, id: u64)
    requires
        spec_lookup(s, addr@) is None,
    ensures
        spec_lookup(s.push((addr, id)), addr@) == Some(id),
    decreases s.len(),
{
    if s.len() == 0 {
        assert(s.push((addr, id))[0] == (addr, id));
    } else {
        assert(s.push((addr, id))[0] == s[0]);
        assert(s.push((addr, id)).drop_first() =~= s.drop_first().push((addr, id)));
        lemma_lookup_push(s.drop_first(), addr, id);
    }
}

/// Distinctness survives a removal.
proof fn lemma_remove_addr_distinct(s: Seq<(SockAddr, u64)>, a: (Seq<u8>, u16), k1: int, k2: int)
    requires
        forall|i: int, j: int|
            0 <= i < j < s.len() ==> (#[trigger] s[i]).0@ != (#[trigger] s[j]).0@,
        0 <= k1 < k2 < spec_remove_addr(s, a).len(),
    ensures
        spec_remove_addr(s, a)[k1].0@ != spec_remove_addr(s, a)[k2].0@,
    decreases s.len(),
{
    let t = spec_remove_addr(s, a);
    if s.len() != 0 {
        let rest = spec_remove_addr(s.drop_first(), a);
        assert(forall|i: int, j: int|
            0 <= i < j < s.drop_first().len() ==> (#[trigger] s.drop_first()[i]).0@ != (
            #[trigger] s.drop_first()[j]).0@);
        if s[0].0@ == a {
            lemma_remove_addr_distinct(s.drop_first(), a, k1, k2);
        } else {
            assert(t =~= seq![s[0]] + rest);
            if k1 == 0 {
                assert(t[0] == s[0]);
                assert(rest[k2 - 1] == t[k2]);
                lemma_remove_addr_contains(s.drop_first(), a, t[k2]);
                let j = choose|j: int|
                    0 <= j < s.drop_first().len() && s.drop_first()[j] == t[k2];
                assert(s[j + 1] == t[k2]);
                assert(s[0].0@ != s[j + 1].0@);
            } else {
                assert(t[k1] == rest[k1 - 1]);
                assert(t[k2] == rest[k2 - 1]);
                lemma_remove_addr_distinct(s.drop_first(), a, k1 - 1, k2 - 1);
            }
        }
    }
}

} // verus!
