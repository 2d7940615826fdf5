//! The table that gives each UDP peer of a tunnel a numeric id.
//!
//! Datagrams from a peer travel through the tunnel tagged with the peer's id;
//! datagrams coming back are routed to the peer that owns their id.

use std::collections::HashMap;
use vstd::prelude::*;

verus! {

broadcast use vstd::std_specs::hash::group_hash_axioms;

/// A UDP peer's socket address, as plain values.
///
/// `ip4` and `ip6` are the address as a number, most significant octet first
/// (what `u32::from(Ipv4Addr)` and `u128::from(Ipv6Addr)` give).
#[derive(Clone, Copy, Debug, PartialEq, Eq, Structural)]
pub enum PeerAddr {
    V4 { ip4: u32, port: u16 },
    V6 { ip6: u128, port: u16, flowinfo: u32, scope_id: u32 },
}

/// The distinct addresses of `addrs`, in the order in which each first
/// occurs.
pub open spec fn first_seen(addrs: Seq<PeerAddr>) -> Seq<PeerAddr>
    decreases addrs.len(),
{
    if addrs.len() == 0 {
        Seq::<PeerAddr>::empty()
    } else {
        let earlier = first_seen(addrs.drop_last());
        if earlier.contains(addrs.last()) {
            earlier
        } else {
            earlier.push(addrs.last())
        }
    }
}

/// The ids `1 ..= order.len()` given to the addresses of `order`, in turn.
pub open spec fn numbered(order: Seq<PeerAddr>) -> Map<u64, PeerAddr> {
    Map::new(|id: u64| 1 <= id <= order.len(), |id: u64| order[id - 1])
}

/// Ids of the UDP peers of one tunnel.
///
/// Ids are handed out from 1 upwards in the order in which peers are first
/// seen; a peer keeps its id for the life of the tunnel.
pub struct ClientTable {
    clients: HashMap<u64, PeerAddr>,
    next_id: u64,
}

impl ClientTable {
    /// The peers by id.
    pub closed spec fn peers(&self) -> Map<u64, PeerAddr> {
        self.clients@
    }

    /// The id that the next new peer will get.
    pub closed spec fn spec_next_id(&self) -> u64 {
        self.next_id
    }

    /// The table is consistent: the ids in use are exactly `1 .. next_id`,
    /// and no address has two ids. Every table that the program holds is.
    #[verifier::type_invariant]
    pub closed spec fn wf(&self) -> bool {
        &&& 1 <= self.next_id
        &&& forall|id: u64| #[trigger] self.clients@.contains_key(id) <==> 1 <= id < self.next_id
        &&& forall|a: u64, b: u64|
            self.clients@.contains_key(a) && self.clients@.contains_key(b) && a != b
                ==> #[trigger] self.clients@[a] != #[trigger] self.clients@[b]
    }

    /// `addr` has an id in the table.
    pub open spec fn knows(&self, addr: PeerAddr) -> bool {
        exists|id: u64| #[trigger] self.peers().contains_key(id) && self.peers()[id] == addr
    }

    /// The id of the known peer `addr`.
    pub open spec fn id_of(&self, addr: PeerAddr) -> u64 {
        choose|id: u64| #[trigger] self.peers().contains_key(id) && self.peers()[id] == addr
    }

    /// `after` is `before` once `addr` has been seen: unchanged when `addr`
    /// was known, else with `addr` under the next id, and the next id one
    /// higher.
    pub open spec fn records(before: ClientTable, after: ClientTable, addr: PeerAddr) -> bool {
        &&& after.knows(addr)
        &&& before.knows(addr) ==> after == before
        &&& !before.knows(addr) ==> {
            &&& after.spec_next_id() == before.spec_next_id() + 1
            &&& after.peers() == before.peers().insert(before.spec_next_id(), addr)
        }
    }

    /// Every id in use lies in `1 .. next_id`, every such id is in use, and
    /// no two ids name the same peer.
    pub proof fn lemma_ids_unique_and_below_next(&self)
        requires
            self.wf(),
        ensures
            forall|id: u64| #[trigger]
                self.peers().contains_key(id) <==> 1 <= id < self.spec_next_id(),
            forall|a: u64, b: u64|
                self.peers().contains_key(a) && self.peers().contains_key(b) && a != b
                    ==> #[trigger] self.peers()[a] != #[trigger] self.peers()[b],
    {
    }

    /// In a consistent table, an id that names `addr` is the id of `addr`.
    pub proof fn lemma_id_of(&self, id: u64, addr: PeerAddr)
        requires
            self.wf(),
            self.peers().contains_key(id),
            self.peers()[id] == addr,
        ensures
            self.knows(addr),
            self.id_of(addr) == id,
    {
        let other = self.id_of(addr);
        assert(self.peers().contains_key(other) && self.peers()[other] == addr);
    }

    /// An empty table whose first id will be 1.
    pub fn new() -> (t: Self)
        ensures
            t.peers() == Map::<u64, PeerAddr>::empty(),
            t.spec_next_id() == 1,
    {
        ClientTable { clients: HashMap::new(), next_id: 1 }
    }

    /// The id that the next new peer will get.
    pub fn next_id(&self) -> (r: u64)
        ensures
            r == self.spec_next_id(),
    {
        self.next_id
    }

    /// The id of `addr`, if it has one.
    pub fn lookup_id(&self, addr: &PeerAddr) -> (r: Option<u64>)
        ensures
            r matches Some(id) ==> self.peers().contains_key(id) && self.peers()[id] == *addr,
            r is None <==> !self.knows(*addr),
    {
        proof {
            use_type_invariant(self);
        }
        let mut id: u64 = 1;
        while id < self.next_id
            invariant
                self.wf(),
                1 <= id <= self.next_id,
                forall|k: u64| 1 <= k < id ==> self.clients@[k] != *addr,
            decreases self.next_id - id,
        {
            match self.clients.get(&id) {
                Some(a) => {
                    if *a == *addr {
                        return Some(id);
                    }
                },
                None => {},
            }
            id = id + 1;
        }
        None
    }

    /// The peer that owns `id`, if any: where a datagram that comes back
    /// through the tunnel with this id is sent.
    pub fn addr_for(&self, id: u64) -> (r: Option<PeerAddr>)
        ensures
            r == (if self.peers().contains_key(id) {
                Some(self.peers()[id])
            } else {
                None::<PeerAddr>
            }),
    {
        match self.clients.get(&id) {
            Some(a) => Some(*a),
            None => None,
        }
    }

    /// Gives the new peer `addr` the next id.
    pub fn assign_id(&mut self, addr: PeerAddr) -> (id: u64)
        requires
            !old(self).knows(addr),
            old(self).spec_next_id() < u64::MAX,
        ensures
            id == old(self).spec_next_id(),
            id == final(self).id_of(addr),
            ClientTable::records(*old(self), *final(self), addr),
    {
        proof {
            use_type_invariant(&*self);
        }
        let mut taken = ClientTable::new();
        std::mem::swap(self, &mut taken);
        proof {
            use_type_invariant(&taken);
        }
        let ClientTable { mut clients, next_id } = taken;
        let id = next_id;
        let ghost before = clients@;
        assert(before == old(self).peers());
        clients.insert(id, addr);
        proof {
            assert forall|a: u64, b: u64|
                clients@.contains_key(a) && clients@.contains_key(b) && a != b
                    implies #[trigger] clients@[a] != #[trigger] clients@[b] by {
                if a != id && b != id {
                    assert(before[a] != before[b]);
                } else if a == id {
                    assert(before.contains_key(b));
                    if before[b] == addr {
                        assert(old(self).peers().contains_key(b));
                    }
                } else {
                    assert(before.contains_key(a));
                    if before[a] == addr {
                        assert(old(self).peers().contains_key(a));
                    }
                }
            }
        }
        *self = ClientTable { clients, next_id: id + 1 };
        proof {
            use_type_invariant(&*self);
            assert(self.peers().contains_key(id) && self.peers()[id] == addr);
            self.lemma_id_of(id, addr);
        }
        id
    }

    /// The id of `addr`, given to it now if it has none yet.
    pub fn id_for(&mut self, addr: PeerAddr) -> (id: u64)
        requires
            old(self).knows(addr) || old(self).spec_next_id() < u64::MAX,
        ensures
            final(self).peers().contains_key(id),
            final(self).peers()[id] == addr,
            id == final(self).id_of(addr),
            ClientTable::records(*old(self), *final(self), addr),
            !old(self).knows(addr) ==> id == old(self).spec_next_id(),
    {
        let id = match self.lookup_id(&addr) {
            Some(id) => id,
            None => self.assign_id(addr),
        };
        proof {
            use_type_invariant(&*self);
            self.lemma_id_of(id, addr);
        }
        id
    }
}

/// Registering a new peer leaves the ids of the peers already known as they
/// were: a peer keeps its id for the life of the tunnel.
pub proof fn lemma_known_peer_keeps_id(t: ClientTable, after: ClientTable, known: PeerAddr, new_peer: PeerAddr)
    requires
        t.wf(),
        after.wf(),
        t.knows(known),
        after.peers() == t.peers().insert(t.spec_next_id(), new_peer),
    ensures
        after.knows(known),
        after.id_of(known) == t.id_of(known),
{
    let id = t.id_of(known);
    assert(id < t.spec_next_id());
    after.lemma_id_of(id, known);
}

/// `first_seen(addrs)` lists each sender of `addrs` once, lists nothing
/// else, and lists them in the order of their first appearance: for two
/// listed senders, the earlier one occurs in `addrs` before any occurrence
/// of the later one.
pub proof fn lemma_first_seen_order(addrs: Seq<PeerAddr>)
    ensures
        first_seen(addrs).no_duplicates(),
        forall|k: int| 0 <= k < addrs.len() ==> first_seen(addrs).contains(#[trigger] addrs[k]),
        forall|i: int|
            0 <= i < first_seen(addrs).len() ==> exists|k: int|
                0 <= k < addrs.len() && addrs[k] == #[trigger] first_seen(addrs)[i],
        forall|i: int, j: int|
            0 <= i < j < first_seen(addrs).len() ==> exists|k: int|
                0 <= k < addrs.len() && addrs[k] == #[trigger] first_seen(addrs)[i] && forall|l: int|
                    0 <= l <= k ==> addrs[l] != #[trigger] first_seen(addrs)[j],
    decreases addrs.len(),
{
    let n = addrs.len();
    if n > 0 {
        let shorter = addrs.drop_last();
        let a = addrs.last();
        let earlier = first_seen(shorter);
        let fs = first_seen(addrs);
        lemma_first_seen_order(shorter);
        assert forall|k: int| 0 <= k < addrs.len() implies fs.contains(#[trigger] addrs[k]) by {
            if k < n - 1 {
                assert(shorter[k] == addrs[k]);
                let j = choose|j: int| 0 <= j < earlier.len() && earlier[j] == shorter[k];
                if !earlier.contains(a) {
                    assert(fs[j] == addrs[k]);
                }
            } else {
                if !earlier.contains(a) {
                    assert(fs[earlier.len() as int] == a);
                }
            }
        }
        assert forall|i: int| 0 <= i < fs.len() implies exists|k: int|
            0 <= k < addrs.len() && addrs[k] == #[trigger] fs[i] by {
            if i < earlier.len() {
                assert(fs[i] == earlier[i]);
                let k = choose|k: int| 0 <= k < shorter.len() && shorter[k] == earlier[i];
                assert(addrs[k] == shorter[k]);
            } else {
                assert(addrs[n - 1] == fs[i]);
            }
        }
        assert forall|i: int, j: int| 0 <= i < j < fs.len() implies exists|k: int|
            0 <= k < addrs.len() && addrs[k] == #[trigger] fs[i] && forall|l: int|
                0 <= l <= k ==> addrs[l] != #[trigger] fs[j] by {
            assert(fs[i] == earlier[i]);
            if j < earlier.len() {
                assert(fs[j] == earlier[j]);
                let k = choose|k: int|
                    0 <= k < shorter.len() && shorter[k] == #[trigger] earlier[i] && forall|l: int|
                        0 <= l <= k ==> shorter[l] != #[trigger] earlier[j];
                assert forall|l: int| 0 <= l <= k implies addrs[l] != #[trigger] fs[j] by {
                    assert(shorter[l] == addrs[l]);
                }
            } else {
                assert(fs[j] == a);
                assert(!earlier.contains(a));
                let k = choose|k: int| 0 <= k < shorter.len() && shorter[k] == earlier[i];
                assert(addrs[k] == shorter[k]);
                assert forall|l: int| 0 <= l <= k implies addrs[l] != #[trigger] fs[j] by {
                    assert(shorter[l] == addrs[l]);
                    if shorter[l] == a {
                        assert(earlier.contains(shorter[l]));
                    }
                }
            }
        }
    }
}

/// Over a run of datagrams from `addrs`, starting from an empty table, the
/// table ends as `{1 => a1, ..., n => an}` where `a1 .. an` are the distinct
/// senders in the order of their first datagram: ids start at 1 and grow by
/// one per new sender, a repeated sender keeps its id, no two senders share
/// an id, and no entry is removed or given to another sender.
pub proof fn lemma_ids_follow_first_arrival(tables: Seq<ClientTable>, addrs: Seq<PeerAddr>)
    requires
        tables.len() == addrs.len() + 1,
        tables[0].peers() == Map::<u64, PeerAddr>::empty(),
        tables[0].spec_next_id() == 1,
        forall|k: int|
            #![trigger addrs[k]]
            0 <= k < addrs.len() ==> ClientTable::records(tables[k], tables[k + 1], addrs[k]),
    ensures
        tables.last().peers() == numbered(first_seen(addrs)),
        tables.last().spec_next_id() == first_seen(addrs).len() + 1,
        first_seen(addrs).no_duplicates(),
        forall|k: int| 0 <= k < addrs.len() ==> first_seen(addrs).contains(#[trigger] addrs[k]),
        forall|id: u64|
            #[trigger] tables.last().peers().contains_key(id) <==> 1 <= id <= first_seen(addrs).len(),
        forall|id: u64|
            1 <= id <= first_seen(addrs).len() ==> #[trigger] tables.last().peers()[id]
                == first_seen(addrs)[id - 1],
    decreases addrs.len(),
{
    lemma_first_seen_order(addrs);
    lemma_ids_follow_first_arrival_table(tables, addrs);
}

proof fn lemma_ids_follow_first_arrival_table(tables: Seq<ClientTable>, addrs: Seq<PeerAddr>)
    requires
        tables.len() == addrs.len() + 1,
        tables[0].peers() == Map::<u64, PeerAddr>::empty(),
        tables[0].spec_next_id() == 1,
        forall|k: int|
            #![trigger addrs[k]]
            0 <= k < addrs.len() ==> ClientTable::records(tables[k], tables[k + 1], addrs[k]),
    ensures
        tables.last().peers() == numbered(first_seen(addrs)),
        tables.last().spec_next_id() == first_seen(addrs).len() + 1,
    decreases addrs.len(),
{
    let n = addrs.len();
    if n == 0 {
        assert(numbered(first_seen(addrs)) =~= Map::<u64, PeerAddr>::empty());
    } else {
        let shorter_tables = tables.drop_last();
        let shorter = addrs.drop_last();
        assert forall|k: int| #![trigger shorter[k]] 0 <= k < shorter.len() implies ClientTable::records(
            shorter_tables[k],
            shorter_tables[k + 1],
            shorter[k],
        ) by {
            assert(addrs[k] == shorter[k]);
        }
        lemma_ids_follow_first_arrival_table(shorter_tables, shorter);
        let t = tables[n - 1];
        let u = tables[n as int];
        let a = addrs[n - 1];
        let earlier = first_seen(shorter);
        assert(t == shorter_tables.last());
        assert(addrs.last() == a);
        assert(ClientTable::records(t, u, addrs[n - 1]));
        if earlier.contains(a) {
            let i = choose|i: int| 0 <= i < earlier.len() && earlier[i] == a;
            let id = (i + 1) as u64;
            assert(t.peers().contains_key(id) && t.peers()[id] == a);
            assert(t.knows(a));
            assert(first_seen(addrs) == earlier);
        } else {
            if t.knows(a) {
                let id = choose|id: u64| #[trigger] t.peers().contains_key(id) && t.peers()[id] == a;
                assert(earlier[id - 1] == a);
                assert(false);
            }
            assert(first_seen(addrs) == earlier.push(a));
            assert(u.peers() =~= numbered(earlier.push(a)));
        }
    }
}

} // verus!
