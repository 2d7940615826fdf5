//! Decisions of the relay loops.
//!
//! Each loop waits for the first of several signals (a shutdown request, the
//! end of the tunnel, an accepted connection or a datagram) and then acts;
//! the functions here say what it does with each signal, and the UDP relay
//! keeps the table of the peers that it serves.

use vstd::prelude::*;
use bytes::Bytes;
use crate::clients::{first_seen, lemma_ids_follow_first_arrival, numbered, ClientTable, PeerAddr};
use crate::datagram::{
    be_prefix_value, decode_datagram, encode_datagram, frame, frozen_contents, lemma_frame_layout,
    parse_frame,
};

verus! {

/// What a relay loop does next.
#[derive(Clone, Copy, Debug, PartialEq, Eq, Structural)]
pub enum LoopStep {
    /// Close the QUIC connection and leave the loop.
    CloseAndStop,
    /// Leave the loop.
    Stop,
    /// Go on waiting.
    Skip,
    /// Start a task that relays the new stream or connection, and go on.
    Spawn,
}

/// What a TCP relay loop was woken by.
#[derive(Clone, Copy, Debug, PartialEq, Eq, Structural)]
pub enum TcpSignal {
    /// The program is shutting down.
    Shutdown,
    /// The peer closed the QUIC connection.
    TunnelClosed,
    /// Accepting the next stream or connection failed.
    AcceptFailed,
    /// A stream or connection was accepted.
    Accepted,
}

/// What the client's TCP relay does on `signal`.
pub open spec fn client_tcp_next(signal: TcpSignal) -> LoopStep {
    match signal {
        TcpSignal::Shutdown => LoopStep::CloseAndStop,
        TcpSignal::TunnelClosed => LoopStep::Stop,
        TcpSignal::AcceptFailed => LoopStep::Stop,
        TcpSignal::Accepted => LoopStep::Spawn,
    }
}

/// The client's TCP relay: each stream that the server opens is relayed to
/// the service; a failed accept ends the loop, as does a shutdown, which
/// also closes the connection.
pub fn client_tcp_step(signal: TcpSignal) -> (s: LoopStep)
    ensures
        s == client_tcp_next(signal),
        signal == TcpSignal::Shutdown ==> s == LoopStep::CloseAndStop,
        signal == TcpSignal::TunnelClosed ==> s == LoopStep::Stop,
        signal == TcpSignal::AcceptFailed ==> s == LoopStep::Stop,
        signal == TcpSignal::Accepted ==> s == LoopStep::Spawn,
{
    match signal {
        TcpSignal::Shutdown => LoopStep::CloseAndStop,
        TcpSignal::TunnelClosed => LoopStep::Stop,
        TcpSignal::AcceptFailed => LoopStep::Stop,
        TcpSignal::Accepted => LoopStep::Spawn,
    }
}

/// What the server's TCP relay does on `signal`.
pub open spec fn server_tcp_next(signal: TcpSignal) -> LoopStep {
    match signal {
        TcpSignal::Shutdown => LoopStep::CloseAndStop,
        TcpSignal::TunnelClosed => LoopStep::Stop,
        TcpSignal::AcceptFailed => LoopStep::Skip,
        TcpSignal::Accepted => LoopStep::Spawn,
    }
}

/// The server's TCP relay: each TCP connection to the exposed port gets a
/// stream through the tunnel; a failed accept is skipped; a shutdown closes
/// the connection and ends the loop, a closed connection ends it.
pub fn server_tcp_step(signal: TcpSignal) -> (s: LoopStep)
    ensures
        s == server_tcp_next(signal),
        signal == TcpSignal::Shutdown ==> s == LoopStep::CloseAndStop,
        signal == TcpSignal::TunnelClosed ==> s == LoopStep::Stop,
        signal == TcpSignal::AcceptFailed ==> s == LoopStep::Skip,
        signal == TcpSignal::Accepted ==> s == LoopStep::Spawn,
{
    match signal {
        TcpSignal::Shutdown => LoopStep::CloseAndStop,
        TcpSignal::TunnelClosed => LoopStep::Stop,
        TcpSignal::AcceptFailed => LoopStep::Skip,
        TcpSignal::Accepted => LoopStep::Spawn,
    }
}

/// What the server's accept loop was woken by.
#[derive(Clone, Copy, Debug, PartialEq, Eq, Structural)]
pub enum ServerSignal {
    /// The program is shutting down.
    Shutdown,
    /// The QUIC endpoint accepts no more connections.
    EndpointClosed,
    /// A client is connecting.
    Incoming,
}

/// What the server's accept loop does on `signal`.
pub open spec fn server_accept_next(signal: ServerSignal) -> LoopStep {
    match signal {
        ServerSignal::Shutdown => LoopStep::Stop,
        ServerSignal::EndpointClosed => LoopStep::Stop,
        ServerSignal::Incoming => LoopStep::Spawn,
    }
}

/// The server's accept loop: each connecting client is served by a task of
/// its own; a shutdown or a closed endpoint ends the loop.
pub fn server_accept_step(signal: ServerSignal) -> (s: LoopStep)
    ensures
        s == server_accept_next(signal),
        signal == ServerSignal::Shutdown ==> s == LoopStep::Stop,
        signal == ServerSignal::EndpointClosed ==> s == LoopStep::Stop,
        signal == ServerSignal::Incoming ==> s == LoopStep::Spawn,
{
    match signal {
        ServerSignal::Shutdown => LoopStep::Stop,
        ServerSignal::EndpointClosed => LoopStep::Stop,
        ServerSignal::Incoming => LoopStep::Spawn,
    }
}

/// What a UDP relay loop was woken by, apart from data.
#[derive(Clone, Copy, Debug, PartialEq, Eq, Structural)]
pub enum UdpSignal {
    /// The program is shutting down.
    Shutdown,
    /// The QUIC connection is closed.
    TunnelClosed,
    /// Reading a datagram from the tunnel failed.
    TunnelReadFailed,
    /// Reading from the UDP socket failed.
    PeerReadFailed,
}

/// What a UDP relay loop does on `signal`.
pub open spec fn udp_next(signal: UdpSignal) -> LoopStep {
    match signal {
        UdpSignal::Shutdown => LoopStep::CloseAndStop,
        UdpSignal::TunnelClosed => LoopStep::Stop,
        UdpSignal::TunnelReadFailed => LoopStep::Skip,
        UdpSignal::PeerReadFailed => LoopStep::Skip,
    }
}

/// The UDP relay loops, on both sides: a shutdown closes the connection and
/// ends the loop, a closed connection ends it, a failed read is skipped.
pub fn udp_step(signal: UdpSignal) -> (s: LoopStep)
    ensures
        s == udp_next(signal),
        signal == UdpSignal::Shutdown ==> s == LoopStep::CloseAndStop,
        signal == UdpSignal::TunnelClosed ==> s == LoopStep::Stop,
        signal == UdpSignal::TunnelReadFailed ==> s == LoopStep::Skip,
        signal == UdpSignal::PeerReadFailed ==> s == LoopStep::Skip,
{
    match signal {
        UdpSignal::Shutdown => LoopStep::CloseAndStop,
        UdpSignal::TunnelClosed => LoopStep::Stop,
        UdpSignal::TunnelReadFailed => LoopStep::Skip,
        UdpSignal::PeerReadFailed => LoopStep::Skip,
    }
}

/// Which end of the tunnel a UDP relay runs at.
#[derive(Clone, Copy, Debug, PartialEq, Eq, Structural)]
pub enum RelaySide {
    /// The client: its UDP socket is connected to the service, and every
    /// datagram from the tunnel goes there.
    Client,
    /// The server: its UDP socket receives from the public peers, and a
    /// datagram from the tunnel goes back to the peer that owns its id.
    Server,
}

/// Where a datagram from the tunnel is sent.
#[derive(Clone, Copy, Debug, PartialEq, Eq, Structural)]
pub enum Destination {
    /// The service that the client's socket is connected to.
    Endpoint,
    /// A peer of the server.
    Peer(PeerAddr),
}

/// Where a datagram `data` from the tunnel goes, and with which payload:
/// nowhere when it is too short, or, at the server, when no peer owns its id.
pub open spec fn route(side: RelaySide, peers: Map<u64, PeerAddr>, data: Seq<u8>) -> Option<
    (Destination, Seq<u8>),
> {
    match parse_frame(data) {
        None => None,
        Some((id, payload)) => match side {
            RelaySide::Client => Some((Destination::Endpoint, payload)),
            RelaySide::Server => if peers.contains_key(id) {
                Some((Destination::Peer(peers[id]), payload))
            } else {
                None
            },
        },
    }
}

/// The state of a UDP relay: its side and the ids of the peers it has seen.
pub struct UdpRelay {
    side: RelaySide,
    clients: ClientTable,
}

impl UdpRelay {
    /// The side the relay runs at.
    pub closed spec fn spec_side(&self) -> RelaySide {
        self.side
    }

    /// The peers the relay has seen, with their ids.
    pub closed spec fn table(&self) -> ClientTable {
        self.clients
    }

    /// A relay at `side` that has seen no peer yet.
    pub fn new(side: RelaySide) -> (r: Self)
        ensures
            r.spec_side() == side,
            r.table().peers() == Map::<u64, PeerAddr>::empty(),
            r.table().spec_next_id() == 1,
    {
        UdpRelay { side, clients: ClientTable::new() }
    }

    /// The side the relay runs at.
    pub fn side(&self) -> (s: RelaySide)
        ensures
            s == self.spec_side(),
    {
        self.side
    }

    /// The table of the peers the relay has seen.
    pub fn clients(&self) -> (t: &ClientTable)
        ensures
            *t == self.table(),
    {
        &self.clients
    }

    /// A UDP datagram from `from` enters the tunnel: the sender gets an id
    /// if it has none, and the datagram is framed with that id.
    pub fn from_peer(&mut self, from: PeerAddr, payload: &[u8]) -> (msg: Bytes)
        requires
            old(self).table().knows(from) || old(self).table().spec_next_id() < u64::MAX,
            payload@.len() + 8 <= isize::MAX,
        ensures
            final(self).spec_side() == old(self).spec_side(),
            ClientTable::records(old(self).table(), final(self).table(), from),
            frozen_contents(msg) == frame(final(self).table().id_of(from), payload@),
            final(self).table().peers().contains_key(final(self).table().id_of(from)),
            final(self).table().peers()[final(self).table().id_of(from)] == from,
            frozen_contents(msg).len() == 8 + payload@.len(),
            forall|k: int|
                0 <= k < 8 ==> #[trigger] frozen_contents(msg)[k] == (final(self).table().id_of(
                    from,
                ) >> ((56 - 8 * k) as u64)) as u8,
            frozen_contents(msg).skip(8) == payload@,
            !old(self).table().knows(from) ==> final(self).table().id_of(from) == old(
                self,
            ).table().spec_next_id(),
    {
        let id = self.clients.id_for(from);
        let msg = encode_datagram(id, payload);
        proof {
            lemma_frame_layout(id, payload@);
        }
        msg
    }

    /// A datagram from the tunnel leaves it: where it goes and the payload
    /// that is sent there.
    pub fn from_tunnel<'a>(&self, data: &'a [u8]) -> (r: Option<(Destination, &'a [u8])>)
        ensures
            r is None <==> route(self.spec_side(), self.table().peers(), data@) is None,
            r matches Some(d) ==> route(self.spec_side(), self.table().peers(), data@) == Some(
                (d.0, d.1@),
            ),
            data@.len() < 8 ==> r is None,
            self.spec_side() == RelaySide::Client && data@.len() >= 8 ==> (r matches Some(d)
                && d.0 == Destination::Endpoint && d.1@ == data@.skip(8)),
            self.spec_side() == RelaySide::Server && data@.len() >= 8 ==> (r is Some
                <==> self.table().peers().contains_key(be_prefix_value(data@))),
            self.spec_side() == RelaySide::Server && r is Some ==> (r matches Some(d) && d.0
                == Destination::Peer(self.table().peers()[be_prefix_value(data@)]) && d.1@
                == data@.skip(8)),
    {
        match decode_datagram(data) {
            None => None,
            Some((id, payload)) => match self.side {
                RelaySide::Client => Some((Destination::Endpoint, payload)),
                RelaySide::Server => match self.clients.addr_for(id) {
                    Some(addr) => Some((Destination::Peer(addr), payload)),
                    None => None,
                },
            },
        }
    }
}

/// A datagram from the tunnel goes nowhere when it is shorter than 8 bytes.
/// Otherwise the client sends everything after the first 8 bytes to its
/// service. The server sends the same payload to the peer whose id is the
/// big-endian number in the first 8 bytes, and drops the datagram when no
/// peer has that id.
pub proof fn lemma_route_layout(side: RelaySide, peers: Map<u64, PeerAddr>, data: Seq<u8>)
    ensures
        data.len() < 8 ==> route(side, peers, data) is None,
        side == RelaySide::Client && data.len() >= 8 ==> route(side, peers, data) == Some(
            (Destination::Endpoint, data.skip(8)),
        ),
        side == RelaySide::Server && data.len() >= 8 && peers.contains_key(be_prefix_value(data))
            ==> route(side, peers, data) == Some(
            (Destination::Peer(peers[be_prefix_value(data)]), data.skip(8)),
        ),
        side == RelaySide::Server && data.len() >= 8 && !peers.contains_key(be_prefix_value(data))
            ==> route(side, peers, data) is None,
{
}

/// At the server, a datagram that comes back through the tunnel with the id
/// that a peer's datagram went out with is sent back to that peer, with its
/// payload unchanged.
pub proof fn lemma_reply_reaches_sender(relay: UdpRelay, peer: PeerAddr, reply: Seq<u8>)
    requires
        relay.spec_side() == RelaySide::Server,
        relay.table().knows(peer),
    ensures
        route(relay.spec_side(), relay.table().peers(), frame(relay.table().id_of(peer), reply))
            == Some((Destination::Peer(peer), reply)),
{
    let t = relay.table();
    let id = t.id_of(peer);
    crate::datagram::lemma_parse_frame_inverts_frame(id, reply);
}

/// At the client, every datagram that comes through the tunnel whole goes to
/// the service, with the payload behind its id.
pub proof fn lemma_client_forwards_to_endpoint(relay: UdpRelay, id: u64, payload: Seq<u8>)
    requires
        relay.spec_side() == RelaySide::Client,
    ensures
        route(relay.spec_side(), relay.table().peers(), frame(id, payload)) == Some(
            (Destination::Endpoint, payload),
        ),
{
    crate::datagram::lemma_parse_frame_inverts_frame(id, payload);
}

/// Over a run of datagrams from `addrs` into a new relay, the relay's table
/// ends as `{1 => a1, ..., n => an}` where `a1 .. an` are the distinct
/// senders in the order of their first datagram.
pub proof fn lemma_relay_ids_follow_first_arrival(relays: Seq<UdpRelay>, addrs: Seq<PeerAddr>)
    requires
        relays.len() == addrs.len() + 1,
        relays[0].table().peers() == Map::<u64, PeerAddr>::empty(),
        relays[0].table().spec_next_id() == 1,
        forall|k: int|
            #![trigger addrs[k]]
            0 <= k < addrs.len() ==> ClientTable::records(
                relays[k].table(),
                relays[k + 1].table(),
                addrs[k],
            ),
    ensures
        relays.last().table().peers() == numbered(first_seen(addrs)),
        relays.last().table().spec_next_id() == first_seen(addrs).len() + 1,
        first_seen(addrs).no_duplicates(),
{
    let tables = relays.map_values(|r: UdpRelay| r.table());
    assert forall|k: int| #![trigger addrs[k]] 0 <= k < addrs.len() implies ClientTable::records(
        tables[k],
        tables[k + 1],
        addrs[k],
    ) by {
        assert(tables[k] == relays[k].table());
        assert(tables[k + 1] == relays[k + 1].table());
    }
    lemma_ids_follow_first_arrival(tables, addrs);
    assert(tables.last() == relays.last().table());
}

/// A datagram shorter than the id header is never forwarded, at either side.
pub proof fn lemma_short_datagram_dropped(side: RelaySide, peers: Map<u64, PeerAddr>, data: Seq<u8>)
    requires
        data.len() < 8,
    ensures
        route(side, peers, data) is None,
{
}

/// Every relay loop, at either side, closes the connection and stops when
/// the program shuts down; the server's accept loop stops too.
pub proof fn lemma_shutdown_closes()
    ensures
        client_tcp_next(TcpSignal::Shutdown) == LoopStep::CloseAndStop,
        server_tcp_next(TcpSignal::Shutdown) == LoopStep::CloseAndStop,
        udp_next(UdpSignal::Shutdown) == LoopStep::CloseAndStop,
        server_accept_next(ServerSignal::Shutdown) == LoopStep::Stop,
{
}

} // verus!
