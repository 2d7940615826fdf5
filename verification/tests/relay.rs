use srp::{
    client_tcp_step, encode_datagram, server_accept_step, server_tcp_step, udp_step, Destination,
    LoopStep, PeerAddr, RelaySide, ServerSignal, TcpSignal, UdpRelay, UdpSignal,
};

#[test]
fn client_tcp_loop() {
    assert_eq!(client_tcp_step(TcpSignal::Shutdown), LoopStep::CloseAndStop);
    assert_eq!(client_tcp_step(TcpSignal::TunnelClosed), LoopStep::Stop);
    assert_eq!(client_tcp_step(TcpSignal::AcceptFailed), LoopStep::Stop);
    assert_eq!(client_tcp_step(TcpSignal::Accepted), LoopStep::Spawn);
}

#[test]
fn server_tcp_loop() {
    assert_eq!(server_tcp_step(TcpSignal::Shutdown), LoopStep::CloseAndStop);
    assert_eq!(server_tcp_step(TcpSignal::TunnelClosed), LoopStep::Stop);
    assert_eq!(server_tcp_step(TcpSignal::AcceptFailed), LoopStep::Skip);
    assert_eq!(server_tcp_step(TcpSignal::Accepted), LoopStep::Spawn);
}

#[test]
fn server_accept_loop() {
    assert_eq!(server_accept_step(ServerSignal::Shutdown), LoopStep::Stop);
    assert_eq!(server_accept_step(ServerSignal::EndpointClosed), LoopStep::Stop);
    assert_eq!(server_accept_step(ServerSignal::Incoming), LoopStep::Spawn);
}

#[test]
fn udp_loop_signals() {
    assert_eq!(udp_step(UdpSignal::Shutdown), LoopStep::CloseAndStop);
    assert_eq!(udp_step(UdpSignal::TunnelClosed), LoopStep::Stop);
    assert_eq!(udp_step(UdpSignal::TunnelReadFailed), LoopStep::Skip);
    assert_eq!(udp_step(UdpSignal::PeerReadFailed), LoopStep::Skip);
}

#[test]
fn server_relay_tags_each_peer_and_routes_replies_back() {
    let mut relay = UdpRelay::new(RelaySide::Server);
    assert_eq!(relay.side(), RelaySide::Server);
    let a = PeerAddr::V4 { ip4: 0x0a000001, port: 4000 };
    let b = PeerAddr::V4 { ip4: 0x0a000002, port: 4000 };
    let out_a = relay.from_peer(a, b"hello");
    assert_eq!(&out_a[..], b"\0\0\0\0\0\0\0\x01hello");
    let out_b = relay.from_peer(b, b"x");
    assert_eq!(&out_b[..], b"\0\0\0\0\0\0\0\x02x");
    let again = relay.from_peer(a, b"");
    assert_eq!(&again[..], b"\0\0\0\0\0\0\0\x01");
    assert_eq!(relay.clients().next_id(), 3);

    let reply = encode_datagram(2, b"pong");
    assert_eq!(relay.from_tunnel(&reply), Some((Destination::Peer(b), &b"pong"[..])));
    let stray = encode_datagram(9, b"pong");
    assert_eq!(relay.from_tunnel(&stray), None);
    assert_eq!(relay.from_tunnel(&[0, 1, 2]), None);
}

#[test]
fn client_relay_sends_everything_to_the_endpoint() {
    let mut relay = UdpRelay::new(RelaySide::Client);
    let reply = encode_datagram(77, b"data");
    assert_eq!(relay.from_tunnel(&reply), Some((Destination::Endpoint, &b"data"[..])));
    assert_eq!(relay.from_tunnel(&[1, 2, 3, 4, 5, 6, 7]), None);
    let service = PeerAddr::V4 { ip4: 0x7f000001, port: 53 };
    let out = relay.from_peer(service, b"q");
    assert_eq!(&out[..], b"\0\0\0\0\0\0\0\x01q");
    assert_eq!(relay.clients().lookup_id(&service), Some(1));
}

#[test]
fn server_relay_numbers_senders_in_order_of_first_datagram() {
    let mut relay = UdpRelay::new(RelaySide::Server);
    let a = PeerAddr::V4 { ip4: 1, port: 1 };
    let b = PeerAddr::V4 { ip4: 2, port: 1 };
    let c = PeerAddr::V6 { ip6: 3, port: 1, flowinfo: 0, scope_id: 0 };
    for peer in [a, b, a, c, b, c, a] {
        relay.from_peer(peer, b"p");
    }
    let table = relay.clients();
    assert_eq!(table.next_id(), 4);
    assert_eq!(table.addr_for(1), Some(a));
    assert_eq!(table.addr_for(2), Some(b));
    assert_eq!(table.addr_for(3), Some(c));
    assert_eq!(table.addr_for(4), None);
}
