use srp::config::TunnelPlan;
use srp::{
    Client, ClientConfigRequest, Ipv4Address, Protocol, Server, ServerConfigResponse, SocketV4,
};

fn request(protocol: Protocol) -> ClientConfigRequest {
    ClientConfigRequest {
        expose_addr: Ipv4Address { bits: 0x7f000001 },
        expose_port: 8080,
        protocol,
    }
}

#[test]
fn success_response() {
    let r = ServerConfigResponse::success();
    assert!(r.success);
    assert_eq!(r.error_message, None);
}

#[test]
fn error_response_keeps_message() {
    let r = ServerConfigResponse::error(String::from("boom"));
    assert!(!r.success);
    assert_eq!(r.error_message.as_deref(), Some("boom"));
}

#[test]
fn free_port_is_accepted() {
    let r = ServerConfigResponse::for_request(true);
    assert!(r.success);
    assert_eq!(r.error_message, None);
}

#[test]
fn taken_port_is_refused() {
    let r = ServerConfigResponse::for_request(false);
    assert!(!r.success);
    assert_eq!(r.error_message.as_deref(), Some("port already taken"));
}

#[test]
fn server_serves_accepted_request() {
    let r = ServerConfigResponse::for_request(true);
    assert_eq!(r.resolve_request(request(Protocol::Tcp)), Ok(request(Protocol::Tcp)));
}

#[test]
fn server_reports_rejected_request() {
    let r = ServerConfigResponse::for_request(false);
    assert_eq!(
        r.resolve_request(request(Protocol::Tcp)),
        Err(String::from("client config rejected: port already taken"))
    );
    let silent = ServerConfigResponse { success: false, error_message: None };
    assert_eq!(
        silent.resolve_request(request(Protocol::Udp)),
        Err(String::from("client config rejected: "))
    );
}

#[test]
fn client_accepts_success() {
    assert_eq!(ServerConfigResponse::for_request(true).into_result(), Ok(()));
}

#[test]
fn client_reports_server_message() {
    assert_eq!(
        ServerConfigResponse::for_request(false).into_result(),
        Err(String::from("port already taken"))
    );
}

#[test]
fn client_reports_unknown_error_without_message() {
    let r = ServerConfigResponse { success: false, error_message: None };
    assert_eq!(r.into_result(), Err(String::from("unknown error")));
}

#[test]
fn both_sides_agree_on_the_handshake() {
    for port_free in [true, false] {
        let server = ServerConfigResponse::for_request(port_free).resolve_request(request(Protocol::Tcp));
        let client = ServerConfigResponse::for_request(port_free).into_result();
        assert_eq!(server.is_ok(), port_free);
        assert_eq!(client.is_ok(), port_free);
    }
}

#[test]
fn tcp_request_gets_a_listener_at_the_exposed_address() {
    let plan = request(Protocol::Tcp).plan();
    assert_eq!(
        plan,
        TunnelPlan::ListenTcp(SocketV4 { ip: Ipv4Address { bits: 0x7f000001 }, port: 8080 })
    );
}

#[test]
fn udp_request_is_not_served() {
    assert_eq!(request(Protocol::Udp).plan(), TunnelPlan::Unsupported);
}

#[test]
fn config_sockets() {
    let server = Server { bind_addr: Ipv4Address { bits: 0 }, bind_port: 4433 };
    assert_eq!(server.bind_socket(), SocketV4 { ip: Ipv4Address { bits: 0 }, port: 4433 });
    let client = Client {
        server_addr: Ipv4Address { bits: 1 },
        server_port: 4433,
        endpoint_addr: Ipv4Address { bits: 2 },
        endpoint_port: 80,
        expose_addr: Ipv4Address { bits: 3 },
        expose_port: 8080,
        protocol: Protocol::Udp,
    };
    assert_eq!(client.server_socket(), SocketV4 { ip: Ipv4Address { bits: 1 }, port: 4433 });
    assert_eq!(client.endpoint_socket(), SocketV4 { ip: Ipv4Address { bits: 2 }, port: 80 });
    assert_eq!(
        client.config_request(),
        ClientConfigRequest { expose_addr: Ipv4Address { bits: 3 }, expose_port: 8080, protocol: Protocol::Udp }
    );
    assert_eq!(
        client.config_request().expose_socket(),
        SocketV4 { ip: Ipv4Address { bits: 3 }, port: 8080 }
    );
}
