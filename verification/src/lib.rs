//! Core logic of a secure reverse proxy: the configuration handshake between
//! the proxy client and server, the framing of relayed UDP datagrams, the
//! table that gives each UDP peer a tunnel id, the decisions of the relay
//! loops, and the URLs of the healthcheck pings.

pub mod datagram;
pub mod clients;
pub mod config;
pub mod healthcheck;
pub mod relay;

pub use clients::{ClientTable, PeerAddr};
pub use config::{
    Args, Client, ClientConfig, ClientConfigRequest, Ipv4Address, Protocol, Server, ServerConfig,
    ServerConfigResponse, SocketV4, TunnelPlan, MAX_CONFIG_SIZE,
};
pub use datagram::{decode_datagram, encode_datagram};
pub use healthcheck::{healthcheck_client, HealthPing};
pub use relay::{
    client_tcp_step, server_accept_step, server_tcp_step, udp_step, Destination, LoopStep,
    RelaySide, ServerSignal, TcpSignal, UdpRelay, UdpSignal,
};
