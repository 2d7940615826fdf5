//! Configuration of the proxy: what the client and the server read from
//! their config files, the request the client sends to the server, and the
//! server's answer.

use vstd::prelude::*;

verus! {

/// Largest configuration request, in bytes, that the server reads from a
/// client. The value 65536 is this crate's own choice: a request is a few
/// dozen bytes of JSON, and the limit only keeps a client from making the
/// server buffer an unbounded stream.
pub const MAX_CONFIG_SIZE: usize = 65536;

/// Transport of the service that a tunnel exposes.
#[derive(Clone, Copy, Debug, PartialEq, Eq, Structural)]
pub enum Protocol {
    Tcp,
    Udp,
}

/// An IPv4 address as a number, most significant octet first (what
/// `u32::from(Ipv4Addr)` gives).
#[derive(Clone, Copy, Debug, PartialEq, Eq, Structural)]
pub struct Ipv4Address {
    pub bits: u32,
}

/// An IPv4 socket address.
#[derive(Clone, Copy, Debug, PartialEq, Eq, Structural)]
pub struct SocketV4 {
    pub ip: Ipv4Address,
    pub port: u16,
}

/// The request of the client made to the server with details about the
/// config: where the server shall expose the service, and over which
/// transport.
#[derive(Clone, Copy, Debug, PartialEq, Eq, Structural)]
pub struct ClientConfigRequest {
    pub expose_addr: Ipv4Address,
    pub expose_port: u16,
    pub protocol: Protocol,
}

/// The server's answer to a [`ClientConfigRequest`].
#[derive(Debug)]
pub struct ServerConfigResponse {
    pub success: bool,
    pub error_message: Option<String>,
}

/// The server's config file.
pub struct ServerConfig {
    pub server: Server,
}

/// Where the server listens for tunnel clients.
pub struct Server {
    pub bind_addr: Ipv4Address,
    pub bind_port: u16,
}

/// The client's config file.
pub struct ClientConfig {
    pub client: Client,
}

/// Where the client finds the server and the service, and where the
/// service shall be exposed.
pub struct Client {
    pub server_addr: Ipv4Address,
    pub server_port: u16,
    pub endpoint_addr: Ipv4Address,
    pub endpoint_port: u16,
    pub expose_addr: Ipv4Address,
    pub expose_port: u16,
    pub protocol: Protocol,
}

/// Command line of both programs: the path of the config file in toml
/// format.
pub struct Args {
    pub config: String,
}

/// What the server does with an accepted tunnel request.
#[derive(Clone, Copy, Debug, PartialEq, Eq, Structural)]
pub enum TunnelPlan {
    /// Listen for TCP connections at this address and relay each of them.
    ListenTcp(SocketV4),
    /// The request's transport is not served; the connection is dropped.
    Unsupported,
}

/// Text of the rejection of a request whose port is taken.
pub open spec fn port_taken_text() -> Seq<char> {
    "port already taken"@
}

/// Text the client reports when the server refused without a reason.
pub open spec fn unknown_error_text() -> Seq<char> {
    "unknown error"@
}

/// Prefix of the server's own error for a rejected request.
pub open spec fn rejected_prefix() -> Seq<char> {
    "client config rejected: "@
}

/// The response's error text, empty when there is none.
pub open spec fn error_text(r: &ServerConfigResponse) -> Seq<char> {
    match r.error_message {
        Some(m) => m@,
        None => Seq::<char>::empty(),
    }
}

/// What the client makes of the server's response: `Ok` when it succeeded,
/// else the server's message, or "unknown error" when it sent none.
pub open spec fn client_verdict(r: &ServerConfigResponse) -> Result<(), Seq<char>> {
    if r.success {
        Ok(())
    } else {
        match r.error_message {
            Some(m) => Err(m@),
            None => Err(unknown_error_text()),
        }
    }
}

/// `r` is the server's answer when the requested port is free or not: a
/// success when it is free, else a refusal with "port already taken".
pub open spec fn answers(r: &ServerConfigResponse, port_free: bool) -> bool {
    &&& r.success == port_free
    &&& port_free ==> r.error_message is None
    &&& !port_free ==> (r.error_message matches Some(m) && m@ == port_taken_text())
}

/// What the server does with `request` after sending `r`: it serves the
/// request when `r` succeeded, else it fails with "client config rejected: "
/// and the response's message.
pub open spec fn server_outcome(r: &ServerConfigResponse, request: ClientConfigRequest) -> Result<
    ClientConfigRequest,
    Seq<char>,
> {
    if r.success {
        Ok(request)
    } else {
        Err(rejected_prefix() + error_text(r))
    }
}

impl ServerConfigResponse {
    /// A response that accepts the request.
    pub fn success() -> (r: Self)
        ensures
            r.success,
            r.error_message is None,
    {
        Self { success: true, error_message: None }
    }

    /// A response that refuses the request with `msg`.
    pub fn error(msg: String) -> (r: Self)
        ensures
            !r.success,
            r.error_message == Some(msg),
    {
        Self { success: false, error_message: Some(msg) }
    }

    /// The server's answer to a request, given whether the requested port is
    /// free on the server: refused with "port already taken" when it is not.
    pub fn for_request(port_free: bool) -> (r: Self)
        ensures
            answers(&r, port_free),
            r.success == port_free,
            port_free ==> r.error_message is None,
            !port_free ==> (r.error_message matches Some(m) && m@ == "port already taken"@),
    {
        if !port_free {
            proof {
                reveal_strlit("port already taken");
            }
            ServerConfigResponse::error(String::from_str("port already taken"))
        } else {
            ServerConfigResponse::success()
        }
    }

    /// What the server does with `request` after sending this response: it
    /// serves the request when the response succeeded, else it reports
    /// "client config rejected: " and the response's message.
    pub fn resolve_request(&self, request: ClientConfigRequest) -> (r: Result<ClientConfigRequest, String>)
        ensures
            r matches Ok(q) ==> server_outcome(self, request) == Ok::<ClientConfigRequest, Seq<char>>(q),
            r matches Err(e) ==> server_outcome(self, request) == Err::<ClientConfigRequest, Seq<char>>(e@),
            self.success ==> r == Ok::<ClientConfigRequest, String>(request),
            !self.success && self.error_message is Some ==> (r matches Err(e) && e@
                == "client config rejected: "@ + self.error_message->Some_0@),
            !self.success && self.error_message is None ==> (r matches Err(e) && e@
                == "client config rejected: "@),
    {
        if self.success {
            Ok(request)
        } else {
            proof {
                reveal_strlit("client config rejected: ");
            }
            let prefix = String::from_str("client config rejected: ");
            let msg = match &self.error_message {
                Some(m) => prefix.concat(m.as_str()),
                None => {
                    let empty = String::new();
                    let e = prefix.concat(empty.as_str());
                    assert(e@ =~= rejected_prefix());
                    e
                },
            };
            Err(msg)
        }
    }

    /// What the client makes of the server's response: `Ok` when it
    /// succeeded, else the server's message, or "unknown error".
    pub fn into_result(self) -> (r: Result<(), String>)
        ensures
            r matches Ok(_) <==> client_verdict(&self) is Ok,
            r matches Err(e) ==> client_verdict(&self) == Err::<(), Seq<char>>(e@),
            self.success ==> r is Ok,
            !self.success && self.error_message is Some ==> (r matches Err(e) && e@
                == self.error_message->Some_0@),
            !self.success && self.error_message is None ==> (r matches Err(e) && e@
                == "unknown error"@),
    {
        if self.success {
            Ok(())
        } else {
            match self.error_message {
                Some(m) => Err(m),
                None => {
                    proof {
                        reveal_strlit("unknown error");
                    }
                    Err(String::from_str("unknown error"))
                },
            }
        }
    }
}

impl ClientConfigRequest {
    /// The socket address at which the server exposes the service.
    pub fn expose_socket(&self) -> (s: SocketV4)
        ensures
            s.ip == self.expose_addr,
            s.port == self.expose_port,
    {
        SocketV4 { ip: self.expose_addr, port: self.expose_port }
    }

    /// What the server does with this accepted request: TCP requests get a
    /// listener at the exposed address; other transports are not served.
    pub fn plan(&self) -> (p: TunnelPlan)
        ensures
            self.protocol == Protocol::Tcp ==> p == TunnelPlan::ListenTcp(
                SocketV4 { ip: self.expose_addr, port: self.expose_port },
            ),
            self.protocol != Protocol::Tcp ==> p == TunnelPlan::Unsupported,
    {
        if self.protocol == Protocol::Tcp {
            TunnelPlan::ListenTcp(self.expose_socket())
        } else {
            TunnelPlan::Unsupported
        }
    }
}

impl Server {
    /// The socket address at which the server accepts tunnel clients.
    pub fn bind_socket(&self) -> (s: SocketV4)
        ensures
            s == (SocketV4 { ip: self.bind_addr, port: self.bind_port }),
    {
        SocketV4 { ip: self.bind_addr, port: self.bind_port }
    }
}

impl Client {
    /// The socket address of the proxy server.
    pub fn server_socket(&self) -> (s: SocketV4)
        ensures
            s == (SocketV4 { ip: self.server_addr, port: self.server_port }),
    {
        SocketV4 { ip: self.server_addr, port: self.server_port }
    }

    /// The socket address of the service that the client relays to.
    pub fn endpoint_socket(&self) -> (s: SocketV4)
        ensures
            s == (SocketV4 { ip: self.endpoint_addr, port: self.endpoint_port }),
    {
        SocketV4 { ip: self.endpoint_addr, port: self.endpoint_port }
    }

    /// The request that the client sends to the server.
    pub fn config_request(&self) -> (r: ClientConfigRequest)
        ensures
            r == (ClientConfigRequest {
                expose_addr: self.expose_addr,
                expose_port: self.expose_port,
                protocol: self.protocol,
            }),
    {
        ClientConfigRequest {
            expose_addr: self.expose_addr,
            expose_port: self.expose_port,
            protocol: self.protocol,
        }
    }
}

/// The client reports the server's refusal in the server's own words: a
/// refusal with message `m` gives exactly `m`, one without a message gives
/// "unknown error", and an acceptance gives `Ok`.
pub proof fn lemma_client_verdict_reports_message(r: ServerConfigResponse)
    ensures
        r.success ==> client_verdict(&r) == Ok::<(), Seq<char>>(()),
        !r.success && r.error_message is Some ==> client_verdict(&r) == Err::<(), Seq<char>>(
            r.error_message->Some_0@,
        ),
        !r.success && r.error_message is None ==> client_verdict(&r) == Err::<(), Seq<char>>(
            "unknown error"@,
        ),
{
}

/// The server serves the request unchanged when its response succeeded, and
/// otherwise fails with "client config rejected: " followed by the
/// response's own message (nothing when it has none).
pub proof fn lemma_server_outcome_reports_message(r: ServerConfigResponse, request: ClientConfigRequest)
    ensures
        r.success ==> server_outcome(&r, request) == Ok::<ClientConfigRequest, Seq<char>>(request),
        !r.success && r.error_message is Some ==> server_outcome(&r, request) == Err::<
            ClientConfigRequest,
            Seq<char>,
        >("client config rejected: "@ + r.error_message->Some_0@),
        !r.success && r.error_message is None ==> server_outcome(&r, request) == Err::<
            ClientConfigRequest,
            Seq<char>,
        >("client config rejected: "@),
{
    if !r.success && r.error_message is None {
        assert(rejected_prefix() + Seq::<char>::empty() =~= rejected_prefix());
    }
}

/// The two ends of the handshake agree: the server serves a request exactly
/// when the requested port is free, and exactly then the client accepts the
/// server's answer; when the port is taken the client reports "port already
/// taken" and the server "client config rejected: port already taken".
pub proof fn lemma_handshake_agrees(port_free: bool, r: ServerConfigResponse, request: ClientConfigRequest)
    requires
        answers(&r, port_free),
    ensures
        server_outcome(&r, request) is Ok <==> port_free,
        client_verdict(&r) is Ok <==> port_free,
        port_free ==> server_outcome(&r, request) == Ok::<ClientConfigRequest, Seq<char>>(request),
        !port_free ==> client_verdict(&r) == Err::<(), Seq<char>>("port already taken"@),
        !port_free ==> server_outcome(&r, request) == Err::<ClientConfigRequest, Seq<char>>(
            "client config rejected: "@ + "port already taken"@,
        ),
{
}

} // verus!
