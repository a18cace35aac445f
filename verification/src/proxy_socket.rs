//! The rules by which a connection is layered: a tunnel to the target
//! (direct, through a SOCKS5 proxy, or through an HTTP proxy), TLS over the
//! tunnel, message framing over TLS.
//!
//! Nothing here touches the network. A [`Negotiator`] says which operation
//! comes next; whoever drives it performs the operation and reports how it
//! ended.

use crate::descriptor::{credentials_view, Proxy, ProxyKind, ProxyView};
use crate::external::{accepts_server_name, read_url_host, server_name_accepted, url_reading};
use crate::host::{reading_of, IpAddress, ProxyHost, ProxyHostView, UrlReading};
use crate::text::{chars_of, decimal_digits, piece, push_decimal};
use vstd::prelude::*;

verus! {

/// The endpoint that the connection is for.
#[derive(Debug)]
pub struct ConnectionTarget {
    domain: String,
    port: u16,
}

/// A target as a mathematical value.
pub struct TargetView {
    pub domain: Seq<char>,
    pub port: u16,
}

impl View for ConnectionTarget {
    type V = TargetView;

    closed spec fn view(&self) -> TargetView {
        TargetView { domain: self.domain@, port: self.port }
    }
}

/// The port that is taken where none is given.
pub const DEFAULT_PORT: u16 = 443;

/// The host of a URI as a name: an IPv6 literal stands between square
/// brackets there, and stands here without them.
pub open spec fn bare_host(host: Seq<char>) -> Seq<char> {
    if host.len() >= 2 && host.first() == '[' && host.last() == ']' {
        host.subrange(1, host.len() - 1)
    } else {
        host
    }
}

impl ConnectionTarget {
    #[verifier::type_invariant]
    spec fn named_for_tls(self) -> bool {
        server_name_accepted(self.domain@)
    }

    /// A target whose domain can name the peer of a TLS handshake.
    pub fn new(domain: String, port: u16) -> (target: ConnectionTarget)
        requires
            server_name_accepted(domain@),
        ensures
            target@ == (TargetView { domain: domain@, port }),
    {
        ConnectionTarget { domain, port }
    }

    /// A target, if `domain` can name the peer of a TLS handshake.
    pub fn checked(domain: String, port: u16) -> (r: Option<ConnectionTarget>)
        ensures
            r is Some <==> server_name_accepted(domain@),
            r matches Some(target) ==> target@ == (TargetView { domain: domain@, port }),
    {
        if accepts_server_name(domain.as_str()) {
            Some(ConnectionTarget::new(domain, port))
        } else {
            None
        }
    }

    /// The target that the host and the port of a URI name, if the host can
    /// name the peer of a TLS handshake.
    pub fn for_uri(host: &str, port: Option<u16>) -> (r: Option<ConnectionTarget>)
        ensures
            r is Some <==> server_name_accepted(bare_host(host@)),
            r matches Some(target) ==> target@ == (TargetView {
                domain: bare_host(host@),
                port: match port {
                    Some(port) => port,
                    None => DEFAULT_PORT,
                },
            }),
    {
        let chars = chars_of(host);
        let n: usize = chars.len();
        let domain = if n >= 2 && chars[0] == '[' && chars[n - 1] == ']' {
            piece(host, 1, n - 1)
        } else {
            host.to_owned()
        };
        let port = match port {
            Some(port) => port,
            None => DEFAULT_PORT,
        };
        ConnectionTarget::checked(domain, port)
    }

    /// The domain name or literal address of the target.
    pub fn domain(&self) -> (domain: &str)
        ensures
            domain@ == self@.domain,
            server_name_accepted(domain@),
    {
        proof {
            use_type_invariant(self);
        }
        self.domain.as_str()
    }

    /// The port of the target.
    pub fn port(&self) -> (port: u16)
        ensures
            port == self@.port,
    {
        self.port
    }
}

/// The way by which a connection reaches its target.
#[derive(Debug, Clone, Copy, PartialEq, Eq, Structural)]
pub enum TransportPath {
    Direct,
    Socks5,
    Http,
}

/// Why a connection could not be set up, regardless of the underlying cause.
#[derive(Debug, Clone, Copy, PartialEq, Eq, Structural)]
pub enum FailureKind {
    Socks5Error,
    RustlsError,
    Tungstenite,
    AsyncHttp,
    Tokio,
    UrlParse,
    HostIsNotPresent,
    UnsupportedProxyKind,
}

/// Why a connection could not be set up.
#[derive(Debug, PartialEq, Eq)]
pub enum SocketConnectError {
    /// The SOCKS5 handshake failed.
    Socks5Error,
    /// The TLS handshake failed.
    RustlsError,
    /// The framing handshake failed.
    Tungstenite,
    /// The HTTP proxy refused the tunnel.
    AsyncHttp,
    /// A TCP connection could not be opened.
    Tokio,
    /// The address of the proxy is no URL.
    UrlParse { source: url::ParseError },
    /// The address of the proxy names no host, or none that resolves.
    HostIsNotPresent,
    /// No tunnel can be made through a proxy of this kind.
    UnsupportedProxyKind,
}

impl View for SocketConnectError {
    type V = FailureKind;

    open spec fn view(&self) -> FailureKind {
        match self {
            SocketConnectError::Socks5Error => FailureKind::Socks5Error,
            SocketConnectError::RustlsError => FailureKind::RustlsError,
            SocketConnectError::Tungstenite => FailureKind::Tungstenite,
            SocketConnectError::AsyncHttp => FailureKind::AsyncHttp,
            SocketConnectError::Tokio => FailureKind::Tokio,
            SocketConnectError::UrlParse { .. } => FailureKind::UrlParse,
            SocketConnectError::HostIsNotPresent => FailureKind::HostIsNotPresent,
            SocketConnectError::UnsupportedProxyKind => FailureKind::UnsupportedProxyKind,
        }
    }
}

impl FailureKind {
    /// The sentence that names the failure.
    pub open spec fn text(self) -> Seq<char> {
        match self {
            FailureKind::Socks5Error => "fast_socks5 stream error"@,
            FailureKind::RustlsError => "tokio-rustls connection error"@,
            FailureKind::Tungstenite => "async-tungstenite failed connecting"@,
            FailureKind::AsyncHttp => "http proxy failed connecting"@,
            FailureKind::Tokio => "tokio failed connecting tunnel"@,
            FailureKind::UrlParse => "proxy address parse failed"@,
            FailureKind::HostIsNotPresent => "proxy host is not present"@,
            FailureKind::UnsupportedProxyKind => "proxy kind is not supported"@,
        }
    }

    /// A sentence that names the failure.
    pub fn message(&self) -> (s: &'static str)
        ensures
            s@ == self.text(),
    {
        match self {
            FailureKind::Socks5Error => "fast_socks5 stream error",
            FailureKind::RustlsError => "tokio-rustls connection error",
            FailureKind::Tungstenite => "async-tungstenite failed connecting",
            FailureKind::AsyncHttp => "http proxy failed connecting",
            FailureKind::Tokio => "tokio failed connecting tunnel",
            FailureKind::UrlParse => "proxy address parse failed",
            FailureKind::HostIsNotPresent => "proxy host is not present",
            FailureKind::UnsupportedProxyKind => "proxy kind is not supported",
        }
    }
}

impl SocketConnectError {
    /// The kind of the failure.
    pub fn kind(&self) -> (kind: FailureKind)
        ensures
            kind == self@,
    {
        match self {
            SocketConnectError::Socks5Error => FailureKind::Socks5Error,
            SocketConnectError::RustlsError => FailureKind::RustlsError,
            SocketConnectError::Tungstenite => FailureKind::Tungstenite,
            SocketConnectError::AsyncHttp => FailureKind::AsyncHttp,
            SocketConnectError::Tokio => FailureKind::Tokio,
            SocketConnectError::UrlParse { .. } => FailureKind::UrlParse,
            SocketConnectError::HostIsNotPresent => FailureKind::HostIsNotPresent,
            SocketConnectError::UnsupportedProxyKind => FailureKind::UnsupportedProxyKind,
        }
    }

    /// A sentence that names the failure.
    pub fn to_string(&self) -> (s: String)
        ensures
            s@ == self@.text(),
    {
        self.kind().message().to_owned()
    }
}

/// Where a negotiation stands: the operation that is under way, or how the
/// negotiation ended.
#[derive(Debug, Clone, Copy, PartialEq, Eq, Structural)]
pub enum Stage {
    /// A TCP connection to the target is being opened.
    ConnectingTarget,
    /// The SOCKS5 proxy is being asked for a tunnel to the target.
    Socks5Handshake,
    /// The name of the HTTP proxy is being resolved.
    ResolvingProxy,
    /// A TCP connection to the HTTP proxy is being opened.
    ConnectingProxy,
    /// The HTTP proxy is being asked for a tunnel to the target.
    HttpConnect,
    /// TLS is being negotiated over the tunnel.
    TlsHandshake,
    /// Message framing is being negotiated over TLS.
    FramingHandshake,
    /// Every layer is in place.
    Established,
    /// A layer could not be put in place.
    Failed,
}

/// How the operation that was asked for ended.
#[derive(Debug, Clone, Copy, PartialEq, Eq)]
pub enum Event {
    /// The operation succeeded.
    Completed,
    /// The name was looked up; this is the first address found, if any.
    Resolved(Option<IpAddress>),
    /// The operation failed.
    Failed,
}

/// The operation to perform next, or the outcome of the negotiation.
#[derive(Debug, PartialEq, Eq)]
pub enum Action {
    /// Resolve `host` and open a TCP connection to it.
    ConnectTarget { host: String, port: u16 },
    /// Connect to the SOCKS5 proxy at `proxy_address` and have it connect
    /// onward to the target, authenticating with `credentials` if there are
    /// any and not at all otherwise.
    Socks5Connect {
        proxy_address: String,
        target_domain: String,
        target_port: u16,
        credentials: Option<(String, String)>,
    },
    /// Look up the addresses of `host`.
    ResolveProxy { host: String, port: u16 },
    /// Open a TCP connection to the proxy at `address`.
    ConnectProxy { address: IpAddress, port: u16 },
    /// Send an HTTP CONNECT request for the target over the connection to
    /// the proxy, with Basic authentication if there are `credentials`.
    HttpConnect { target_domain: String, target_port: u16, credentials: Option<(String, String)> },
    /// Perform the TLS handshake over the tunnel, with `server_name` as the
    /// name to verify the certificate against.
    TlsHandshake { server_name: String },
    /// Perform the framing handshake over the TLS stream.
    FramingHandshake,
    /// The connection stands; `path` says how it reaches the target.
    Established { path: TransportPath },
    /// The connection cannot be had.
    Failed { error: SocketConnectError },
}

/// An action as a mathematical value.
pub enum ActionView {
    ConnectTarget { host: Seq<char>, port: u16 },
    Socks5Connect {
        proxy_address: Seq<char>,
        target_domain: Seq<char>,
        target_port: u16,
        credentials: Option<(Seq<char>, Seq<char>)>,
    },
    ResolveProxy { host: Seq<char>, port: u16 },
    ConnectProxy { address: IpAddress, port: u16 },
    HttpConnect {
        target_domain: Seq<char>,
        target_port: u16,
        credentials: Option<(Seq<char>, Seq<char>)>,
    },
    TlsHandshake { server_name: Seq<char> },
    FramingHandshake,
    Established { path: TransportPath },
    Failed { kind: FailureKind },
}

impl View for Action {
    type V = ActionView;

    open spec fn view(&self) -> ActionView {
        match self {
            Action::ConnectTarget { host, port } => ActionView::ConnectTarget {
                host: host@,
                port: *port,
            },
            Action::Socks5Connect { proxy_address, target_domain, target_port, credentials } => {
                ActionView::Socks5Connect {
                    proxy_address: proxy_address@,
                    target_domain: target_domain@,
                    target_port: *target_port,
                    credentials: credentials_view(*credentials),
                }
            },
            Action::ResolveProxy { host, port } => ActionView::ResolveProxy {
                host: host@,
                port: *port,
            },
            Action::ConnectProxy { address, port } => ActionView::ConnectProxy {
                address: *address,
                port: *port,
            },
            Action::HttpConnect { target_domain, target_port, credentials } => {
                ActionView::HttpConnect {
                    target_domain: target_domain@,
                    target_port: *target_port,
                    credentials: credentials_view(*credentials),
                }
            },
            Action::TlsHandshake { server_name } => ActionView::TlsHandshake {
                server_name: server_name@,
            },
            Action::FramingHandshake => ActionView::FramingHandshake,
            Action::Established { path } => ActionView::Established { path: *path },
            Action::Failed { error } => ActionView::Failed { kind: error@ },
        }
    }
}

/// A proxy, if any, as a mathematical value.
pub open spec fn proxy_view(proxy: Option<Proxy>) -> Option<ProxyView> {
    match proxy {
        Some(p) => Some(p@),
        None => None,
    }
}

/// The address of a SOCKS5 proxy as the handshake takes it: `address:port`.
pub open spec fn socks5_address(proxy: ProxyView) -> Seq<char> {
    proxy.addr + seq![':'] + decimal_digits(proxy.port as nat)
}

/// The way by which a connection with this proxy reaches its target.
pub open spec fn path_of(proxy: Option<ProxyView>) -> TransportPath {
    match proxy {
        None => TransportPath::Direct,
        Some(p) => if p.kind == ProxyKind::Socks5 {
            TransportPath::Socks5
        } else {
            TransportPath::Http
        },
    }
}

/// How a tunnel through an HTTP proxy begins, given what the proxy's address
/// reads as: a name is resolved first, a literal address is connected to at
/// once, and an address that is no URL or names no host ends the negotiation.
pub open spec fn http_opening(reading: UrlReading, port: u16) -> (Stage, ActionView) {
    match reading {
        UrlReading::Malformed => (Stage::Failed, ActionView::Failed { kind: FailureKind::UrlParse }),
        UrlReading::NoHost => (
            Stage::Failed,
            ActionView::Failed { kind: FailureKind::HostIsNotPresent },
        ),
        UrlReading::Host(ProxyHostView::Domain(name)) => (
            Stage::ResolvingProxy,
            ActionView::ResolveProxy { host: name, port },
        ),
        UrlReading::Host(ProxyHostView::Ip(address)) => (
            Stage::ConnectingProxy,
            ActionView::ConnectProxy { address, port },
        ),
    }
}

/// How a direct connection begins: with a TCP connection to the target.
pub open spec fn direct_opening(target: TargetView) -> (Stage, ActionView) {
    (Stage::ConnectingTarget, ActionView::ConnectTarget { host: target.domain, port: target.port })
}

/// How a tunnel through a SOCKS5 proxy begins: with the handshake, for the
/// target and with the credentials of the descriptor.
pub open spec fn socks5_opening(proxy: ProxyView, target: TargetView) -> (Stage, ActionView) {
    (
        Stage::Socks5Handshake,
        ActionView::Socks5Connect {
            proxy_address: socks5_address(proxy),
            target_domain: target.domain,
            target_port: target.port,
            credentials: proxy.creds,
        },
    )
}

/// How a negotiation begins: the first operation, and the stage it belongs
/// to.
///
/// Without proxy the target is connected to directly. With a SOCKS5 or an
/// HTTP proxy the tunnel through it is begun. A proxy of any other kind ends
/// the negotiation at once.
pub open spec fn opening(target: TargetView, proxy: Option<ProxyView>) -> (Stage, ActionView) {
    match proxy {
        None => direct_opening(target),
        Some(p) => match p.kind {
            ProxyKind::Socks5 => socks5_opening(p, target),
            ProxyKind::Http => http_opening(url_reading(p.addr), p.port),
            _ => (Stage::Failed, ActionView::Failed { kind: FailureKind::UnsupportedProxyKind }),
        },
    }
}

/// A negotiation as a mathematical value.
pub struct NegotiatorView {
    pub target: TargetView,
    pub proxy: Option<ProxyView>,
    pub stage: Stage,
}

impl Stage {
    /// The negotiation has ended, for better or worse.
    pub open spec fn is_final(self) -> bool {
        self == Stage::Established || self == Stage::Failed
    }

    /// The failure that is reported when the operation of this stage fails.
    pub open spec fn failure(self) -> FailureKind {
        match self {
            Stage::Socks5Handshake => FailureKind::Socks5Error,
            Stage::ResolvingProxy => FailureKind::HostIsNotPresent,
            Stage::HttpConnect => FailureKind::AsyncHttp,
            Stage::TlsHandshake => FailureKind::RustlsError,
            Stage::FramingHandshake => FailureKind::Tungstenite,
            _ => FailureKind::Tokio,
        }
    }

    /// The layer that the stage works on: the tunnel is 0, TLS is 1,
    /// framing is 2, and 3 is the finished connection.
    pub open spec fn layer(self) -> nat {
        match self {
            Stage::TlsHandshake => 1,
            Stage::FramingHandshake => 2,
            Stage::Established => 3,
            _ => 0,
        }
    }

    /// How far the stage is from the beginning; every successful operation
    /// leads to a stage that is farther.
    pub open spec fn progress(self) -> nat {
        match self {
            Stage::ConnectingTarget => 2,
            Stage::Socks5Handshake => 2,
            Stage::ResolvingProxy => 0,
            Stage::ConnectingProxy => 1,
            Stage::HttpConnect => 2,
            Stage::TlsHandshake => 3,
            Stage::FramingHandshake => 4,
            Stage::Established => 5,
            Stage::Failed => 5,
        }
    }
}

impl Event {
    /// The event tells of a success.
    pub open spec fn is_success(self) -> bool {
        match self {
            Event::Completed => true,
            Event::Resolved(found) => found is Some,
            Event::Failed => false,
        }
    }
}

/// The events that can follow the operation of a stage: a lookup ends in
/// `Resolved` or `Failed`, any other operation in `Completed` or `Failed`,
/// and nothing follows the end of the negotiation.
pub open spec fn expects(stage: Stage, event: Event) -> bool {
    &&& !stage.is_final()
    &&& event is Resolved ==> stage == Stage::ResolvingProxy
    &&& event is Completed ==> stage != Stage::ResolvingProxy
}

impl NegotiatorView {
    /// The stage fits the proxy: each tunnel stage occurs only with the
    /// kind of proxy it belongs to, and the layers above the tunnel only
    /// where a tunnel can be made.
    pub open spec fn consistent(self) -> bool {
        match self.stage {
            Stage::ConnectingTarget => self.proxy is None,
            Stage::Socks5Handshake => self.proxy matches Some(p) && p.kind == ProxyKind::Socks5,
            Stage::ResolvingProxy | Stage::ConnectingProxy | Stage::HttpConnect => {
                self.proxy matches Some(p) && p.kind == ProxyKind::Http
            },
            Stage::TlsHandshake | Stage::FramingHandshake | Stage::Established => {
                self.proxy matches Some(p) ==> p.kind == ProxyKind::Socks5 || p.kind
                    == ProxyKind::Http
            },
            Stage::Failed => true,
        }
    }

    /// What follows the success of the operation under way.
    pub open spec fn advance(self, event: Event) -> (Stage, ActionView) {
        match self.stage {
            Stage::ResolvingProxy => (
                Stage::ConnectingProxy,
                ActionView::ConnectProxy {
                    address: event->Resolved_0->0,
                    port: self.proxy->0.port,
                },
            ),
            Stage::ConnectingProxy => (
                Stage::HttpConnect,
                ActionView::HttpConnect {
                    target_domain: self.target.domain,
                    target_port: self.target.port,
                    credentials: self.proxy->0.creds,
                },
            ),
            Stage::ConnectingTarget | Stage::Socks5Handshake | Stage::HttpConnect => (
                Stage::TlsHandshake,
                ActionView::TlsHandshake { server_name: self.target.domain },
            ),
            Stage::TlsHandshake => (Stage::FramingHandshake, ActionView::FramingHandshake),
            _ => (Stage::Established, ActionView::Established { path: path_of(self.proxy) }),
        }
    }

    /// What follows an event: after a success the next layer, after a
    /// failure the end, with the failure of the stage.
    pub open spec fn response(self, event: Event) -> (Stage, ActionView) {
        if event.is_success() {
            self.advance(event)
        } else {
            (Stage::Failed, ActionView::Failed { kind: self.stage.failure() })
        }
    }
}

/// A negotiation under way.
#[derive(Debug)]
pub struct Negotiator {
    target: ConnectionTarget,
    proxy: Option<Proxy>,
    stage: Stage,
}

impl View for Negotiator {
    type V = NegotiatorView;

    closed spec fn view(&self) -> NegotiatorView {
        NegotiatorView { target: self.target@, proxy: proxy_view(self.proxy), stage: self.stage }
    }
}

/// A copy of the credentials.
fn copy_credentials(creds: &Option<(String, String)>) -> (r: Option<(String, String)>)
    ensures
        credentials_view(r) == credentials_view(*creds),
{
    match creds {
        Some((user, pass)) => Some((user.clone(), pass.clone())),
        None => None,
    }
}

/// The error that is reported when the operation of `stage` fails.
fn failure_at(stage: Stage) -> (error: SocketConnectError)
    ensures
        error@ == stage.failure(),
{
    match stage {
        Stage::Socks5Handshake => SocketConnectError::Socks5Error,
        Stage::ResolvingProxy => SocketConnectError::HostIsNotPresent,
        Stage::HttpConnect => SocketConnectError::AsyncHttp,
        Stage::TlsHandshake => SocketConnectError::RustlsError,
        Stage::FramingHandshake => SocketConnectError::Tungstenite,
        _ => SocketConnectError::Tokio,
    }
}

/// How a direct connection begins.
pub fn begin_direct(target: &ConnectionTarget) -> (r: (Stage, Action))
    ensures
        (r.0, r.1@) == direct_opening(target@),
{
    (
        Stage::ConnectingTarget,
        Action::ConnectTarget { host: target.domain().to_owned(), port: target.port() },
    )
}

/// How a tunnel through the SOCKS5 proxy `proxy` begins.
pub fn begin_socks5(proxy: &Proxy, target: &ConnectionTarget) -> (r: (Stage, Action))
    ensures
        (r.0, r.1@) == socks5_opening(proxy@, target@),
{
    let mut proxy_address = proxy.addr.clone();
    proxy_address.append(":");
    push_decimal(&mut proxy_address, proxy.port);
    proof {
        reveal_strlit(":");
        assert(proxy_address@ =~= socks5_address(proxy@));
    }
    (
        Stage::Socks5Handshake,
        Action::Socks5Connect {
            proxy_address,
            target_domain: target.domain().to_owned(),
            target_port: target.port(),
            credentials: copy_credentials(&proxy.creds),
        },
    )
}

/// How a tunnel through an HTTP proxy begins, given what was read from the
/// proxy's address.
pub fn begin_http(reading: Result<Option<ProxyHost>, url::ParseError>, port: u16) -> (r: (
    Stage,
    Action,
))
    ensures
        (r.0, r.1@) == http_opening(reading_of(reading), port),
{
    match reading {
        Err(source) => (
            Stage::Failed,
            Action::Failed { error: SocketConnectError::UrlParse { source } },
        ),
        Ok(None) => (
            Stage::Failed,
            Action::Failed { error: SocketConnectError::HostIsNotPresent },
        ),
        Ok(Some(ProxyHost::Domain(host))) => (
            Stage::ResolvingProxy,
            Action::ResolveProxy { host, port },
        ),
        Ok(Some(ProxyHost::Ip(address))) => (
            Stage::ConnectingProxy,
            Action::ConnectProxy { address, port },
        ),
    }
}

impl Negotiator {
    #[verifier::type_invariant]
    spec fn stage_fits_proxy(self) -> bool {
        self@.consistent()
    }

    /// Begins a negotiation and says what to do first.
    pub fn start(target: ConnectionTarget, proxy: Option<Proxy>) -> (r: (Negotiator, Action))
        ensures
            r.0@.target == target@,
            r.0@.proxy == proxy_view(proxy),
            (r.0@.stage, r.1@) == opening(target@, proxy_view(proxy)),
            r.0@.consistent(),
    {
        let (stage, action) = match &proxy {
            None => begin_direct(&target),
            Some(p) => match p.kind {
                ProxyKind::Socks5 => begin_socks5(p, &target),
                ProxyKind::Http => begin_http(read_url_host(p.addr.as_str()), p.port),
                _ => (
                    Stage::Failed,
                    Action::Failed { error: SocketConnectError::UnsupportedProxyKind },
                ),
            },
        };
        (Negotiator { target, proxy, stage }, action)
    }

    /// Takes note of how the operation under way ended and says what to do
    /// next.
    pub fn step(&mut self, event: Event) -> (action: Action)
        requires
            expects(old(self)@.stage, event),
        ensures
            final(self)@.target == old(self)@.target,
            final(self)@.proxy == old(self)@.proxy,
            (final(self)@.stage, action@) == old(self)@.response(event),
            final(self)@.consistent(),
            action@ matches ActionView::TlsHandshake { server_name } ==> server_name_accepted(
                server_name,
            ),
    {
        proof {
            use_type_invariant(&*self);
        }
        let address = match event {
            Event::Completed => None,
            Event::Resolved(found) => found,
            Event::Failed => None,
        };
        let succeeded = match event {
            Event::Completed => true,
            Event::Resolved(found) => found.is_some(),
            Event::Failed => false,
        };
        if !succeeded {
            let error = failure_at(self.stage);
            self.stage = Stage::Failed;
            return Action::Failed { error };
        }
        match self.stage {
            Stage::ResolvingProxy => {
                let port = match &self.proxy {
                    Some(p) => p.port,
                    None => vstd::pervasive::unreached(),
                };
                let address = match address {
                    Some(address) => address,
                    None => vstd::pervasive::unreached(),
                };
                self.stage = Stage::ConnectingProxy;
                Action::ConnectProxy { address, port }
            },
            Stage::ConnectingProxy => {
                let credentials = match &self.proxy {
                    Some(p) => copy_credentials(&p.creds),
                    None => vstd::pervasive::unreached(),
                };
                self.stage = Stage::HttpConnect;
                Action::HttpConnect {
                    target_domain: self.target.domain().to_owned(),
                    target_port: self.target.port(),
                    credentials,
                }
            },
            Stage::ConnectingTarget | Stage::Socks5Handshake | Stage::HttpConnect => {
                self.stage = Stage::TlsHandshake;
                Action::TlsHandshake { server_name: self.target.domain().to_owned() }
            },
            Stage::TlsHandshake => {
                self.stage = Stage::FramingHandshake;
                Action::FramingHandshake
            },
            _ => {
                let path = self.path();
                self.stage = Stage::Established;
                Action::Established { path }
            },
        }
    }

    /// The way by which the connection reaches, or would reach, its target.
    pub fn path(&self) -> (path: TransportPath)
        ensures
            path == path_of(self@.proxy),
    {
        match &self.proxy {
            None => TransportPath::Direct,
            Some(p) => match p.kind {
                ProxyKind::Socks5 => TransportPath::Socks5,
                _ => TransportPath::Http,
            },
        }
    }

    /// Where the negotiation stands.
    pub fn stage(&self) -> (stage: Stage)
        ensures
            stage == self@.stage,
            self@.consistent(),
    {
        proof {
            use_type_invariant(self);
        }
        self.stage
    }

    /// The target of the connection.
    pub fn target(&self) -> (target: &ConnectionTarget)
        ensures
            target@ == self@.target,
    {
        &self.target
    }

    /// The proxy that the connection goes through, if any.
    pub fn proxy(&self) -> (proxy: &Option<Proxy>)
        ensures
            proxy_view(*proxy) == self@.proxy,
    {
        &self.proxy
    }

    /// Whether `event` can follow the operation under way.
    pub fn expects(&self, event: &Event) -> (r: bool)
        ensures
            r == expects(self@.stage, *event),
    {
        match self.stage {
            Stage::Established => false,
            Stage::Failed => false,
            Stage::ResolvingProxy => match event {
                Event::Completed => false,
                _ => true,
            },
            _ => match event {
                Event::Resolved(_) => false,
                _ => true,
            },
        }
    }
}

impl ActionView {
    /// The stage that an action belongs to.
    pub open spec fn stage(self) -> Stage {
        match self {
            ActionView::ConnectTarget { .. } => Stage::ConnectingTarget,
            ActionView::Socks5Connect { .. } => Stage::Socks5Handshake,
            ActionView::ResolveProxy { .. } => Stage::ResolvingProxy,
            ActionView::ConnectProxy { .. } => Stage::ConnectingProxy,
            ActionView::HttpConnect { .. } => Stage::HttpConnect,
            ActionView::TlsHandshake { .. } => Stage::TlsHandshake,
            ActionView::FramingHandshake => Stage::FramingHandshake,
            ActionView::Established { .. } => Stage::Established,
            ActionView::Failed { .. } => Stage::Failed,
        }
    }
}

/// A negotiation begins in a stage that fits its proxy, and the stage is
/// that of the first action.
pub proof fn lemma_opening_is_consistent(target: TargetView, proxy: Option<ProxyView>)
    ensures
        (NegotiatorView { target, proxy, stage: opening(target, proxy).0 }).consistent(),
        opening(target, proxy).1.stage() == opening(target, proxy).0,
{
}

/// A proxy of a kind through which no tunnel can be made ends the
/// negotiation at once with a reported failure: no operation is asked for.
pub proof fn lemma_unsupported_kind_is_reported(target: TargetView, proxy: ProxyView)
    requires
        proxy.kind == ProxyKind::Socks4 || proxy.kind == ProxyKind::Https,
    ensures
        opening(target, Some(proxy)) == (
            Stage::Failed,
            ActionView::Failed { kind: FailureKind::UnsupportedProxyKind },
        ),
{
}

/// The target is connected to directly if and only if no proxy is given:
/// with a proxy, whatever its kind and address, the direct way is never
/// taken.
pub proof fn lemma_direct_only_without_proxy(target: TargetView, proxy: Option<ProxyView>)
    ensures
        opening(target, proxy).1 is ConnectTarget <==> proxy is None,
        opening(target, proxy).0 == Stage::ConnectingTarget <==> proxy is None,
{
}

/// Every step keeps the stage fitting the proxy and equal to the stage of
/// the action it asks for. A failure ends the negotiation with the failure
/// of the stage it happened in; a success leads farther, by one layer at
/// most. TLS is asked for only when the tunnel has just been completed, and
/// always for the domain of the target; framing only when TLS has just
/// been completed; the connection is established only when framing has
/// just been completed.
pub proof fn lemma_layers_in_order(n: NegotiatorView, event: Event)
    requires
        n.consistent(),
        expects(n.stage, event),
    ensures
        ({
            let (next, action) = n.response(event);
            &&& (NegotiatorView { stage: next, ..n }).consistent()
            &&& action.stage() == next
            &&& !event.is_success() ==> action == (ActionView::Failed { kind: n.stage.failure() })
            &&& event.is_success() ==> next != Stage::Failed && next.progress()
                > n.stage.progress() && n.stage.layer() <= next.layer() <= n.stage.layer() + 1
            &&& action is TlsHandshake ==> event.is_success() && n.stage.layer() == 0 && (n.stage
                == Stage::ConnectingTarget || n.stage == Stage::Socks5Handshake || n.stage
                == Stage::HttpConnect)
            &&& action matches ActionView::TlsHandshake { server_name } ==> server_name
                == n.target.domain
            &&& action is FramingHandshake ==> event.is_success() && n.stage == Stage::TlsHandshake
            &&& action is Established ==> event.is_success() && n.stage == Stage::FramingHandshake
                && action == (ActionView::Established { path: path_of(n.proxy) })
        }),
{
}

/// Nothing follows the end of a negotiation: no event is expected once the
/// connection is established or has failed.
pub proof fn lemma_end_is_final(stage: Stage, event: Event)
    requires
        stage.is_final(),
    ensures
        !expects(stage, event),
{
}

/// Without proxy, and as long as nothing fails, the operations are: a TCP
/// connection to the target, the TLS handshake for the target's domain, the
/// framing handshake, and then the connection stands, as a direct one.
pub proof fn lemma_direct_path(target: TargetView)
    ensures
        ({
            let (s0, a0) = opening(target, None);
            let (s1, a1) = (NegotiatorView { target, proxy: None, stage: s0 }).response(
                Event::Completed,
            );
            let (s2, a2) = (NegotiatorView { target, proxy: None, stage: s1 }).response(
                Event::Completed,
            );
            let (s3, a3) = (NegotiatorView { target, proxy: None, stage: s2 }).response(
                Event::Completed,
            );
            &&& a0 == (ActionView::ConnectTarget { host: target.domain, port: target.port })
            &&& a1 == (ActionView::TlsHandshake { server_name: target.domain })
            &&& a2 == ActionView::FramingHandshake
            &&& a3 == (ActionView::Established { path: TransportPath::Direct })
            &&& s3 == Stage::Established
        }),
{
}

/// Through a SOCKS5 proxy, and as long as nothing fails, the operations
/// are: the SOCKS5 handshake with the proxy at `address:port`, for the
/// target and with the credentials of the descriptor; the TLS handshake for
/// the target's domain, not the proxy's; the framing handshake; and then
/// the connection stands, as one through SOCKS5.
pub proof fn lemma_socks5_path(target: TargetView, proxy: ProxyView)
    requires
        proxy.kind == ProxyKind::Socks5,
    ensures
        ({
            let p = Some(proxy);
            let (s0, a0) = opening(target, p);
            let (s1, a1) = (NegotiatorView { target, proxy: p, stage: s0 }).response(
                Event::Completed,
            );
            let (s2, a2) = (NegotiatorView { target, proxy: p, stage: s1 }).response(
                Event::Completed,
            );
            let (s3, a3) = (NegotiatorView { target, proxy: p, stage: s2 }).response(
                Event::Completed,
            );
            &&& a0 == (ActionView::Socks5Connect {
                proxy_address: proxy.addr + seq![':'] + decimal_digits(proxy.port as nat),
                target_domain: target.domain,
                target_port: target.port,
                credentials: proxy.creds,
            })
            &&& a1 == (ActionView::TlsHandshake { server_name: target.domain })
            &&& a2 == ActionView::FramingHandshake
            &&& a3 == (ActionView::Established { path: TransportPath::Socks5 })
            &&& s3 == Stage::Established
        }),
{
}

/// Through an HTTP proxy whose address names a host, and as long as nothing
/// fails, the operations are: the lookup of the host, unless it is a
/// literal address; a TCP connection to the address found, at the port of
/// the proxy; the CONNECT request for the target, with the credentials of
/// the descriptor; the TLS handshake for the target's domain; the framing
/// handshake; and then the connection stands, as one through HTTP.
pub proof fn lemma_http_path(target: TargetView, proxy: ProxyView, found: IpAddress)
    requires
        proxy.kind == ProxyKind::Http,
        url_reading(proxy.addr) is Host,
    ensures
        ({
            let p = Some(proxy);
            let (s0, a0) = opening(target, p);
            let (s1, a1) = if s0 == Stage::ResolvingProxy {
                (NegotiatorView { target, proxy: p, stage: s0 }).response(
                    Event::Resolved(Some(found)),
                )
            } else {
                (s0, a0)
            };
            let (s2, a2) = (NegotiatorView { target, proxy: p, stage: s1 }).response(
                Event::Completed,
            );
            let (s3, a3) = (NegotiatorView { target, proxy: p, stage: s2 }).response(
                Event::Completed,
            );
            let (s4, a4) = (NegotiatorView { target, proxy: p, stage: s3 }).response(
                Event::Completed,
            );
            let (s5, a5) = (NegotiatorView { target, proxy: p, stage: s4 }).response(
                Event::Completed,
            );
            &&& match url_reading(proxy.addr)->Host_0 {
                ProxyHostView::Domain(name) => a0 == (ActionView::ResolveProxy {
                    host: name,
                    port: proxy.port,
                }) && a1 == (ActionView::ConnectProxy { address: found, port: proxy.port }),
                ProxyHostView::Ip(address) => a1 == (ActionView::ConnectProxy {
                    address,
                    port: proxy.port,
                }),
            }
            &&& a2 == (ActionView::HttpConnect {
                target_domain: target.domain,
                target_port: target.port,
                credentials: proxy.creds,
            })
            &&& a3 == (ActionView::TlsHandshake { server_name: target.domain })
            &&& a4 == ActionView::FramingHandshake
            &&& a5 == (ActionView::Established { path: TransportPath::Http })
            &&& s5 == Stage::Established
        }),
{
}

// ---------------------------------------------------------------------------
// Whole negotiations
// ---------------------------------------------------------------------------

/// The stage of a negotiation after its operations ended in `events`, one
/// after the other.
pub open spec fn stage_after(
    target: TargetView,
    proxy: Option<ProxyView>,
    events: Seq<Event>,
) -> Stage
    decreases events.len(),
{
    if events.len() == 0 {
        opening(target, proxy).0
    } else {
        let before = stage_after(target, proxy, events.drop_last());
        (NegotiatorView { target, proxy, stage: before }).response(events.last()).0
    }
}

/// The action that a negotiation asks for after its operations ended in
/// `events`, one after the other.
pub open spec fn action_after(
    target: TargetView,
    proxy: Option<ProxyView>,
    events: Seq<Event>,
) -> ActionView {
    if events.len() == 0 {
        opening(target, proxy).1
    } else {
        let before = stage_after(target, proxy, events.drop_last());
        (NegotiatorView { target, proxy, stage: before }).response(events.last()).1
    }
}

/// Every one of `events` can follow the operation that was under way when
/// it came.
pub open spec fn admissible(
    target: TargetView,
    proxy: Option<ProxyView>,
    events: Seq<Event>,
) -> bool {
    forall|k: int|
        0 <= k < events.len() ==> expects(
            stage_after(target, proxy, #[trigger] events.take(k)),
            events[k],
        )
}

/// A beginning of admissible events is admissible.
pub proof fn lemma_admissible_prefix(
    target: TargetView,
    proxy: Option<ProxyView>,
    events: Seq<Event>,
    k: int,
)
    requires
        admissible(target, proxy, events),
        0 <= k <= events.len(),
    ensures
        admissible(target, proxy, events.take(k)),
        k < events.len() ==> expects(stage_after(target, proxy, events.take(k)), events[k]),
{
    let prefix = events.take(k);
    assert forall|j: int| 0 <= j < prefix.len() implies expects(
        stage_after(target, proxy, #[trigger] prefix.take(j)),
        prefix[j],
    ) by {
        assert(prefix.take(j) =~= events.take(j));
    }
}

/// Throughout a negotiation the stage fits the proxy and is the stage of
/// the action asked for last, and each event has led farther: there are at
/// most five events, after which the connection stands or has failed.
pub proof fn lemma_run_invariant(target: TargetView, proxy: Option<ProxyView>, events: Seq<Event>)
    requires
        admissible(target, proxy, events),
    ensures
        (NegotiatorView { target, proxy, stage: stage_after(target, proxy, events) }).consistent(),
        action_after(target, proxy, events).stage() == stage_after(target, proxy, events),
        stage_after(target, proxy, events).progress() >= events.len(),
        events.len() <= 5,
    decreases events.len(),
{
    if events.len() > 0 {
        let before = events.drop_last();
        assert(before =~= events.take(events.len() - 1));
        lemma_admissible_prefix(target, proxy, events, events.len() - 1);
        lemma_run_invariant(target, proxy, before);
        let n = NegotiatorView { target, proxy, stage: stage_after(target, proxy, before) };
        lemma_layers_in_order(n, events.last());
    }
}

/// Every event of a negotiation leads to a stage that is farther than all
/// stages before it.
pub proof fn lemma_progress_along_run(
    target: TargetView,
    proxy: Option<ProxyView>,
    events: Seq<Event>,
    j: int,
    k: int,
)
    requires
        admissible(target, proxy, events),
        0 <= j < k <= events.len(),
    ensures
        !stage_after(target, proxy, events.take(j)).is_final(),
        stage_after(target, proxy, events.take(j)).progress() < stage_after(
            target,
            proxy,
            events.take(k),
        ).progress(),
    decreases k - j,
{
    let upto = events.take(k);
    let before = events.take(k - 1);
    lemma_admissible_prefix(target, proxy, events, k - 1);
    lemma_admissible_prefix(target, proxy, events, j);
    lemma_run_invariant(target, proxy, before);
    assert(upto.drop_last() =~= before);
    assert(upto.last() == events[k - 1]);
    let n = NegotiatorView { target, proxy, stage: stage_after(target, proxy, before) };
    lemma_layers_in_order(n, events[k - 1]);
    if j < k - 1 {
        lemma_progress_along_run(target, proxy, events, j, k - 1);
    }
}

/// The layers of a connection are put in place strictly one after the
/// other. At whatever point of a negotiation TLS is asked for, every
/// operation before was one of the tunnel and the last of them succeeded;
/// where framing is asked for, the operation just before was the TLS
/// handshake, and it succeeded; where the connection stands, the operation
/// just before was the framing handshake, and it succeeded. No layer is
/// asked for twice.
pub proof fn lemma_layers_along_run(
    target: TargetView,
    proxy: Option<ProxyView>,
    events: Seq<Event>,
    k: int,
)
    requires
        admissible(target, proxy, events),
        0 <= k <= events.len(),
    ensures
        ({
            let stage = stage_after(target, proxy, events.take(k));
            &&& stage.layer() > 0 ==> k > 0 && events[k - 1].is_success()
            &&& stage == Stage::TlsHandshake ==> forall|j: int|
                0 <= j < k ==> (#[trigger] stage_after(target, proxy, events.take(j))).layer() == 0
                    && !stage_after(target, proxy, events.take(j)).is_final()
            &&& stage == Stage::FramingHandshake ==> stage_after(target, proxy, events.take(k - 1))
                == Stage::TlsHandshake
            &&& stage == Stage::Established ==> stage_after(target, proxy, events.take(k - 1))
                == Stage::FramingHandshake
            &&& stage.layer() > 0 ==> forall|j: int|
                0 <= j < k ==> (#[trigger] stage_after(target, proxy, events.take(j))).layer()
                    < stage.layer()
        }),
{
    let stage = stage_after(target, proxy, events.take(k));
    lemma_admissible_prefix(target, proxy, events, k);
    lemma_run_invariant(target, proxy, events.take(k));
    lemma_opening_is_consistent(target, proxy);
    if k > 0 {
        let upto = events.take(k);
        let before = events.take(k - 1);
        lemma_admissible_prefix(target, proxy, events, k - 1);
        lemma_run_invariant(target, proxy, before);
        assert(upto.drop_last() =~= before);
        assert(upto.last() == events[k - 1]);
        let n = NegotiatorView { target, proxy, stage: stage_after(target, proxy, before) };
        lemma_layers_in_order(n, events[k - 1]);
    } else {
        assert(events.take(0).len() == 0);
    }
    assert forall|j: int| 0 <= j < k implies !(#[trigger] stage_after(
        target,
        proxy,
        events.take(j),
    )).is_final() && stage_after(target, proxy, events.take(j)).progress() < stage.progress() by {
        lemma_progress_along_run(target, proxy, events, j, k);
    }
}

} // verus!
