//! Wire frame definitions: the values carried in every bus frame.

use std::time::Duration;
use vstd::prelude::*;

use crate::text::{decimal, u64_to_decimal};

verus! {

/// Semver-ish protocol version. The broker rejects a `Hello` whose major
/// version differs from its own.
#[derive(Debug, Clone, Copy, PartialEq, Eq, Structural)]
pub struct ProtocolVersion {
    /// Incompatible wire changes bump this.
    pub major: u16,
    /// Backwards-compatible additions bump this.
    pub minor: u16,
}

/// Major protocol version implemented by this crate.
pub const PROTOCOL_MAJOR: u16 = 1;

/// Minor protocol version implemented by this crate.
pub const PROTOCOL_MINOR: u16 = 0;

impl ProtocolVersion {
    /// Version implemented by this crate.
    pub fn current() -> (v: ProtocolVersion)
        ensures
            v.major == PROTOCOL_MAJOR,
            v.minor == PROTOCOL_MINOR,
    {
        ProtocolVersion { major: PROTOCOL_MAJOR, minor: PROTOCOL_MINOR }
    }
}

/// HTTP verb used when the server exposes a method as a typed REST route.
#[derive(Debug, Clone, Copy, PartialEq, Eq, Structural)]
pub enum HttpMethod {
    /// `GET`, which also matches `HEAD`.
    Get,
    /// `POST`, the default for RPC-style methods.
    Post,
    /// `PUT`.
    Put,
    /// `PATCH`.
    Patch,
    /// `DELETE`.
    Delete,
}

impl Default for HttpMethod {
    fn default() -> (m: HttpMethod)
        ensures
            m == HttpMethod::Post,
    {
        HttpMethod::Post
    }
}

/// Declaration of a single method exposed by an app.
#[derive(Debug, Clone)]
pub struct MethodDecl {
    /// Fully qualified within the service, e.g. `"library.scan"`.
    pub name: String,
    /// If `true`, the broker rejects an `Invoke` whose caller has no user id.
    pub requires_auth: bool,
    /// If `true`, the method uses the stream frames.
    pub streaming: bool,
    /// HTTP verb of the server's generated typed route.
    pub http_method: HttpMethod,
    /// URL path tail appended after `/api/apps/<service>/`.
    pub path: Option<String>,
    /// Human-readable one-liner.
    pub description: Option<String>,
}

/// Data-plane endpoint of an app.
#[derive(Debug, Clone)]
pub enum DataPlaneSocket {
    /// Unix domain socket path.
    Unix {
        /// Absolute filesystem path to the socket.
        path: String,
    },
    /// Windows Named Pipe.
    NamedPipe {
        /// Pipe name without the `\\.\pipe\` prefix.
        name: String,
    },
}

/// What `DataPlaneSocket::display_name` shows: the socket path, or the pipe
/// name behind a `pipe://` scheme.
pub open spec fn socket_display(s: DataPlaneSocket) -> Seq<char> {
    match s {
        DataPlaneSocket::Unix { path } => path@,
        DataPlaneSocket::NamedPipe { name } => "pipe://"@ + name@,
    }
}

impl DataPlaneSocket {
    /// Human-readable identifier for logging.
    pub fn display_name(&self) -> (res: String)
        ensures
            res@ == socket_display(*self),
    {
        match self {
            DataPlaneSocket::Unix { path } => path.clone(),
            DataPlaneSocket::NamedPipe { name } => {
                let mut s = String::from_str("pipe://");
                s.append(name.as_str());
                s
            },
        }
    }
}

/// First frame an app sends after connecting.
#[derive(Debug, Clone)]
pub struct HelloRequest {
    /// Protocol version spoken by the app.
    pub protocol: ProtocolVersion,
    /// Service name, unique in the broker.
    pub service: String,
    /// App version string.
    pub version: String,
    /// OS process id of the app.
    pub pid: u32,
    /// One-time token handed out by the broker when it spawned the app.
    pub auth_token: String,
    /// Full method catalog.
    pub methods: Vec<MethodDecl>,
    /// Topics this app intends to publish (informational).
    pub events: Vec<String>,
    /// Data-plane socket for large-body traffic, if any.
    pub data_plane: Option<DataPlaneSocket>,
}

/// Broker's acknowledgement of a successful `Hello`.
#[derive(Debug, Clone)]
pub struct HelloAck {
    /// Unique id assigned to this connection.
    pub client_id: u64,
    /// How often the app should expect `Ping` from the broker.
    pub heartbeat_interval: Duration,
}

/// Identity and tracing context, injected by the server after auth.
#[derive(Debug, Clone)]
pub struct CallerCtx {
    /// `None` means a public, unauthenticated request.
    pub user_id: Option<String>,
    /// Request id propagated for tracing.
    pub request_id: String,
    /// Optional workspace slug for multi-tenant deployments.
    pub workspace: Option<String>,
    /// The app that originated the call, `None` for HTTP-origin requests.
    pub caller_app_id: Option<String>,
}

impl Default for CallerCtx {
    fn default() -> (c: CallerCtx)
        ensures
            c.user_id is None,
            c.request_id@ == Seq::<char>::empty(),
            c.workspace is None,
            c.caller_app_id is None,
    {
        CallerCtx { user_id: None, request_id: String::new(), workspace: None, caller_app_id: None }
    }
}

/// Unary request.
#[derive(Debug, Clone)]
pub struct Invoke {
    /// Correlates with the `Response::req_id`.
    pub req_id: u64,
    /// Method name (`service.method` when an app addresses another app).
    pub method: String,
    /// Opaque payload; its semantics are defined by the app.
    pub payload: Vec<u8>,
    /// Identity and tracing context.
    pub caller: CallerCtx,
}

/// Unary response.
#[derive(Debug, Clone)]
pub struct Response {
    /// Matches the originating `Invoke::req_id`.
    pub req_id: u64,
    /// `Ok(payload)` on success, `Err` on failure.
    pub result: Result<Vec<u8>, BusError>,
}

/// Opens a bidirectional stream.
#[derive(Debug, Clone)]
pub struct StreamOpen {
    /// Correlates all frames in this stream.
    pub req_id: u64,
    /// Fully-qualified method name.
    pub method: String,
    /// Identity and tracing context.
    pub caller: CallerCtx,
    /// Optional initial payload.
    pub initial: Vec<u8>,
}

/// One chunk of a streaming call, in either direction.
#[derive(Debug, Clone)]
pub struct StreamChunk {
    /// Correlates with the opening `StreamOpen::req_id`.
    pub req_id: u64,
    /// Raw chunk bytes.
    pub data: Vec<u8>,
}

/// Terminates a stream.
#[derive(Debug, Clone)]
pub struct StreamClose {
    /// Correlates with the opening `StreamOpen::req_id`.
    pub req_id: u64,
    /// `None` means a graceful close.
    pub error: Option<BusError>,
}

/// Pub-sub event.
#[derive(Debug, Clone)]
pub struct Event {
    /// Hierarchical dot-separated topic, e.g. `"video.library.scanned"`.
    pub topic: String,
    /// Opaque payload.
    pub payload: Vec<u8>,
    /// Publishing service name, filled in by the broker on fan-out.
    pub from: Option<String>,
}

/// The single multiplexed frame type carried on every connection.
#[derive(Debug, Clone)]
pub enum BusFrame {
    /// App to broker: registration.
    Hello(HelloRequest),
    /// Broker to app: registration accepted.
    HelloAck(HelloAck),
    /// Broker to app heartbeat; the app replies with `Pong`.
    Ping,
    /// App to broker heartbeat reply.
    Pong,
    /// Broker asks the app to exit gracefully.
    Shutdown,
    /// Unary request.
    Invoke(Invoke),
    /// Unary response.
    Response(Response),
    /// Opens a stream.
    StreamOpen(StreamOpen),
    /// Stream data.
    StreamChunk(StreamChunk),
    /// Closes a stream.
    StreamClose(StreamClose),
    /// App to broker publish.
    Publish(Event),
    /// App to broker subscription registration.
    Subscribe {
        /// Topic prefix: exact topic or dot-separated parent.
        topic_prefix: String,
    },
    /// App to broker subscription removal.
    Unsubscribe {
        /// Topic prefix previously subscribed.
        topic_prefix: String,
    },
    /// Broker to app fan-out.
    Event(Event),
}

/// Structured bus-level error.
#[derive(Debug, Clone)]
pub enum BusError {
    /// Underlying transport I/O failure.
    Io(String),
    /// Frame could not be encoded or decoded.
    Codec(String),
    /// Incoming frame size exceeded `MAX_FRAME_BYTES`.
    FrameTooLarge {
        /// Observed frame size in bytes.
        size: u64,
        /// Configured maximum.
        max: u32,
    },
    /// Peer closed the connection cleanly.
    ConnectionClosed,
    /// Broker and client major versions differ.
    ProtocolMismatch {
        /// Broker's advertised version.
        broker: ProtocolVersion,
        /// Client's advertised version.
        client: ProtocolVersion,
    },
    /// `Hello.auth_token` did not match what the broker handed out.
    InvalidAuthToken,
    /// Caller addressed a service the broker has no registration for.
    ServiceNotFound(String),
    /// Caller addressed a method the service did not declare.
    MethodNotFound {
        /// Service name.
        service: String,
        /// Method name.
        method: String,
    },
    /// Method requires auth but the caller is unauthenticated.
    Unauthorized {
        /// Service name.
        service: String,
        /// Method name.
        method: String,
    },
    /// Call exceeded its timeout.
    Timeout {
        /// Elapsed milliseconds.
        ms: u64,
    },
    /// Caller-side validation error.
    BadRequest(String),
    /// Anything else on the broker side.
    Internal(String),
    /// App-level error payload.
    App(String),
}

/// How a `ProtocolVersion` is written in diagnostics.
pub open spec fn version_text(v: ProtocolVersion) -> Seq<char> {
    "ProtocolVersion { major: "@ + decimal(v.major as nat) + ", minor: "@ + decimal(v.minor as nat)
        + " }"@
}

/// The human-readable message of each error.
pub open spec fn error_message(e: BusError) -> Seq<char> {
    match e {
        BusError::Io(s) => "I/O error: "@ + s@,
        BusError::Codec(s) => "codec: "@ + s@,
        BusError::FrameTooLarge { size, max } => "frame too large: "@ + decimal(size as nat)
            + " bytes > "@ + decimal(max as nat),
        BusError::ConnectionClosed => "connection closed"@,
        BusError::ProtocolMismatch { broker, client } => "protocol mismatch: broker="@
            + version_text(broker) + ", client="@ + version_text(client),
        BusError::InvalidAuthToken => "invalid spawn token"@,
        BusError::ServiceNotFound(s) => "service `"@ + s@ + "` not registered"@,
        BusError::MethodNotFound { service, method } => "method `"@ + service@ + "."@ + method@
            + "` not found"@,
        BusError::Unauthorized { service, method } => "method `"@ + service@ + "."@ + method@
            + "` requires authentication"@,
        BusError::Timeout { ms } => "call timed out after "@ + decimal(ms as nat) + " ms"@,
        BusError::BadRequest(s) => "bad request: "@ + s@,
        BusError::Internal(s) => "internal error: "@ + s@,
        BusError::App(s) => "app error: "@ + s@,
    }
}

/// `a` followed by `b`.
fn joined(a: &str, b: &str) -> (res: String)
    ensures
        res@ == a@ + b@,
{
    let mut s = String::from_str(a);
    s.append(b);
    s
}

fn version_string(v: ProtocolVersion) -> (res: String)
    ensures
        res@ == version_text(v),
{
    let mut s = String::from_str("ProtocolVersion { major: ");
    s.append(u64_to_decimal(v.major as u64).as_str());
    s.append(", minor: ");
    s.append(u64_to_decimal(v.minor as u64).as_str());
    s.append(" }");
    s
}

impl BusError {
    /// The human-readable message of this error.
    pub fn message(&self) -> (res: String)
        ensures
            res@ == error_message(*self),
    {
        match self {
            BusError::Io(s) => joined("I/O error: ", s.as_str()),
            BusError::Codec(s) => joined("codec: ", s.as_str()),
            BusError::FrameTooLarge { size, max } => {
                let mut r = String::from_str("frame too large: ");
                r.append(u64_to_decimal(*size).as_str());
                r.append(" bytes > ");
                r.append(u64_to_decimal(*max as u64).as_str());
                r
            },
            BusError::ConnectionClosed => String::from_str("connection closed"),
            BusError::ProtocolMismatch { broker, client } => {
                let mut r = String::from_str("protocol mismatch: broker=");
                r.append(version_string(*broker).as_str());
                r.append(", client=");
                r.append(version_string(*client).as_str());
                r
            },
            BusError::InvalidAuthToken => String::from_str("invalid spawn token"),
            BusError::ServiceNotFound(s) => {
                let mut r = String::from_str("service `");
                r.append(s.as_str());
                r.append("` not registered");
                r
            },
            BusError::MethodNotFound { service, method } => {
                let mut r = String::from_str("method `");
                r.append(service.as_str());
                r.append(".");
                r.append(method.as_str());
                r.append("` not found");
                r
            },
            BusError::Unauthorized { service, method } => {
                let mut r = String::from_str("method `");
                r.append(service.as_str());
                r.append(".");
                r.append(method.as_str());
                r.append("` requires authentication");
                r
            },
            BusError::Timeout { ms } => {
                let mut r = String::from_str("call timed out after ");
                r.append(u64_to_decimal(*ms).as_str());
                r.append(" ms");
                r
            },
            BusError::BadRequest(s) => joined("bad request: ", s.as_str()),
            BusError::Internal(s) => joined("internal error: ", s.as_str()),
            BusError::App(s) => joined("app error: ", s.as_str()),
        }
    }
}

} // verus!

verus! {

/// An equal copy of an optional string.
pub fn duplicate_opt_string(s: &Option<String>) -> (r: Option<String>)
    ensures
        r == *s,
{
    match s {
        Some(v) => Some(v.clone()),
        None => None,
    }
}

impl MethodDecl {
    /// An equal copy of this declaration.
    pub fn duplicate(&self) -> (r: MethodDecl)
        ensures
            r == *self,
    {
        MethodDecl {
            name: self.name.clone(),
            requires_auth: self.requires_auth,
            streaming: self.streaming,
            http_method: self.http_method,
            path: duplicate_opt_string(&self.path),
            description: duplicate_opt_string(&self.description),
        }
    }
}

/// An equal copy of a method catalog.
pub fn duplicate_methods(v: &Vec<MethodDecl>) -> (r: Vec<MethodDecl>)
    ensures
        r@ == v@,
{
    let mut out: Vec<MethodDecl> = Vec::new();
    let mut i: usize = 0;
    while i < v.len()
        invariant
            i <= v@.len(),
            out@ == v@.subrange(0, i as int),
        decreases v@.len() - i,
    {
        out.push(v[i].duplicate());
        i = i + 1;
        assert(out@ =~= v@.subrange(0, i as int));
    }
    assert(v@.subrange(0, v@.len() as int) =~= v@);
    out
}

impl DataPlaneSocket {
    /// An equal copy of this socket descriptor.
    pub fn duplicate(&self) -> (r: DataPlaneSocket)
        ensures
            r == *self,
    {
        match self {
            DataPlaneSocket::Unix { path } => DataPlaneSocket::Unix { path: path.clone() },
            DataPlaneSocket::NamedPipe { name } => DataPlaneSocket::NamedPipe { name: name.clone() },
        }
    }
}

/// An equal copy of an optional socket descriptor.
pub fn duplicate_opt_socket(s: &Option<DataPlaneSocket>) -> (r: Option<DataPlaneSocket>)
    ensures
        r == *s,
{
    match s {
        Some(v) => Some(v.duplicate()),
        None => None,
    }
}

} // verus!
