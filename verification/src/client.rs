//! App-side decisions: connection configuration, the client builder, the
//! handshake, and what the client does with each inbound frame.

use std::time::Duration;
use vstd::prelude::*;

use crate::frame::{
    BusError, BusFrame, CallerCtx, DataPlaneSocket, Event, HelloAck, HelloRequest, Invoke,
    MethodDecl, ProtocolVersion, Response, PROTOCOL_MAJOR, PROTOCOL_MINOR,
};
use crate::std_extra::{duration_as_nanos, duration_from_millis, duration_ms, duration_nanos, millis_nanos};
use crate::text::{
    concat_str, contains_str, has_prefix, has_substring, parse_u64, parse_u64_spec, same_text,
    starts_with,
};

verus! {

/// The backslash character.
pub open spec fn backslash() -> char {
    92 as char
}

/// The name prefix of every Windows Named Pipe: two backslashes, a dot, a
/// backslash, `pipe`, a backslash.
pub open spec fn pipe_prefix() -> Seq<char> {
    seq![backslash(), backslash(), '.', backslash()] + "pipe"@ + seq![backslash()]
}

/// The Named Pipe name prefix as a string.
pub fn pipe_prefix_string() -> (r: String)
    ensures
        r@ == pipe_prefix(),
{
    let bs: char = 92u8 as char;
    let mut r = String::new();
    crate::text::push_char(&mut r, bs);
    crate::text::push_char(&mut r, bs);
    crate::text::push_char(&mut r, '.');
    crate::text::push_char(&mut r, bs);
    r.append("pipe");
    crate::text::push_char(&mut r, bs);
    assert(r@ =~= pipe_prefix());
    r
}

/// The scheme that marks a Named Pipe in the broker socket variable.
pub open spec fn pipe_scheme() -> Seq<char> {
    "pipe://"@
}

/// A broker endpoint.
#[derive(Debug, Clone)]
pub enum Endpoint {
    /// Unix domain socket path.
    UnixSocket(String),
    /// Windows Named Pipe, by its full name (with the pipe prefix).
    NamedPipe(String),
}

/// Runtime configuration of a client.
#[derive(Debug, Clone)]
pub struct ClientConfig {
    /// The broker's endpoint.
    pub endpoint: Endpoint,
    /// One-time token the broker handed the app at spawn.
    pub auth_token: String,
    /// When set, the initial connect is retried with exponential backoff up
    /// to this long.
    pub reconnect_max_backoff: Option<Duration>,
    /// Idle-exit threshold: with no inbound call for this long, the app's
    /// main loop returns. `None` disables it.
    pub idle_exit: Option<Duration>,
}

/// How the broker endpoint is read from the socket variable. On Windows a
/// `pipe://NAME` value and a full pipe name select a Named Pipe;
/// anything else is a Unix socket path.
pub open spec fn endpoint_spec(raw: Seq<char>, windows: bool) -> (Seq<char>, bool) {
    if windows && has_prefix(raw, pipe_scheme()) {
        (pipe_prefix() + raw.subrange(pipe_scheme().len() as int, raw.len() as int), true)
    } else if windows && has_prefix(raw, pipe_prefix()) {
        (raw, true)
    } else {
        (raw, false)
    }
}

/// What an endpoint holds: its text, and whether it is a Named Pipe.
pub open spec fn endpoint_view(e: Endpoint) -> (Seq<char>, bool) {
    match e {
        Endpoint::UnixSocket(p) => (p@, false),
        Endpoint::NamedPipe(n) => (n@, true),
    }
}

/// Reads the broker endpoint from the socket variable; `windows` tells
/// whether Named Pipes exist on this platform.
pub fn parse_endpoint(raw: &str, windows: bool) -> (r: Result<Endpoint, BusError>)
    ensures
        r matches Ok(e) && endpoint_view(e) == endpoint_spec(raw@, windows),
{
    if windows && starts_with(raw, "pipe://") {
        let n = raw.unicode_len();
        let k = "pipe://".unicode_len();
        let rest = raw.substring_char(k, n);
        let name = concat_str(pipe_prefix_string().as_str(), rest);
        return Ok(Endpoint::NamedPipe(name));
    }
    if windows && starts_with(raw, pipe_prefix_string().as_str()) {
        return Ok(Endpoint::NamedPipe(String::from_str(raw)));
    }
    Ok(Endpoint::UnixSocket(String::from_str(raw)))
}

/// A pipe name without its pipe prefix, if it has one.
pub open spec fn bare_pipe_name(n: Seq<char>) -> Seq<char> {
    if has_prefix(n, pipe_prefix()) {
        n.subrange(pipe_prefix().len() as int, n.len() as int)
    } else {
        n
    }
}

/// The socket an endpoint designates: a Unix socket by its path, a Named
/// Pipe by its bare name.
pub fn endpoint_to_socket(endpoint: &Endpoint) -> (r: Result<DataPlaneSocket, BusError>)
    ensures
        endpoint matches Endpoint::UnixSocket(p) ==> (r matches Ok(DataPlaneSocket::Unix { path })
            && path@ == p@),
        endpoint matches Endpoint::NamedPipe(n) ==> (r matches Ok(DataPlaneSocket::NamedPipe { name })
            && name@ == bare_pipe_name(n@)),
{
    match endpoint {
        Endpoint::UnixSocket(path) => Ok(DataPlaneSocket::Unix { path: path.clone() }),
        Endpoint::NamedPipe(name) => {
            let prefix = pipe_prefix_string();
            if starts_with(name.as_str(), prefix.as_str()) {
                let k = prefix.as_str().unicode_len();
                let n = name.as_str().unicode_len();
                let bare = name.as_str().substring_char(k, n);
                Ok(DataPlaneSocket::NamedPipe { name: String::from_str(bare) })
            } else {
                Ok(DataPlaneSocket::NamedPipe { name: name.clone() })
            }
        },
    }
}

/// Law: the Named Pipe that a client is configured with by its bare name is
/// the socket it connects to.
pub proof fn lemma_named_pipe_roundtrip(bare: Seq<char>)
    ensures
        bare_pipe_name(pipe_prefix() + bare) == bare,
{
    let full = pipe_prefix() + bare;
    assert(full.subrange(0, pipe_prefix().len() as int) =~= pipe_prefix());
    assert(full.subrange(pipe_prefix().len() as int, full.len() as int) =~= bare);
}

impl ClientConfig {
    /// Resolves the configuration from the values of the variables the
    /// broker set when it spawned the app: `TOKIMO_BUS_SOCKET` (required),
    /// `TOKIMO_BUS_TOKEN` (required) and `TOKIMO_BUS_IDLE_MS` (idle-exit
    /// threshold in ms; absent, unparsable or `0` disables it). The initial
    /// connect is retried for up to 30 s.
    pub fn from_env_vars(
        socket: Option<String>,
        token: Option<String>,
        idle_ms: Option<String>,
        windows: bool,
    ) -> (r: Result<ClientConfig, BusError>)
        ensures
            socket is None ==> (r matches Err(BusError::BadRequest(m)) && m@ == "env TOKIMO_BUS_SOCKET is required"@),
            socket is Some && token is None ==> (r matches Err(BusError::BadRequest(m)) && m@
                == "env TOKIMO_BUS_TOKEN is required"@),
            socket is Some && token is Some ==> ({
                let ms: u64 = match idle_ms {
                    Some(v) => match parse_u64_spec(v@) {
                        Some(n) => n,
                        None => 0,
                    },
                    None => 0,
                };
                &&& r matches Ok(c)
                &&& endpoint_view(c.endpoint) == endpoint_spec(socket->Some_0@, windows)
                &&& c.auth_token@ == token->Some_0@
                &&& c.reconnect_max_backoff is Some
                &&& duration_nanos(c.reconnect_max_backoff->Some_0) == millis_nanos(30000)
                &&& ms == 0 ==> c.idle_exit is None
                &&& ms != 0 ==> c.idle_exit is Some && duration_nanos(c.idle_exit->Some_0) == millis_nanos(ms as nat)
            }),
    {
        let raw = match socket {
            Some(s) => s,
            None => {
                return Err(BusError::BadRequest(String::from_str("env TOKIMO_BUS_SOCKET is required")));
            },
        };
        let auth_token = match token {
            Some(t) => t,
            None => {
                return Err(BusError::BadRequest(String::from_str("env TOKIMO_BUS_TOKEN is required")));
            },
        };
        let ms: u64 = match idle_ms {
            Some(v) => match parse_u64(v.as_str()) {
                Some(n) => n,
                None => 0,
            },
            None => 0,
        };
        let idle_exit = if ms == 0 {
            None
        } else {
            Some(duration_from_millis(ms))
        };
        let endpoint = match parse_endpoint(raw.as_str(), windows) {
            Ok(e) => e,
            Err(e) => {
                return Err(e);
            },
        };
        Ok(
            ClientConfig {
                endpoint,
                auth_token,
                reconnect_max_backoff: Some(duration_from_millis(30000)),
                idle_exit,
            },
        )
    }

    /// An explicit Unix socket configuration with no retry and no idle exit.
    pub fn unix(path: String, token: String) -> (c: ClientConfig)
        ensures
            c.endpoint == Endpoint::UnixSocket(path),
            c.auth_token == token,
            c.reconnect_max_backoff is None,
            c.idle_exit is None,
    {
        ClientConfig { endpoint: Endpoint::UnixSocket(path), auth_token: token, reconnect_max_backoff: None, idle_exit: None }
    }

    /// An explicit Named Pipe configuration (by bare pipe name) with no
    /// retry and no idle exit.
    pub fn named_pipe(name: String, token: String) -> (c: ClientConfig)
        ensures
            c.endpoint matches Endpoint::NamedPipe(n) && n@ == pipe_prefix() + name@,
            c.auth_token == token,
            c.reconnect_max_backoff is None,
            c.idle_exit is None,
    {
        let full = concat_str(pipe_prefix_string().as_str(), name.as_str());
        ClientConfig { endpoint: Endpoint::NamedPipe(full), auth_token: token, reconnect_max_backoff: None, idle_exit: None }
    }
}

} // verus!

verus! {

/// `handlers` with every handler registered under `name` left out.
pub open spec fn without_handler<H>(handlers: Seq<(String, H)>, name: Seq<char>) -> Seq<(String, H)>
    decreases handlers.len(),
{
    if handlers.len() == 0 {
        handlers
    } else {
        let rest = without_handler(handlers.drop_first(), name);
        if handlers[0].0@ == name {
            rest
        } else {
            seq![handlers[0]] + rest
        }
    }
}

/// Whether the catalog declares a method of this name.
pub open spec fn declares(methods: Seq<MethodDecl>, name: Seq<char>) -> bool {
    exists|i: int| 0 <= i < methods.len() && (#[trigger] methods[i]).name@ == name
}

/// The refusal of a handler that no declaration names.
pub open spec fn undeclared_handler_text(name: Seq<char>) -> Seq<char> {
    "handler registered for `"@ + name + "` but no MethodDecl declared it"@
}

/// Fluent builder of a client: service identity, method catalog, handlers
/// (of type `H`, the host's handler type) and published topics.
pub struct BusClientBuilder<H> {
    cfg: ClientConfig,
    service: Option<(String, String)>,
    methods: Vec<MethodDecl>,
    handlers: Vec<(String, H)>,
    events: Vec<String>,
}

impl<H> BusClientBuilder<H> {
    /// Connection configuration.
    pub closed spec fn cfg_view(&self) -> ClientConfig {
        self.cfg
    }

    /// Service name and version, once set.
    pub closed spec fn service_view(&self) -> Option<(String, String)> {
        self.service
    }

    /// Declared methods, in declaration order.
    pub closed spec fn methods_view(&self) -> Seq<MethodDecl> {
        self.methods@
    }

    /// Registered handlers with their method names; a name occurs at most once.
    pub closed spec fn handlers_view(&self) -> Seq<(String, H)> {
        self.handlers@
    }

    /// Topics the app declares it publishes.
    pub closed spec fn events_view(&self) -> Seq<String> {
        self.events@
    }

    /// A builder with nothing declared yet.
    pub fn new(cfg: ClientConfig) -> (b: Self)
        ensures
            b.cfg_view() == cfg,
            b.service_view() is None,
            b.methods_view().len() == 0,
            b.handlers_view().len() == 0,
            b.events_view().len() == 0,
    {
        BusClientBuilder { cfg, service: None, methods: Vec::new(), handlers: Vec::new(), events: Vec::new() }
    }

    /// Sets the service name (unique in the broker) and build version.
    pub fn service(self, name: String, version: String) -> (b: Self)
        ensures
            b.service_view() == Some((name, version)),
            b.cfg_view() == self.cfg_view(),
            b.methods_view() == self.methods_view(),
            b.handlers_view() == self.handlers_view(),
            b.events_view() == self.events_view(),
    {
        let mut b = self;
        b.service = Some((name, version));
        b
    }

    /// Declares a method.
    pub fn method(self, decl: MethodDecl) -> (b: Self)
        ensures
            b.methods_view() == self.methods_view().push(decl),
            b.cfg_view() == self.cfg_view(),
            b.service_view() == self.service_view(),
            b.handlers_view() == self.handlers_view(),
            b.events_view() == self.events_view(),
    {
        let mut b = self;
        b.methods.push(decl);
        b
    }

    /// Registers the handler of `method`, replacing an earlier one of the
    /// same name. The name must be declared before the client connects.
    pub fn on_invoke(self, method: String, handler: H) -> (b: Self)
        ensures
            b.handlers_view() == without_handler(self.handlers_view(), method@).push((method, handler)),
            b.cfg_view() == self.cfg_view(),
            b.service_view() == self.service_view(),
            b.methods_view() == self.methods_view(),
            b.events_view() == self.events_view(),
    {
        let mut b = self;
        let mut rest = b.handlers;
        b.handlers = Vec::new();
        let ghost orig = rest@;
        let mut kept: Vec<(String, H)> = Vec::new();
        while rest.len() > 0
            invariant
                without_handler(orig, method@) == kept@ + without_handler(rest@, method@),
            decreases rest@.len(),
        {
            let ghost before = rest@;
            let entry = rest.remove(0);
            assert(before.drop_first() =~= rest@);
            if !same_text(entry.0.as_str(), method.as_str()) {
                kept.push(entry);
                proof {
                    assert(without_handler(before, method@) == seq![before[0]] + without_handler(rest@, method@));
                }
            }
        }
        assert(kept@ + without_handler(rest@, method@) =~= kept@);
        kept.push((method, handler));
        b.handlers = kept;
        b
    }

    /// Declares a topic this app publishes (informational only).
    pub fn publishes(self, topic: String) -> (b: Self)
        ensures
            b.events_view() == self.events_view().push(topic),
            b.cfg_view() == self.cfg_view(),
            b.service_view() == self.service_view(),
            b.methods_view() == self.methods_view(),
            b.handlers_view() == self.handlers_view(),
    {
        let mut b = self;
        b.events.push(topic);
        b
    }
}

} // verus!

verus! {

/// Whether some declaration in `methods` carries this name.
fn is_declared(methods: &Vec<MethodDecl>, name: &str) -> (r: bool)
    ensures
        r == declares(methods@, name@),
{
    let mut i: usize = 0;
    while i < methods.len()
        invariant
            i <= methods@.len(),
            forall|k: int| 0 <= k < i ==> (#[trigger] methods@[k]).name@ != name@,
        decreases methods@.len() - i,
    {
        if same_text(methods[i].name.as_str(), name) {
            return true;
        }
        i = i + 1;
    }
    false
}

/// The first handler (in registration order) whose name no declaration
/// carries, if any.
fn first_undeclared<H>(handlers: &Vec<(String, H)>, methods: &Vec<MethodDecl>) -> (r: Option<usize>)
    ensures
        r is None ==> forall|i: int| 0 <= i < handlers@.len() ==> declares(methods@, (#[trigger] handlers@[i]).0@),
        r is Some ==> {
            let i = r->Some_0 as int;
            &&& 0 <= i < handlers@.len()
            &&& !declares(methods@, handlers@[i].0@)
            &&& forall|j: int| 0 <= j < i ==> declares(methods@, (#[trigger] handlers@[j]).0@)
        },
{
    let mut i: usize = 0;
    while i < handlers.len()
        invariant
            i <= handlers@.len(),
            forall|j: int| 0 <= j < i ==> declares(methods@, (#[trigger] handlers@[j]).0@),
        decreases handlers@.len() - i,
    {
        if !is_declared(methods, handlers[i].0.as_str()) {
            return Some(i);
        }
        i = i + 1;
    }
    None
}

impl<H> BusClientBuilder<H> {
    /// Validates the builder before connecting and produces the `Hello` to
    /// send (with `pid`, this process's id), the configuration and the
    /// handlers. The service must have been set, and every handler must name
    /// a declared method; otherwise `BadRequest` says what is missing.
    pub fn prepare(self, pid: u32) -> (r: Result<(HelloRequest, ClientConfig, Vec<(String, H)>), BusError>)
        ensures
            self.service_view() is None ==> (r matches Err(BusError::BadRequest(m)) && m@
                == "service() was not called"@),
            self.service_view() is Some && (exists|i: int|
                0 <= i < self.handlers_view().len() && !declares(
                    self.methods_view(),
                    (#[trigger] self.handlers_view()[i]).0@,
                )) ==> (r matches Err(BusError::BadRequest(m)) && exists|i: int|
                0 <= i < self.handlers_view().len() && !declares(
                    self.methods_view(),
                    (#[trigger] self.handlers_view()[i]).0@,
                ) && (forall|j: int|
                    0 <= j < i ==> declares(self.methods_view(), (#[trigger] self.handlers_view()[j]).0@))
                && m@ == undeclared_handler_text(self.handlers_view()[i].0@)),
            self.service_view() is Some && (forall|i: int|
                0 <= i < self.handlers_view().len() ==> declares(
                    self.methods_view(),
                    (#[trigger] self.handlers_view()[i]).0@,
                )) ==> ({
                &&& r matches Ok((hello, cfg, handlers))
                &&& hello.protocol == ProtocolVersion { major: PROTOCOL_MAJOR, minor: PROTOCOL_MINOR }
                &&& hello.service == self.service_view()->Some_0.0
                &&& hello.version == self.service_view()->Some_0.1
                &&& hello.pid == pid
                &&& hello.auth_token == self.cfg_view().auth_token
                &&& hello.methods@ == self.methods_view()
                &&& hello.events@ == self.events_view()
                &&& hello.data_plane is None
                &&& cfg == self.cfg_view()
                &&& handlers@ == self.handlers_view()
            }),
    {
        let BusClientBuilder { cfg, service, methods, handlers, events } = self;
        let (service, version) = match service {
            Some(sv) => sv,
            None => {
                return Err(BusError::BadRequest(String::from_str("service() was not called")));
            },
        };
        match first_undeclared(&handlers, &methods) {
            Some(i) => {
                let mut m = String::from_str("handler registered for `");
                m.append(handlers[i].0.as_str());
                m.append("` but no MethodDecl declared it");
                assert(handlers@ == self.handlers_view() && methods@ == self.methods_view());
                assert(!declares(self.methods_view(), self.handlers_view()[i as int].0@));
                return Err(BusError::BadRequest(m));
            },
            None => {},
        }
        let hello = HelloRequest {
            protocol: ProtocolVersion::current(),
            service,
            version,
            pid,
            auth_token: cfg.auth_token.clone(),
            methods,
            events,
            data_plane: None,
        };
        Ok((hello, cfg, handlers))
    }
}

/// What the first frame after `Hello` tells the client.
pub enum Handshake {
    /// The broker acknowledged the registration.
    Accepted(HelloAck),
    /// The handshake fails with this error: the broker's refusal, or the
    /// connection closed.
    Failed(BusError),
    /// Some other frame arrived: a protocol error, which the host reports
    /// as `Internal` with the frame's `Debug` rendering.
    Unexpected(BusFrame),
}

/// The handshake reply: the first frame after `Hello` must be a `HelloAck`;
/// a `Response` carries the broker's refusal (`Internal` if it carries no
/// error); a closed connection is `ConnectionClosed`; any other frame is
/// unexpected.
pub fn handshake_reply(reply: Option<BusFrame>) -> (r: Handshake)
    ensures
        reply matches Some(BusFrame::HelloAck(a)) ==> r == Handshake::Accepted(a),
        reply matches Some(BusFrame::Response(resp)) ==> (resp.result matches Err(e) ==> r
            == Handshake::Failed(e)),
        reply matches Some(BusFrame::Response(resp)) ==> (resp.result is Ok ==> (r matches Handshake::Failed(
            BusError::Internal(m),
        ) && m@ == "broker rejected Hello without explaining"@)),
        reply matches Some(f) && !(f is HelloAck || f is Response) ==> r == Handshake::Unexpected(
            reply->Some_0,
        ),
        reply is None ==> r matches Handshake::Failed(BusError::ConnectionClosed),
{
    match reply {
        Some(BusFrame::HelloAck(a)) => Handshake::Accepted(a),
        Some(BusFrame::Response(resp)) => match resp.result {
            Err(e) => Handshake::Failed(e),
            Ok(_) => Handshake::Failed(
                BusError::Internal(String::from_str("broker rejected Hello without explaining")),
            ),
        },
        Some(other) => Handshake::Unexpected(other),
        None => Handshake::Failed(BusError::ConnectionClosed),
    }
}

} // verus!

verus! {

/// What the client does with one frame from the broker.
pub enum InboundAction {
    /// Heartbeat: answer with `Pong`.
    ReplyPong,
    /// The broker asks the app to exit.
    Shutdown,
    /// An inbound call for one of the app's handlers.
    Dispatch(Invoke),
    /// The answer to one of the app's own calls.
    Complete(Response),
    /// Events are not yet delivered to the app.
    DropEvent,
    /// Streams are not yet implemented on the client side.
    StreamingUnsupported,
    /// Frames that only travel towards the broker, or that are unexpected
    /// after the handshake.
    Ignore,
}

/// Classifies a frame read from the broker.
pub fn inbound_action(frame: BusFrame) -> (a: InboundAction)
    ensures
        frame is Ping ==> a is ReplyPong,
        frame is Shutdown ==> a is Shutdown,
        frame matches BusFrame::Invoke(i) ==> a == InboundAction::Dispatch(i),
        frame matches BusFrame::Response(r) ==> a == InboundAction::Complete(r),
        frame is Event ==> a is DropEvent,
        (frame is StreamOpen || frame is StreamChunk || frame is StreamClose) ==> a is StreamingUnsupported,
        (frame is HelloAck || frame is Hello || frame is Pong || frame is Publish || frame is Subscribe
            || frame is Unsubscribe) ==> a is Ignore,
{
    match frame {
        BusFrame::Ping => InboundAction::ReplyPong,
        BusFrame::Shutdown => InboundAction::Shutdown,
        BusFrame::Invoke(i) => InboundAction::Dispatch(i),
        BusFrame::Response(r) => InboundAction::Complete(r),
        BusFrame::Event(_) => InboundAction::DropEvent,
        BusFrame::StreamOpen(_) => InboundAction::StreamingUnsupported,
        BusFrame::StreamChunk(_) => InboundAction::StreamingUnsupported,
        BusFrame::StreamClose(_) => InboundAction::StreamingUnsupported,
        _ => InboundAction::Ignore,
    }
}

/// Whether a connect error message tells of an endpoint that is not there
/// yet: it mentions a refused connection or a missing file.
pub open spec fn transient_connect_text(msg: Seq<char>) -> bool {
    has_substring(msg, "Connection refused"@) || has_substring(msg, "No such file or directory"@)
}

/// Whether a failed initial connect attempt, `elapsed` after the first one,
/// is tried again: an I/O failure of an endpoint not there yet, within the
/// configured retry window.
pub open spec fn retries_initial_connect(err: BusError, elapsed: Duration, max_backoff: Duration) -> bool {
    &&& err matches BusError::Io(m) && transient_connect_text(m@)
    &&& duration_nanos(elapsed) < duration_nanos(max_backoff)
}

/// Decides `transient_connect_text` for a connect error message.
pub fn is_transient_connect_msg(msg: &str) -> (r: bool)
    ensures
        r == transient_connect_text(msg@),
{
    contains_str(msg, "Connection refused") || contains_str(msg, "No such file or directory")
}

/// The next pause between initial connect attempts: doubled, at most 1 s.
pub fn next_connect_backoff(ms: u64) -> (r: u64)
    ensures
        r == (if 2 * ms < 1000 { 2 * ms } else { 1000 }),
{
    if ms < 500 {
        ms * 2
    } else {
        1000
    }
}

/// After a failed initial connect attempt with `err`, `elapsed` after the
/// first attempt, with a retry window of `max_backoff` and a current pause of
/// `pause_ms`: the pause before the next attempt and the pause that follows
/// it, or `None` to give up with `err`.
pub fn initial_connect_retry(err: &BusError, elapsed: &Duration, max_backoff: &Duration, pause_ms: u64) -> (r:
    Option<(Duration, u64)>)
    ensures
        retries_initial_connect(*err, *elapsed, *max_backoff) ==> (r matches Some((d, next)) && duration_nanos(d)
            == millis_nanos(pause_ms as nat) && next == (if 2 * pause_ms < 1000 {
            2 * pause_ms
        } else {
            1000
        })),
        !retries_initial_connect(*err, *elapsed, *max_backoff) ==> r is None,
{
    let transient = match err {
        BusError::Io(m) => is_transient_connect_msg(m.as_str()),
        _ => false,
    };
    if transient && duration_as_nanos(elapsed) < duration_as_nanos(max_backoff) {
        Some((duration_from_millis(pause_ms), next_connect_backoff(pause_ms)))
    } else {
        None
    }
}

/// The client's own state once connected: its service name, the request
/// ids of its outbound calls, its shutdown flag and its idle threshold.
pub struct BusClient {
    service: String,
    next_req_id: u64,
    shutdown_fired: bool,
    idle_exit: Option<Duration>,
}

/// The method name under which an app addresses `service.method`.
pub open spec fn target_text(service: Seq<char>, method: Seq<char>) -> Seq<char> {
    service + seq!['.'] + method
}

impl BusClient {
    /// The service this client registered.
    pub closed spec fn service_view(&self) -> Seq<char> {
        self.service@
    }

    /// The request id of the next outbound call.
    pub closed spec fn next_req_id_view(&self) -> u64 {
        self.next_req_id
    }

    /// Whether shutdown was requested.
    pub closed spec fn shutdown_requested(&self) -> bool {
        self.shutdown_fired
    }

    /// The idle-exit threshold.
    pub closed spec fn idle_exit_view(&self) -> Option<Duration> {
        self.idle_exit
    }

    /// The state right after the handshake: request ids start at 1.
    pub fn new(service: String, idle_exit: Option<Duration>) -> (c: BusClient)
        ensures
            c.service_view() == service@,
            c.next_req_id_view() == 1,
            !c.shutdown_requested(),
            c.idle_exit_view() == idle_exit,
    {
        BusClient { service, next_req_id: 1, shutdown_fired: false, idle_exit }
    }

    /// Name of this service.
    pub fn service_name(&self) -> (s: &str)
        ensures
            s@ == self.service_view(),
    {
        self.service.as_str()
    }

    /// A caller context for a call this app makes on behalf of `user_id`
    /// (the user of the request being served, if any): the fresh request id
    /// `request_id` (drawn by the host, a random UUID) and `app_id` as the
    /// originating app.
    pub fn auto_caller(&self, user_id: Option<String>, request_id: String, app_id: &str) -> (c: CallerCtx)
        ensures
            c.user_id == user_id,
            c.request_id == request_id,
            c.workspace is None,
            c.caller_app_id is Some && c.caller_app_id->Some_0@ == app_id@,
    {
        CallerCtx { user_id, request_id, workspace: None, caller_app_id: Some(String::from_str(app_id)) }
    }

    /// The `Invoke` frame of an outbound call to `service.method`, with the
    /// next request id, which it returns too.
    pub fn invoke_frame(&mut self, service: &str, method: &str, payload: Vec<u8>, caller: CallerCtx) -> (r:
        (u64, BusFrame))
        ensures
            r.0 == old(self).next_req_id_view(),
            final(self).next_req_id_view() == old(self).next_req_id_view().wrapping_add(1),
            final(self).service_view() == old(self).service_view(),
            final(self).shutdown_requested() == old(self).shutdown_requested(),
            final(self).idle_exit_view() == old(self).idle_exit_view(),
            r.1 matches BusFrame::Invoke(inv) && inv.req_id == r.0 && inv.method@ == target_text(
                service@,
                method@,
            ) && inv.payload == payload && inv.caller == caller,
    {
        let req_id = self.next_req_id;
        self.next_req_id = self.next_req_id.wrapping_add(1);
        let mut name = String::from_str(service);
        crate::text::push_char(&mut name, '.');
        name.append(method);
        assert(name@ =~= target_text(service@, method@));
        (req_id, BusFrame::Invoke(Invoke { req_id, method: name, payload, caller }))
    }

    /// Records a shutdown request; true only the first time, when waiters
    /// are to be woken.
    pub fn shutdown(&mut self) -> (first: bool)
        ensures
            first == !old(self).shutdown_requested(),
            final(self).shutdown_requested(),
            final(self).service_view() == old(self).service_view(),
            final(self).next_req_id_view() == old(self).next_req_id_view(),
            final(self).idle_exit_view() == old(self).idle_exit_view(),
    {
        let first = !self.shutdown_fired;
        self.shutdown_fired = true;
        first
    }

    /// Whether the app has been idle long enough to exit: only with an idle
    /// threshold, once `idle_for` reaches it.
    pub fn idle_expired(&self, idle_for: &Duration) -> (r: bool)
        ensures
            self.idle_exit_view() is None ==> !r,
            self.idle_exit_view() is Some ==> r == (duration_nanos(*idle_for) >= duration_nanos(
                self.idle_exit_view()->Some_0,
            )),
    {
        match &self.idle_exit {
            None => false,
            Some(t) => duration_as_nanos(idle_for) >= duration_as_nanos(t),
        }
    }

    /// The answer to an inbound call for which the app registered no
    /// handler: `MethodNotFound` for this service.
    pub fn missing_handler_reply(&self, inv: &Invoke) -> (f: BusFrame)
        ensures
            f matches BusFrame::Response(r) && r.req_id == inv.req_id && (r.result matches Err(
                BusError::MethodNotFound { service, method },
            ) && service@ == self.service_view() && method@ == inv.method@),
    {
        BusFrame::Response(
            Response {
                req_id: inv.req_id,
                result: Err(
                    BusError::MethodNotFound { service: self.service.clone(), method: inv.method.clone() },
                ),
            },
        )
    }
}

/// Data handed to a method handler: the request payload (opaque bytes the
/// handler decodes) and the caller's identity and trace context.
#[derive(Debug, Clone)]
pub struct InvokeRequest {
    /// Opaque request bytes.
    pub payload: Vec<u8>,
    /// Identity and trace context of the caller.
    pub caller: CallerCtx,
}

/// How the client serves an inbound call.
pub enum Dispatch {
    /// Run the handler at this index of the registered handlers with
    /// `request`, and answer `req_id` with its result.
    Handle {
        /// Request id to answer.
        req_id: u64,
        /// Index of the handler among the registered ones.
        handler: usize,
        /// What the handler receives.
        request: InvokeRequest,
    },
    /// No handler is registered for the method: send this answer.
    Reply(BusFrame),
}

/// Finds the handler registered under `name`: the first one, if the name
/// occurs more than once.
pub fn find_handler<H>(handlers: &Vec<(String, H)>, name: &str) -> (r: Option<usize>)
    ensures
        r is None ==> forall|i: int| 0 <= i < handlers@.len() ==> (#[trigger] handlers@[i]).0@ != name@,
        r is Some ==> ({
            let i = r->Some_0 as int;
            &&& 0 <= i < handlers@.len()
            &&& handlers@[i].0@ == name@
            &&& forall|j: int| 0 <= j < i ==> (#[trigger] handlers@[j]).0@ != name@
        }),
{
    let mut i: usize = 0;
    while i < handlers.len()
        invariant
            i <= handlers@.len(),
            forall|j: int| 0 <= j < i ==> (#[trigger] handlers@[j]).0@ != name@,
        decreases handlers@.len() - i,
    {
        if same_text(handlers[i].0.as_str(), name) {
            return Some(i);
        }
        i = i + 1;
    }
    None
}

impl BusClient {
    /// Decides how to serve an inbound call: with the handler registered
    /// under its method name, or with `MethodNotFound` when there is none.
    pub fn dispatch<H>(&self, handlers: &Vec<(String, H)>, inv: Invoke) -> (d: Dispatch)
        ensures
            (exists|i: int| 0 <= i < handlers@.len() && (#[trigger] handlers@[i]).0@ == inv.method@) ==> ({
                &&& d matches Dispatch::Handle { req_id, handler, request }
                &&& req_id == inv.req_id
                &&& 0 <= handler < handlers@.len()
                &&& handlers@[handler as int].0@ == inv.method@
                &&& forall|j: int| 0 <= j < handler ==> (#[trigger] handlers@[j]).0@ != inv.method@
                &&& request.payload == inv.payload
                &&& request.caller == inv.caller
            }),
            !(exists|i: int| 0 <= i < handlers@.len() && (#[trigger] handlers@[i]).0@ == inv.method@) ==> (d
                matches Dispatch::Reply(BusFrame::Response(r)) && r.req_id == inv.req_id && (r.result matches Err(
                BusError::MethodNotFound { service, method },
            ) && service@ == self.service_view() && method@ == inv.method@)),
    {
        match find_handler(handlers, inv.method.as_str()) {
            Some(h) => Dispatch::Handle {
                req_id: inv.req_id,
                handler: h,
                request: InvokeRequest { payload: inv.payload, caller: inv.caller },
            },
            None => Dispatch::Reply(self.missing_handler_reply(&inv)),
        }
    }
}

/// The answer to an inbound call once its handler finished.
pub fn handler_response(req_id: u64, result: Result<Vec<u8>, BusError>) -> (f: BusFrame)
    ensures
        f matches BusFrame::Response(r) && r.req_id == req_id && r.result == result,
{
    BusFrame::Response(Response { req_id, result })
}

/// The `Publish` frame of an event this app emits.
pub fn publish_frame(topic: &str, payload: Vec<u8>) -> (f: BusFrame)
    ensures
        f matches BusFrame::Publish(e) && e.topic@ == topic@ && e.payload == payload && e.from is None,
{
    BusFrame::Publish(Event { topic: String::from_str(topic), payload, from: None })
}

/// The `Subscribe` frame for `topic_prefix`.
pub fn subscribe_frame(topic_prefix: &str) -> (f: BusFrame)
    ensures
        f matches BusFrame::Subscribe { topic_prefix: p } && p@ == topic_prefix@,
{
    BusFrame::Subscribe { topic_prefix: String::from_str(topic_prefix) }
}

} // verus!

verus! {

/// Law: registering a handler for a method name twice keeps only the later
/// handler for that name.
pub proof fn lemma_last_handler_wins<H>(handlers: Seq<(String, H)>, name: String, first: H, second: H)
    ensures
        ({
            let once = without_handler(handlers, name@).push((name, first));
            let twice = without_handler(once, name@).push((name, second));
            &&& twice.last() == (name, second)
            &&& forall|i: int| 0 <= i < twice.len() - 1 ==> (#[trigger] twice[i]).0@ != name@
        }),
{
    let once = without_handler(handlers, name@).push((name, first));
    lemma_without_handler_drops(once, name@);
}

/// `without_handler` leaves out every handler of the name.
pub proof fn lemma_without_handler_drops<H>(handlers: Seq<(String, H)>, name: Seq<char>)
    ensures
        forall|i: int|
            0 <= i < without_handler(handlers, name).len() ==> (#[trigger] without_handler(handlers, name)[i]).0@
                != name,
    decreases handlers.len(),
{
    if handlers.len() > 0 {
        lemma_without_handler_drops(handlers.drop_first(), name);
        let rest = without_handler(handlers.drop_first(), name);
        if handlers[0].0@ != name {
            let w = seq![handlers[0]] + rest;
            assert forall|i: int| 0 <= i < w.len() implies (#[trigger] w[i]).0@ != name by {
                if i > 0 {
                    assert(w[i] == rest[i - 1]);
                }
            }
        }
    }
}

/// Law: registering a handler under `name` drops exactly the handlers of
/// that name and keeps every handler of another name, in its order: what is
/// left is the registered handlers filtered by name.
pub proof fn lemma_register_keeps_other_handlers<H>(handlers: Seq<(String, H)>, name: Seq<char>)
    ensures
        without_handler(handlers, name) == handlers.filter(|e: (String, H)| e.0@ != name),
        (forall|i: int| 0 <= i < handlers.len() ==> (#[trigger] handlers[i]).0@ != name) ==> without_handler(
            handlers,
            name,
        ) == handlers,
        forall|i: int|
            0 <= i < handlers.len() && (#[trigger] handlers[i]).0@ != name ==> without_handler(
                handlers,
                name,
            ).contains(handlers[i]),
    decreases handlers.len(),
{
    let pred = |e: (String, H)| e.0@ != name;
    if handlers.len() == 0 {
        assert(handlers.filter(pred) =~= handlers) by {
            reveal(Seq::filter);
        }
    } else {
        let rest = handlers.drop_first();
        lemma_register_keeps_other_handlers(rest, name);
        assert(handlers =~= seq![handlers[0]] + rest);
        rest.lemma_filter_prepend(handlers[0], pred);
        if forall|i: int| 0 <= i < handlers.len() ==> (#[trigger] handlers[i]).0@ != name {
            assert forall|i: int| 0 <= i < rest.len() implies (#[trigger] rest[i]).0@ != name by {
                assert(rest[i] == handlers[i + 1]);
            }
            assert(without_handler(handlers, name) =~= handlers);
        }
        assert forall|i: int|
            0 <= i < handlers.len() && (#[trigger] handlers[i]).0@ != name implies without_handler(
                handlers,
                name,
            ).contains(handlers[i]) by {
            let w = without_handler(handlers, name);
            if i == 0 {
                assert(w[0] == handlers[0]);
            } else {
                assert(handlers[i] == rest[i - 1]);
                let r = without_handler(rest, name);
                let k = choose|k: int| 0 <= k < r.len() && r[k] == rest[i - 1];
                if handlers[0].0@ == name {
                    assert(w[k] == r[k]);
                } else {
                    assert(w[k + 1] == r[k]);
                }
            }
        }
    }
}

/// Law: registering a handler for a method that has none yet appends it and
/// keeps all earlier registrations as they were.
pub proof fn lemma_register_new_method_appends<H>(handlers: Seq<(String, H)>, name: String, handler: H)
    requires
        forall|i: int| 0 <= i < handlers.len() ==> (#[trigger] handlers[i]).0@ != name@,
    ensures
        without_handler(handlers, name@).push((name, handler)) == handlers.push((name, handler)),
{
    lemma_register_keeps_other_handlers(handlers, name@);
}

/// Law: a connect failure of an endpoint not there yet is retried whenever
/// fewer whole milliseconds than the window's have elapsed, and never once
/// the elapsed time reaches the window; other failures are never retried.
pub proof fn lemma_initial_connect_window(msg: String, other: BusError, elapsed: Duration, max_backoff: Duration)
    ensures
        transient_connect_text(msg@) && duration_ms(elapsed) < duration_ms(max_backoff)
            ==> retries_initial_connect(BusError::Io(msg), elapsed, max_backoff),
        duration_nanos(elapsed) >= duration_nanos(max_backoff) ==> !retries_initial_connect(
            other,
            elapsed,
            max_backoff,
        ),
        !transient_connect_text(msg@) ==> !retries_initial_connect(BusError::Io(msg), elapsed, max_backoff),
        !(other is Io) ==> !retries_initial_connect(other, elapsed, max_backoff),
{
}

} // verus!
