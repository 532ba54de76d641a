//! Socket naming and connect policy of the transport: the full name of a
//! Named Pipe, the retry window of a connect, which file a socket leaves
//! behind, and where an app server listens.

use std::time::Duration;
use vstd::prelude::*;

use crate::client::{bare_pipe_name, pipe_prefix, pipe_prefix_string};
use crate::frame::DataPlaneSocket;
use crate::std_extra::{duration_as_nanos, duration_from_millis, duration_nanos, millis_nanos};
use crate::text::{concat_str, decimal, has_prefix, push_decimal, starts_with};

verus! {

/// The full name of a Named Pipe given by its bare or full name: the pipe
/// prefix is added unless it is already there.
pub open spec fn full_pipe_text(name: Seq<char>) -> Seq<char> {
    if has_prefix(name, pipe_prefix()) {
        name
    } else {
        pipe_prefix() + name
    }
}

/// The full name under which a Named Pipe is created or opened.
pub fn full_pipe_name(name: &str) -> (r: String)
    ensures
        r@ == full_pipe_text(name@),
{
    let prefix = pipe_prefix_string();
    if starts_with(name, prefix.as_str()) {
        String::from_str(name)
    } else {
        concat_str(prefix.as_str(), name)
    }
}

/// Law: a client configured with a Named Pipe by its bare name opens the
/// pipe of that full name (for a bare name that does not itself start with
/// the pipe prefix).
pub proof fn lemma_configured_pipe_opens_same_pipe(bare: Seq<char>)
    requires
        !has_prefix(bare, pipe_prefix()),
    ensures
        full_pipe_text(bare_pipe_name(pipe_prefix() + bare)) == pipe_prefix() + bare,
{
    crate::client::lemma_named_pipe_roundtrip(bare);
}

/// How long a connect keeps retrying while the endpoint is not there yet.
pub const CONNECT_RETRY_WINDOW_MS: u64 = 5000;

/// The pause between two such attempts.
pub const CONNECT_RETRY_STEP_MS: u64 = 50;

/// After a failed connect attempt, `elapsed` after the first: the pause
/// before the next attempt, or `None` to give up. Only a transient failure
/// (endpoint refused or absent, pipe busy) is retried, within 5 s.
pub fn connect_retry_delay(transient: bool, elapsed: &Duration) -> (r: Option<Duration>)
    ensures
        transient && duration_nanos(*elapsed) < millis_nanos(CONNECT_RETRY_WINDOW_MS as nat) ==> (r is Some
            && duration_nanos(r->Some_0) == millis_nanos(CONNECT_RETRY_STEP_MS as nat)),
        !(transient && duration_nanos(*elapsed) < millis_nanos(CONNECT_RETRY_WINDOW_MS as nat)) ==> r is None,
{
    if transient && duration_as_nanos(elapsed) < 5_000_000_000u128 {
        Some(duration_from_millis(CONNECT_RETRY_STEP_MS))
    } else {
        None
    }
}

/// The file a socket leaves on disk and that cleanup removes: a Unix
/// socket's path. A Named Pipe leaves nothing.
pub fn stale_path(socket: &DataPlaneSocket) -> (r: Option<String>)
    ensures
        socket matches DataPlaneSocket::Unix { path } ==> (r matches Some(p) && p@ == path@),
        socket is NamedPipe ==> r is None,
{
    match socket {
        DataPlaneSocket::Unix { path } => Some(path.clone()),
        DataPlaneSocket::NamedPipe { .. } => None,
    }
}

/// What `std::path::Path::parent` gives for a path (as text): the path
/// without its final component, or `None` for a root or empty path.
pub uninterp spec fn path_parent(p: Seq<char>) -> Option<Seq<char>>;

/// What `std::path::Path::join` gives: `part` adjoined to `base` (`part`
/// itself when it is absolute).
pub uninterp spec fn path_join(base: Seq<char>, part: Seq<char>) -> Seq<char>;

/// `Path::parent` of a path given as text. The parent of UTF-8 text is
/// UTF-8, so the conversion back to a string loses nothing.
#[verifier::external_body]
fn parent_text(p: &str) -> (r: Option<String>)
    ensures
        (r is Some) == (path_parent(p@) is Some),
        r is Some ==> r->Some_0@ == path_parent(p@)->Some_0,
{
    std::path::Path::new(p).parent().map(|q| q.to_string_lossy().into_owned())
}

/// `Path::join` of two paths given as text.
#[verifier::external_body]
fn join_text(base: &str, part: &str) -> (r: String)
    ensures
        r@ == path_join(base@, part@),
{
    std::path::Path::new(base).join(part).to_string_lossy().into_owned()
}

/// Why no app socket could be derived.
#[derive(Debug, Clone, Copy, PartialEq, Eq, Structural)]
pub enum AppSocketError {
    /// The broker socket variable is not set.
    BusSocketUnset,
    /// The broker socket path has no parent directory.
    NoParent,
}

impl AppSocketError {
    /// What the error says.
    pub fn message(&self) -> (m: String)
        ensures
            *self is BusSocketUnset ==> m@ == "TOKIMO_BUS_SOCKET not set"@,
            *self is NoParent ==> m@ == "TOKIMO_BUS_SOCKET has no parent"@,
    {
        match self {
            AppSocketError::BusSocketUnset => String::from_str("TOKIMO_BUS_SOCKET not set"),
            AppSocketError::NoParent => String::from_str("TOKIMO_BUS_SOCKET has no parent"),
        }
    }
}

/// Where an app server listens, and the directory to create first.
#[derive(Debug, Clone)]
pub struct AppSocketPlan {
    /// The socket to bind (and to report to the broker).
    pub socket: DataPlaneSocket,
    /// The directory that must exist before binding, if any.
    pub apps_dir: Option<String>,
}

/// The Named Pipe of an app server on Windows: `tokimo-app-<service>-<pid>`.
pub open spec fn app_pipe_text(service: Seq<char>, pid: u32) -> Seq<char> {
    "tokimo-app-"@ + service + seq!['-'] + decimal(pid as nat)
}

/// The directory of app sockets beside the broker socket whose parent is `parent`.
pub open spec fn apps_dir_text(parent: Seq<char>) -> Seq<char> {
    path_join(parent, "apps"@)
}

/// The app server socket of `service` in that directory.
pub open spec fn app_socket_text(parent: Seq<char>, service: Seq<char>) -> Seq<char> {
    path_join(apps_dir_text(parent), service + ".sock"@)
}

/// The conventional socket of an app server for `service`. On Windows it
/// is the Named Pipe `tokimo-app-<service>-<pid>`; elsewhere it is
/// `<parent of the broker socket>/apps/<service>.sock`, which needs the
/// broker socket path (`bus_socket`, from `TOKIMO_BUS_SOCKET`).
pub fn app_socket_plan(service: &str, bus_socket: Option<String>, windows: bool, pid: u32) -> (r: Result<
    AppSocketPlan,
    AppSocketError,
>)
    ensures
        windows ==> (r matches Ok(plan) && plan.apps_dir is None && (plan.socket matches DataPlaneSocket::NamedPipe {
            name,
        } && name@ == app_pipe_text(service@, pid))),
        !windows && bus_socket is None ==> r == Err::<AppSocketPlan, AppSocketError>(AppSocketError::BusSocketUnset),
        !windows && bus_socket is Some && path_parent(bus_socket->Some_0@) is None ==> r == Err::<
            AppSocketPlan,
            AppSocketError,
        >(AppSocketError::NoParent),
        !windows && bus_socket is Some && path_parent(bus_socket->Some_0@) is Some ==> ({
            let parent = path_parent(bus_socket->Some_0@)->Some_0;
            &&& r matches Ok(plan)
            &&& plan.apps_dir matches Some(d) && d@ == apps_dir_text(parent)
            &&& plan.socket matches DataPlaneSocket::Unix { path } && path@ == app_socket_text(parent, service@)
        }),
{
    if windows {
        let mut name = concat_str("tokimo-app-", service);
        crate::text::push_char(&mut name, '-');
        push_decimal(&mut name, pid as u64);
        assert(name@ =~= app_pipe_text(service@, pid));
        return Ok(AppSocketPlan { socket: DataPlaneSocket::NamedPipe { name }, apps_dir: None });
    }
    let bus = match bus_socket {
        Some(b) => b,
        None => {
            return Err(AppSocketError::BusSocketUnset);
        },
    };
    let parent = match parent_text(bus.as_str()) {
        Some(p) => p,
        None => {
            return Err(AppSocketError::NoParent);
        },
    };
    let dir = join_text(parent.as_str(), "apps");
    let file = concat_str(service, ".sock");
    let path = join_text(dir.as_str(), file.as_str());
    Ok(AppSocketPlan { socket: DataPlaneSocket::Unix { path }, apps_dir: Some(dir) })
}

} // verus!
