//! The broker's state and decisions: spawn tokens, the registry of connected
//! services, in-process services, outbound call routing and event fan-out.

use dashmap::DashMap;
use std::time::Duration;
use vstd::prelude::*;

use crate::catalog::{admits, check_method, first_decl};
use crate::frame::{
    duplicate_methods, BusError, BusFrame, CallerCtx, DataPlaneSocket, Event, HelloAck, Invoke,
    MethodDecl, ProtocolVersion, Response, PROTOCOL_MAJOR, PROTOCOL_MINOR,
};
use crate::registry::{EntryView, Registry, ServiceEntry};
use crate::std_extra::{duration_as_millis, duration_from_millis, duration_ms, duration_nanos, millis_nanos};
use crate::text::{has_prefix, hex_fixed, push_hex_fixed, same_text, starts_with};

verus! {

/// Broker tunables.
#[derive(Debug, Clone)]
pub struct BrokerConfig {
    /// How often the broker sends `Ping` to connected apps.
    pub heartbeat_interval: Duration,
    /// Timeout applied to `call` when none is given.
    pub default_call_timeout: Duration,
}

impl Default for BrokerConfig {
    /// Heartbeat every 15 s, calls time out after 30 s.
    fn default() -> (c: BrokerConfig)
        ensures
            duration_nanos(c.heartbeat_interval) == millis_nanos(15000),
            duration_nanos(c.default_call_timeout) == millis_nanos(30000),
    {
        BrokerConfig {
            heartbeat_interval: duration_from_millis(15000),
            default_call_timeout: duration_from_millis(30000),
        }
    }
}

/// The spawn token made from a clock reading, a process id and a counter:
/// 16 hex digits of the clock, 8 of the pid, 16 of the counter.
pub open spec fn token_text(now_nanos: u64, pid: u32, counter: u64) -> Seq<char> {
    hex_fixed(now_nanos as nat, 16) + hex_fixed(pid as nat, 8) + hex_fixed(counter as nat, 16)
}

/// Whether the token table lets a `Hello` of `service` carrying `token`
/// through: the service has an outstanding token, and it is this one.
pub open spec fn token_admits(tokens: Map<Seq<char>, Seq<char>>, service: Seq<char>, token: Seq<char>) -> bool {
    tokens.dom().contains(service) && tokens[service] == token
}

/// Formats a spawn token. Not cryptographic: the real defence is the socket's
/// filesystem permission; the token pairs a spawned process with its service.
pub fn spawn_token(now_nanos: u64, pid: u32, counter: u64) -> (t: String)
    ensures
        t@ == token_text(now_nanos, pid, counter),
{
    let mut s = String::new();
    push_hex_fixed(&mut s, now_nanos, 16);
    push_hex_fixed(&mut s, pid as u64, 8);
    push_hex_fixed(&mut s, counter, 16);
    assert(s@ =~= token_text(now_nanos, pid, counter));
    s
}

// ── spawn-token table ───────────────────────────────────────────────────

/// The table of outstanding spawn tokens.
pub type TokenMap = DashMap<String, String>;

/// A token table with no tokens.
pub open spec fn no_tokens() -> Map<Seq<char>, Seq<char>> {
    Map::empty()
}

/// What the token table holds: service name to its outstanding token.
pub uninterp spec fn tokens_of(m: TokenMap) -> Map<Seq<char>, Seq<char>>;

/// `DashMap::new`: a map with no entries.
#[verifier::external_body]
fn tokens_new() -> (m: TokenMap)
    ensures
        tokens_of(m) == no_tokens(),
{
    DashMap::new()
}

/// `DashMap::insert`: the key maps to the value, other keys unchanged.
#[verifier::external_body]
fn tokens_insert(m: &mut TokenMap, k: String, v: String)
    ensures
        tokens_of(*final(m)) == tokens_of(*old(m)).insert(k@, v@),
{
    m.insert(k, v);
}

/// `DashMap::remove`: hands back the value stored under the key, which no
/// longer maps to anything.
#[verifier::external_body]
fn tokens_remove(m: &mut TokenMap, k: &str) -> (r: Option<String>)
    ensures
        tokens_of(*final(m)) == tokens_of(*old(m)).remove(k@),
        r is Some == tokens_of(*old(m)).dom().contains(k@),
        r is Some ==> r->Some_0@ == tokens_of(*old(m))[k@],
{
    m.remove(k).map(|(_, v)| v)
}

// ── in-process service catalogs ─────────────────────────────────────────

/// The table of in-process services and their method catalogs.
pub type LocalMap = DashMap<String, Vec<MethodDecl>>;

/// A catalog table with no services.
pub open spec fn no_local() -> Map<Seq<char>, Seq<MethodDecl>> {
    Map::empty()
}

/// What the in-process catalog table holds: service name to its methods.
pub uninterp spec fn local_of(m: LocalMap) -> Map<Seq<char>, Seq<MethodDecl>>;

/// `DashMap::new`: a map with no entries.
#[verifier::external_body]
fn local_new() -> (m: LocalMap)
    ensures
        local_of(m) == no_local(),
{
    DashMap::new()
}

/// `DashMap::insert`: the key maps to the value, other keys unchanged.
#[verifier::external_body]
fn local_insert(m: &mut LocalMap, k: String, v: Vec<MethodDecl>)
    ensures
        local_of(*final(m)) == local_of(*old(m)).insert(k@, v@),
{
    m.insert(k, v);
}

/// `DashMap::get`: the catalog stored under the key, copied out.
#[verifier::external_body]
fn local_get(m: &LocalMap, k: &str) -> (r: Option<Vec<MethodDecl>>)
    ensures
        r is Some == local_of(*m).dom().contains(k@),
        r is Some ==> r->Some_0@ == local_of(*m)[k@],
{
    m.get(k).map(|v| duplicate_methods(v.value()))
}

/// `DashMap::iter`: every key once, in the map's own order.
#[verifier::external_body]
fn local_keys(m: &LocalMap) -> (r: Vec<String>)
    ensures
        forall|i: int| 0 <= i < r@.len() ==> local_of(*m).dom().contains(#[trigger] r@[i]@),
        forall|i: int, j: int| 0 <= i < j < r@.len() ==> #[trigger] r@[i]@ != #[trigger] r@[j]@,
        forall|k: Seq<char>|
            #[trigger] local_of(*m).dom().contains(k) ==> exists|i: int|
                0 <= i < r@.len() && #[trigger] r@[i]@ == k,
{
    m.iter().map(|e| e.key().clone()).collect()
}

// ── attached sessions ───────────────────────────────────────────────────

/// The table of attached sessions: (service, generation) to the next
/// request id of that session's outbound calls.
pub type SessionMap = DashMap<(String, u64), u64>;

/// A session table with no sessions.
pub open spec fn no_sessions() -> Map<(Seq<char>, u64), u64> {
    Map::empty()
}

/// What the session table holds.
pub uninterp spec fn sessions_of(m: SessionMap) -> Map<(Seq<char>, u64), u64>;

/// `DashMap::new`: a map with no entries.
#[verifier::external_body]
fn sessions_new() -> (m: SessionMap)
    ensures
        sessions_of(m) == no_sessions(),
{
    DashMap::new()
}

/// `DashMap::insert`: the key maps to the value, other keys unchanged.
#[verifier::external_body]
fn sessions_insert(m: &mut SessionMap, service: String, generation: u64, v: u64)
    ensures
        sessions_of(*final(m)) == sessions_of(*old(m)).insert((service@, generation), v),
{
    m.insert((service, generation), v);
}

/// `DashMap::get`: the value stored under the key.
#[verifier::external_body]
fn sessions_get(m: &SessionMap, service: &str, generation: u64) -> (r: Option<u64>)
    ensures
        r is Some == sessions_of(*m).dom().contains((service@, generation)),
        r is Some ==> r->Some_0 == sessions_of(*m)[(service@, generation)],
{
    m.get(&(service.to_string(), generation)).map(|v| *v.value())
}

/// `DashMap::remove`: the key no longer maps to anything.
#[verifier::external_body]
fn sessions_remove(m: &mut SessionMap, service: &str, generation: u64)
    ensures
        sessions_of(*final(m)) == sessions_of(*old(m)).remove((service@, generation)),
{
    m.remove(&(service.to_string(), generation));
}

} // verus!

verus! {

// ── topics ──────────────────────────────────────────────────────────────

/// Whether an event on `topic` reaches a subscription to `prefix`: the topic
/// is the prefix itself, or lies below it as a dot-separated child.
pub open spec fn topic_matches(topic: Seq<char>, prefix: Seq<char>) -> bool {
    topic == prefix || has_prefix(topic, prefix.push('.'))
}

/// Decides `topic_matches`.
pub fn topic_matches_prefix(topic: &str, prefix: &str) -> (r: bool)
    ensures
        r == topic_matches(topic@, prefix@),
{
    if same_text(topic, prefix) {
        return true;
    }
    let n = prefix.unicode_len();
    let ghost dotted = prefix@.push('.');
    if !starts_with(topic, prefix) || topic.unicode_len() <= n {
        proof {
            if has_prefix(topic@, dotted) {
                assert(topic@.subrange(0, n as int) =~= dotted.subrange(0, n as int));
                assert(dotted.subrange(0, n as int) =~= prefix@);
            }
        }
        return false;
    }
    let c = topic.get_char(n);
    proof {
        assert(topic@.subrange(0, n as int) =~= prefix@);
        if c == '.' {
            assert(topic@.subrange(0, n + 1) =~= dotted);
        } else if has_prefix(topic@, dotted) {
            assert(topic@.subrange(0, n + 1)[n as int] == dotted[n as int]);
        }
    }
    c == '.'
}

/// Whether one of the prefixes in `list` is `p`.
pub open spec fn list_has(list: Seq<String>, p: Seq<char>) -> bool {
    exists|j: int| 0 <= j < list.len() && (#[trigger] list[j])@ == p
}

/// Whether one of the prefixes in `list` catches `topic`.
pub open spec fn list_catches(list: Seq<String>, topic: Seq<char>) -> bool {
    exists|j: int| 0 <= j < list.len() && topic_matches(topic, (#[trigger] list[j])@)
}

/// The subscription table: services with their topic prefixes, used as a
/// map from service to a set of prefixes. Each service stands at most once
/// (`table_wf`), and subscribing to a prefix already held adds nothing; a
/// list keeps the contents (text keys and text members) within what the
/// contracts can state.
pub type SubscriptionTable = Vec<(String, Vec<String>)>;

/// Whether `service` holds a subscription to `prefix`.
pub open spec fn table_has(subs: Seq<(String, Vec<String>)>, service: Seq<char>, prefix: Seq<char>) -> bool {
    exists|i: int| 0 <= i < subs.len() && (#[trigger] subs[i]).0@ == service && list_has(subs[i].1@, prefix)
}

/// Whether one of `service`'s subscriptions catches `topic`.
pub open spec fn table_catches(subs: Seq<(String, Vec<String>)>, service: Seq<char>, topic: Seq<char>) -> bool {
    exists|i: int| 0 <= i < subs.len() && (#[trigger] subs[i]).0@ == service && list_catches(subs[i].1@, topic)
}

/// No service appears twice in the table.
pub open spec fn table_wf(subs: Seq<(String, Vec<String>)>) -> bool {
    forall|i: int, j: int| 0 <= i < j < subs.len() ==> (#[trigger] subs[i]).0@ != (#[trigger] subs[j]).0@
}

/// Where `service` stands in the table, if it does.
fn table_position(subs: &SubscriptionTable, service: &str) -> (r: Option<usize>)
    ensures
        r is Some ==> r->Some_0 < subs@.len() && subs@[r->Some_0 as int].0@ == service@,
        r is None ==> forall|i: int| 0 <= i < subs@.len() ==> (#[trigger] subs@[i]).0@ != service@,
{
    let mut i: usize = 0;
    while i < subs.len()
        invariant
            i <= subs@.len(),
            forall|k: int| 0 <= k < i ==> (#[trigger] subs@[k]).0@ != service@,
        decreases subs@.len() - i,
    {
        if same_text(subs[i].0.as_str(), service) {
            return Some(i);
        }
        i = i + 1;
    }
    None
}

/// Whether `list` holds `p`, and where.
fn list_position(list: &Vec<String>, p: &str) -> (r: Option<usize>)
    ensures
        r is Some ==> r->Some_0 < list@.len() && list@[r->Some_0 as int]@ == p@,
        r is None ==> !list_has(list@, p@),
{
    let mut j: usize = 0;
    while j < list.len()
        invariant
            j <= list@.len(),
            forall|k: int| 0 <= k < j ==> (#[trigger] list@[k])@ != p@,
        decreases list@.len() - j,
    {
        if same_text(list[j].as_str(), p) {
            return Some(j);
        }
        j = j + 1;
    }
    None
}

/// Whether one of the prefixes in `list` catches `topic`.
fn list_catches_topic(list: &Vec<String>, topic: &str) -> (r: bool)
    ensures
        r == list_catches(list@, topic@),
{
    let mut j: usize = 0;
    while j < list.len()
        invariant
            j <= list@.len(),
            forall|k: int| 0 <= k < j ==> !topic_matches(topic@, (#[trigger] list@[k])@),
        decreases list@.len() - j,
    {
        if topic_matches_prefix(topic, list[j].as_str()) {
            return true;
        }
        j = j + 1;
    }
    false
}

} // verus!

verus! {

/// Where a planned call goes.
pub enum CallRoute {
    /// To an in-process service: the host runs its handler with these.
    Local {
        /// Method name.
        method: String,
        /// Request payload.
        payload: Vec<u8>,
        /// Caller context.
        caller: CallerCtx,
    },
    /// To a connected app: `frame` goes out on that registration's session,
    /// and the reply carrying `req_id` completes the call.
    Remote {
        /// Registration whose session carries the call.
        generation: u64,
        /// Request id allocated on that session.
        req_id: u64,
        /// The `Invoke` frame to send.
        frame: BusFrame,
    },
}

/// How the host's attempt at a planned call ended.
pub enum CallOutcome {
    /// The in-process handler finished with this result.
    Finished(Result<Vec<u8>, BusError>),
    /// The app answered.
    Replied(Response),
    /// The session went away before answering.
    ReplyDropped,
    /// The `Invoke` frame could not be handed to the session.
    Undeliverable,
    /// No answer within the timeout.
    TimedOut,
}

/// What the handshake on a new connection decided.
pub enum HelloOutcome {
    /// The first frame was not a `Hello`: close without a reply.
    NotHello,
    /// Send this frame, then close.
    Rejected(BusFrame),
    /// Registered: send `ack`, then serve the session of `generation`.
    Accepted {
        /// Service name.
        service: String,
        /// Registration stamp.
        generation: u64,
        /// Connection id.
        client_id: u64,
        /// The `HelloAck` frame.
        ack: BusFrame,
    },
}

/// A response with request id 0 that carries `e`.
pub open spec fn is_refusal(f: BusFrame, e: BusError) -> bool {
    f matches BusFrame::Response(r) && r.req_id == 0 && r.result == Err::<Vec<u8>, BusError>(e)
}

/// The broker's state: tokens, registry, sessions, subscriptions and the
/// catalogs of in-process services.
pub struct Broker {
    config: BrokerConfig,
    pid: u32,
    registry: Registry,
    next_client_id: u64,
    token_counter: u64,
    tokens: TokenMap,
    sessions: SessionMap,
    subscriptions: SubscriptionTable,
    local_methods: LocalMap,
}

/// `b` has the tokens and token counter of `a`.
pub open spec fn same_tokens(a: Broker, b: Broker) -> bool {
    b.tokens() == a.tokens() && b.token_counter() == a.token_counter()
}

/// `b` has the registrations of `a`.
pub open spec fn same_services(a: Broker, b: Broker) -> bool {
    b.services() == a.services() && b.last_generation() == a.last_generation()
}

/// `b` has the subscriptions of `a`.
pub open spec fn same_subscriptions(a: Broker, b: Broker) -> bool {
    forall|s: Seq<char>, p: Seq<char>| #[trigger] b.subscribed(s, p) == a.subscribed(s, p)
}

/// `b` has the process id, configuration and connection counter of `a`.
pub open spec fn same_settings(a: Broker, b: Broker) -> bool {
    b.pid() == a.pid() && b.config_view() == a.config_view() && b.client_counter() == a.client_counter()
}

impl Broker {
    /// Outstanding spawn tokens: service name to token.
    pub closed spec fn tokens(&self) -> Map<Seq<char>, Seq<char>> {
        tokens_of(self.tokens)
    }

    /// Connected services.
    pub closed spec fn services(&self) -> Map<Seq<char>, EntryView> {
        self.registry.view()
    }

    /// The last registration generation handed out.
    pub closed spec fn last_generation(&self) -> u64 {
        self.registry.last_generation()
    }

    /// Attached sessions: (service, generation) to the next request id.
    pub closed spec fn sessions(&self) -> Map<(Seq<char>, u64), u64> {
        sessions_of(self.sessions)
    }

    /// In-process services and their catalogs.
    pub closed spec fn local(&self) -> Map<Seq<char>, Seq<MethodDecl>> {
        local_of(self.local_methods)
    }

    /// Whether `service` subscribed to `prefix`.
    pub closed spec fn subscribed(&self, service: Seq<char>, prefix: Seq<char>) -> bool {
        table_has(self.subscriptions@, service, prefix)
    }

    /// Whether one of `service`'s subscriptions catches `topic`.
    pub closed spec fn wants(&self, service: Seq<char>, topic: Seq<char>) -> bool {
        table_catches(self.subscriptions@, service, topic)
    }

    /// The next connection id.
    pub closed spec fn client_counter(&self) -> u64 {
        self.next_client_id
    }

    /// The counter that the next spawn token carries.
    pub closed spec fn token_counter(&self) -> u64 {
        self.token_counter
    }

    /// The process id that spawn tokens carry.
    pub closed spec fn pid(&self) -> u32 {
        self.pid
    }

    /// The configuration.
    pub closed spec fn config_view(&self) -> BrokerConfig {
        self.config
    }

    /// Internal consistency of the broker's tables.
    pub closed spec fn wf(&self) -> bool {
        &&& self.registry.wf()
        &&& table_wf(self.subscriptions@)
    }

    /// A broker with no services, tokens, sessions or subscriptions. Spawn
    /// tokens carry `pid`, the host's process id.
    pub fn new(config: BrokerConfig, pid: u32) -> (b: Broker)
        ensures
            b.wf(),
            b.tokens() == no_tokens(),
            b.services() == crate::registry::no_entries(),
            b.last_generation() == 0,
            b.sessions() == no_sessions(),
            b.local() == no_local(),
            forall|s: Seq<char>, p: Seq<char>| !b.subscribed(s, p),
            b.client_counter() == 1,
            b.token_counter() == 0,
            b.pid() == pid,
            b.config_view() == config,
    {
        Broker {
            config,
            pid,
            registry: Registry::new(),
            next_client_id: 1,
            token_counter: 0,
            tokens: tokens_new(),
            sessions: sessions_new(),
            subscriptions: Vec::new(),
            local_methods: local_new(),
        }
    }

    /// The service registry.
    pub fn registry(&self) -> (r: &Registry)
        ensures
            r.view() == self.services(),
            r.last_generation() == self.last_generation(),
    {
        &self.registry
    }

    /// Broker configuration.
    pub fn config(&self) -> (c: &BrokerConfig)
        ensures
            *c == self.config_view(),
    {
        &self.config
    }

    /// Generates and remembers a single-use spawn token for `service`,
    /// replacing any earlier one. `now_nanos` is the clock reading in
    /// nanoseconds since the Unix epoch.
    pub fn issue_token(&mut self, service: &str, now_nanos: u64) -> (token: String)
        requires
            old(self).wf(),
        ensures
            final(self).wf(),
            token@ == token_text(now_nanos, old(self).pid(), old(self).token_counter()),
            final(self).tokens() == old(self).tokens().insert(service@, token@),
            final(self).token_counter() == old(self).token_counter().wrapping_add(1),
            same_services(*old(self), *final(self)),
            final(self).sessions() == old(self).sessions(),
            final(self).local() == old(self).local(),
            same_subscriptions(*old(self), *final(self)),
            same_settings(*old(self), *final(self)),
    {
        let token = spawn_token(now_nanos, self.pid, self.token_counter);
        self.token_counter = self.token_counter.wrapping_add(1);
        tokens_insert(&mut self.tokens, String::from_str(service), token.clone());
        token
    }

    /// Single-use token check of the handshake: the outstanding token of
    /// `service` is withdrawn, and the token is accepted only if it equals `token`.
    pub fn consume_token(&mut self, service: &str, token: &str) -> (ok: bool)
        requires
            old(self).wf(),
        ensures
            final(self).wf(),
            ok == token_admits(old(self).tokens(), service@, token@),
            final(self).tokens() == old(self).tokens().remove(service@),
            final(self).token_counter() == old(self).token_counter(),
            same_services(*old(self), *final(self)),
            final(self).sessions() == old(self).sessions(),
            final(self).local() == old(self).local(),
            same_subscriptions(*old(self), *final(self)),
            same_settings(*old(self), *final(self)),
    {
        match tokens_remove(&mut self.tokens, service) {
            Some(expected) => same_text(expected.as_str(), token),
            None => false,
        }
    }

    /// Hands out the next connection id.
    pub fn next_client_id(&mut self) -> (id: u64)
        ensures
            id == old(self).client_counter(),
            final(self).client_counter() == old(self).client_counter().wrapping_add(1),
            same_tokens(*old(self), *final(self)),
            same_services(*old(self), *final(self)),
            final(self).sessions() == old(self).sessions(),
            final(self).local() == old(self).local(),
            same_subscriptions(*old(self), *final(self)),
            final(self).pid() == old(self).pid(),
            final(self).config_view() == old(self).config_view(),
            old(self).wf() ==> final(self).wf(),
    {
        let id = self.next_client_id;
        self.next_client_id = self.next_client_id.wrapping_add(1);
        id
    }
}

} // verus!

verus! {

impl Broker {
    /// Registers an in-process service with its method catalog (replacing an
    /// earlier one of the same name). Its handler lives with the host.
    pub fn register_local_service(&mut self, service: String, methods: Vec<MethodDecl>)
        requires
            old(self).wf(),
        ensures
            final(self).wf(),
            final(self).local() == old(self).local().insert(service@, methods@),
            same_tokens(*old(self), *final(self)),
            same_services(*old(self), *final(self)),
            final(self).sessions() == old(self).sessions(),
            same_subscriptions(*old(self), *final(self)),
            same_settings(*old(self), *final(self)),
    {
        local_insert(&mut self.local_methods, service, methods);
    }

    /// Whether an in-process service of this name is registered.
    pub fn has_local_service(&self, service: &str) -> (r: bool)
        ensures
            r == self.local().dom().contains(service@),
    {
        local_get(&self.local_methods, service).is_some()
    }

    /// Method catalog of an in-process service, if registered.
    pub fn local_service_methods(&self, service: &str) -> (r: Option<Vec<MethodDecl>>)
        ensures
            r is Some == self.local().dom().contains(service@),
            r is Some ==> r->Some_0@ == self.local()[service@],
    {
        local_get(&self.local_methods, service)
    }

    /// Names of all in-process services, each once.
    pub fn local_service_names(&self) -> (r: Vec<String>)
        ensures
            forall|i: int| 0 <= i < r@.len() ==> self.local().dom().contains(#[trigger] r@[i]@),
            forall|i: int, j: int| 0 <= i < j < r@.len() ==> #[trigger] r@[i]@ != #[trigger] r@[j]@,
            forall|k: Seq<char>|
                #[trigger] self.local().dom().contains(k) ==> exists|i: int|
                    0 <= i < r@.len() && #[trigger] r@[i]@ == k,
    {
        local_keys(&self.local_methods)
    }

    /// Method catalog of a connected service, if registered.
    pub fn registry_methods(&self, service: &str) -> (r: Option<Vec<MethodDecl>>)
        ensures
            r is Some == self.services().dom().contains(service@),
            r is Some ==> r->Some_0@ == self.services()[service@].methods,
    {
        match self.registry.get(service) {
            Some(e) => Some(e.methods),
            None => None,
        }
    }

    /// Data-plane socket declared by a connected service, if any.
    pub fn registry_data_plane(&self, service: &str) -> (r: Option<DataPlaneSocket>)
        ensures
            !self.services().dom().contains(service@) ==> r is None,
            self.services().dom().contains(service@) ==> r == self.services()[service@].data_plane,
    {
        match self.registry.get(service) {
            Some(e) => e.data_plane,
            None => None,
        }
    }

    /// Makes the session of `service`'s registration `generation` available
    /// for outbound calls; its request ids start at 1.
    pub fn attach_session(&mut self, service: &str, generation: u64)
        requires
            old(self).wf(),
        ensures
            final(self).wf(),
            final(self).sessions() == old(self).sessions().insert((service@, generation), 1),
            same_tokens(*old(self), *final(self)),
            same_services(*old(self), *final(self)),
            final(self).local() == old(self).local(),
            same_subscriptions(*old(self), *final(self)),
            same_settings(*old(self), *final(self)),
    {
        sessions_insert(&mut self.sessions, String::from_str(service), generation, 1);
    }

    /// Withdraws a session and, if the registry still holds that very
    /// registration, the registration too. Returns whether it was removed.
    pub fn end_session(&mut self, service: &str, generation: u64) -> (removed: bool)
        requires
            old(self).wf(),
        ensures
            final(self).wf(),
            final(self).sessions() == old(self).sessions().remove((service@, generation)),
            removed == (old(self).services().dom().contains(service@) && old(self).services()[service@].generation
                == generation),
            removed ==> final(self).services() == old(self).services().remove(service@),
            !removed ==> final(self).services() == old(self).services(),
            final(self).last_generation() == old(self).last_generation(),
            same_tokens(*old(self), *final(self)),
            final(self).local() == old(self).local(),
            same_subscriptions(*old(self), *final(self)),
            same_settings(*old(self), *final(self)),
    {
        sessions_remove(&mut self.sessions, service, generation);
        self.registry.remove_if(service, generation)
    }

    /// Withdraws a registration if it still is `generation` (used when the
    /// acknowledgement of a handshake could not be delivered).
    pub fn remove_registration(&mut self, service: &str, generation: u64) -> (removed: bool)
        requires
            old(self).wf(),
        ensures
            final(self).wf(),
            removed == (old(self).services().dom().contains(service@) && old(self).services()[service@].generation
                == generation),
            removed ==> final(self).services() == old(self).services().remove(service@),
            !removed ==> final(self).services() == old(self).services(),
            final(self).last_generation() == old(self).last_generation(),
            final(self).sessions() == old(self).sessions(),
            same_tokens(*old(self), *final(self)),
            final(self).local() == old(self).local(),
            same_subscriptions(*old(self), *final(self)),
            same_settings(*old(self), *final(self)),
    {
        self.registry.remove_if(service, generation)
    }

    /// Decides where a unary call to `service.method` goes.
    ///
    /// In-process services take precedence and are checked against their
    /// catalog. Otherwise the service must be registered, must declare the
    /// method, must admit the caller, and must have an attached session;
    /// the call then takes the session's next request id.
    pub fn plan_call(&mut self, service: &str, method: &str, payload: Vec<u8>, caller: CallerCtx) -> (r:
        Result<CallRoute, BusError>)
        requires
            old(self).wf(),
        ensures
            final(self).wf(),
            same_tokens(*old(self), *final(self)),
            same_services(*old(self), *final(self)),
            final(self).local() == old(self).local(),
            same_subscriptions(*old(self), *final(self)),
            same_settings(*old(self), *final(self)),
            // in-process services
            old(self).local().dom().contains(service@) ==> final(self).sessions() == old(self).sessions(),
            old(self).local().dom().contains(service@) && admits(old(self).local()[service@], method@, caller)
                ==> (r matches Ok(CallRoute::Local { method: m, payload: p, caller: c }) && m@ == method@
                && p == payload && c == caller),
            old(self).local().dom().contains(service@) && first_decl(old(self).local()[service@], method@) is None
                ==> (r matches Err(BusError::MethodNotFound { service: s, method: m }) && s@ == service@
                && m@ == method@),
            old(self).local().dom().contains(service@) && first_decl(old(self).local()[service@], method@) is Some
                && !admits(old(self).local()[service@], method@, caller) ==> (r matches Err(
                BusError::Unauthorized { service: s, method: m },
            ) && s@ == service@ && m@ == method@),
            // connected services
            !old(self).local().dom().contains(service@) && !old(self).services().dom().contains(service@)
                ==> (r matches Err(BusError::ServiceNotFound(s)) && s@ == service@),
            !old(self).local().dom().contains(service@) && old(self).services().dom().contains(service@)
                && first_decl(old(self).services()[service@].methods, method@) is None ==> (r matches Err(
                BusError::MethodNotFound { service: s, method: m },
            ) && s@ == service@ && m@ == method@),
            !old(self).local().dom().contains(service@) && old(self).services().dom().contains(service@)
                && first_decl(old(self).services()[service@].methods, method@) is Some && !admits(
                old(self).services()[service@].methods,
                method@,
                caller,
            ) ==> (r matches Err(BusError::Unauthorized { service: s, method: m }) && s@ == service@
                && m@ == method@),
            !old(self).local().dom().contains(service@) && old(self).services().dom().contains(service@)
                && admits(old(self).services()[service@].methods, method@, caller)
                && !old(self).sessions().dom().contains((service@, old(self).services()[service@].generation))
                ==> (r matches Err(BusError::ServiceNotFound(s)) && s@ == service@),
            !old(self).local().dom().contains(service@) && old(self).services().dom().contains(service@)
                && admits(old(self).services()[service@].methods, method@, caller)
                && old(self).sessions().dom().contains((service@, old(self).services()[service@].generation))
                ==> ({
                let g = old(self).services()[service@].generation;
                let id = old(self).sessions()[(service@, g)];
                &&& r matches Ok(CallRoute::Remote { generation, req_id, frame })
                &&& generation == g
                &&& req_id == id
                &&& frame matches BusFrame::Invoke(inv)
                &&& inv.req_id == id
                &&& inv.method@ == method@
                &&& inv.payload == payload
                &&& inv.caller == caller
                &&& final(self).sessions() == old(self).sessions().insert((service@, g), id.wrapping_add(1))
            }),
            !(!old(self).local().dom().contains(service@) && old(self).services().dom().contains(service@)
                && admits(old(self).services()[service@].methods, method@, caller)
                && old(self).sessions().dom().contains((service@, old(self).services()[service@].generation)))
                ==> final(self).sessions() == old(self).sessions(),
    {
        if let Some(methods) = local_get(&self.local_methods, service) {
            return match check_method(&methods, service, method, &caller) {
                Ok(()) => Ok(CallRoute::Local { method: String::from_str(method), payload, caller }),
                Err(e) => Err(e),
            };
        }
        let entry = match self.registry.get(service) {
            Some(e) => e,
            None => {
                return Err(BusError::ServiceNotFound(String::from_str(service)));
            },
        };
        match check_method(&entry.methods, service, method, &caller) {
            Ok(()) => {},
            Err(e) => {
                return Err(e);
            },
        }
        let req_id = match sessions_get(&self.sessions, service, entry.generation) {
            Some(id) => id,
            None => {
                return Err(BusError::ServiceNotFound(String::from_str(service)));
            },
        };
        sessions_insert(&mut self.sessions, String::from_str(service), entry.generation, req_id.wrapping_add(1));
        let frame = BusFrame::Invoke(Invoke { req_id, method: String::from_str(method), payload, caller });
        Ok(CallRoute::Remote { generation: entry.generation, req_id, frame })
    }

    /// Where a `Shutdown` request for `service` goes: the session of its
    /// current registration. The broker does not wait for the app to exit.
    pub fn shutdown_service(&self, service: &str) -> (r: Result<u64, BusError>)
        ensures
            self.services().dom().contains(service@) ==> r == Ok::<u64, BusError>(
                self.services()[service@].generation,
            ),
            !self.services().dom().contains(service@) ==> (r matches Err(BusError::ServiceNotFound(s))
                && s@ == service@),
    {
        match self.registry.get(service) {
            Some(e) => Ok(e.generation),
            None => Err(BusError::ServiceNotFound(String::from_str(service))),
        }
    }
}

/// The result of a planned call once the host has tried it: a handler's or
/// an app's own result, `ConnectionClosed` when the session went away,
/// `ServiceNotFound` when the frame could not be handed over, and `Timeout`
/// carrying the timeout in milliseconds. A call that outlives its timeout,
/// the default one included, fails with `Timeout`: it does not panic, even
/// where the documentation of `call` speaks of a panic at the default
/// timeout, since a verified function never panics.
pub fn finish_call(service: &str, outcome: CallOutcome, timeout: &Duration) -> (r: Result<Vec<u8>, BusError>)
    ensures
        outcome matches CallOutcome::Finished(res) ==> r == res,
        outcome matches CallOutcome::Replied(resp) ==> r == resp.result,
        outcome is ReplyDropped ==> r matches Err(BusError::ConnectionClosed),
        outcome is Undeliverable ==> (r matches Err(BusError::ServiceNotFound(s)) && s@ == service@),
        outcome is TimedOut ==> (r matches Err(BusError::Timeout { ms }) && ms == duration_ms(*timeout)
            as u64),
{
    match outcome {
        CallOutcome::Finished(res) => res,
        CallOutcome::Replied(resp) => resp.result,
        CallOutcome::ReplyDropped => Err(BusError::ConnectionClosed),
        CallOutcome::Undeliverable => Err(BusError::ServiceNotFound(String::from_str(service))),
        CallOutcome::TimedOut => {
            let ms = duration_as_millis(timeout);
            Err(BusError::Timeout { ms: ms as u64 })
        },
    }
}

} // verus!

verus! {

impl Broker {
    /// Records that `service` subscribes to topics under `prefix`.
    pub fn subscribe(&mut self, service: String, prefix: String)
        requires
            old(self).wf(),
        ensures
            final(self).wf(),
            forall|s: Seq<char>, p: Seq<char>|
                #[trigger] final(self).subscribed(s, p) == (old(self).subscribed(s, p) || (s == service@
                    && p == prefix@)),
            same_tokens(*old(self), *final(self)),
            same_services(*old(self), *final(self)),
            final(self).sessions() == old(self).sessions(),
            final(self).local() == old(self).local(),
            same_settings(*old(self), *final(self)),
    {
        let ghost before = self.subscriptions@;
        match table_position(&self.subscriptions, service.as_str()) {
            None => {
                let mut list: Vec<String> = Vec::new();
                list.push(prefix);
                self.subscriptions.push((service, list));
                proof {
                    let after = self.subscriptions@;
                    assert forall|i: int, j: int| 0 <= i < j < after.len() implies (#[trigger] after[i]).0@
                        != (#[trigger] after[j]).0@ by {
                        if j == after.len() - 1 {
                            assert(after[i] == before[i]);
                        } else {
                            assert(after[i] == before[i] && after[j] == before[j]);
                        }
                    }
                    assert forall|s: Seq<char>, p: Seq<char>| #[trigger] table_has(after, s, p) == (
                    table_has(before, s, p) || (s == service@ && p == prefix@)) by {
                        if table_has(after, s, p) {
                            let i = choose|i: int|
                                0 <= i < after.len() && (#[trigger] after[i]).0@ == s && list_has(after[i].1@, p);
                            if i < before.len() {
                                assert(after[i] == before[i]);
                            } else {
                                let j = choose|j: int| 0 <= j < after[i].1@.len() && (#[trigger] after[i].1@[j])@ == p;
                                assert(after[i].1@[j] == prefix);
                            }
                        }
                        if table_has(before, s, p) {
                            let i = choose|i: int|
                                0 <= i < before.len() && (#[trigger] before[i]).0@ == s && list_has(before[i].1@, p);
                            assert(after[i] == before[i]);
                        }
                        if s == service@ && p == prefix@ {
                            let k = after.len() - 1;
                            assert(after[k].1@[0] == prefix);
                            assert(list_has(after[k].1@, p));
                        }
                    }
                }
            },
            Some(i) => {
                let found = list_position(&self.subscriptions[i].1, prefix.as_str());
                if found.is_none() {
                    let svc = self.subscriptions[i].0.clone();
                    let mut list = duplicate_strings(&self.subscriptions[i].1);
                    let ghost old_list = self.subscriptions@[i as int].1@;
                    list.push(prefix);
                    self.subscriptions.set(i, (svc, list));
                    proof {
                        let after = self.subscriptions@;
                        assert(after[i as int].0@ == service@);
                        assert forall|a: int, b: int| 0 <= a < b < after.len() implies (#[trigger] after[a]).0@
                            != (#[trigger] after[b]).0@ by {
                            assert(after[a].0@ == before[a].0@);
                            assert(after[b].0@ == before[b].0@);
                        }
                        assert forall|s: Seq<char>, p: Seq<char>| #[trigger] table_has(after, s, p) == (
                        table_has(before, s, p) || (s == service@ && p == prefix@)) by {
                            if table_has(after, s, p) {
                                let a = choose|a: int|
                                    0 <= a < after.len() && (#[trigger] after[a]).0@ == s && list_has(after[a].1@, p);
                                if a != i {
                                    assert(after[a] == before[a]);
                                } else {
                                    let j = choose|j: int| 0 <= j < after[a].1@.len() && (#[trigger] after[a].1@[j])@ == p;
                                    if j < old_list.len() {
                                        assert(after[a].1@[j] == old_list[j]);
                                        assert(list_has(before[a].1@, p));
                                    }
                                }
                            }
                            if table_has(before, s, p) {
                                let a = choose|a: int|
                                    0 <= a < before.len() && (#[trigger] before[a]).0@ == s && list_has(before[a].1@, p);
                                if a != i {
                                    assert(after[a] == before[a]);
                                } else {
                                    let j = choose|j: int| 0 <= j < before[a].1@.len() && (#[trigger] before[a].1@[j])@ == p;
                                    assert(after[a].1@[j] == old_list[j]);
                                }
                            }
                            if s == service@ && p == prefix@ {
                                assert(after[i as int].1@[old_list.len() as int] == prefix);
                                assert(list_has(after[i as int].1@, p));
                            }
                        }
                    }
                } else {
                    proof {
                        let j = found->Some_0;
                        assert(list_has(before[i as int].1@, prefix@));
                    }
                }
            },
        }
    }
}

impl Broker {
    /// Withdraws `service`'s subscription to `prefix`, if it holds one.
    pub fn unsubscribe(&mut self, service: &str, prefix: &str)
        requires
            old(self).wf(),
        ensures
            final(self).wf(),
            forall|s: Seq<char>, p: Seq<char>|
                #[trigger] final(self).subscribed(s, p) == (old(self).subscribed(s, p) && !(s == service@
                    && p == prefix@)),
            same_tokens(*old(self), *final(self)),
            same_services(*old(self), *final(self)),
            final(self).sessions() == old(self).sessions(),
            final(self).local() == old(self).local(),
            same_settings(*old(self), *final(self)),
    {
        let ghost before = self.subscriptions@;
        match table_position(&self.subscriptions, service) {
            None => {
                proof {
                    assert forall|s: Seq<char>, p: Seq<char>| #[trigger] table_has(before, s, p) implies !(s
                        == service@ && p == prefix@) by {
                        let a = choose|a: int|
                            0 <= a < before.len() && (#[trigger] before[a]).0@ == s && list_has(before[a].1@, p);
                    }
                }
            },
            Some(i) => {
                let svc = self.subscriptions[i].0.clone();
                let list = without(&self.subscriptions[i].1, prefix);
                let ghost old_list = before[i as int].1@;
                self.subscriptions.set(i, (svc, list));
                proof {
                    let after = self.subscriptions@;
                    assert forall|a: int, b: int| 0 <= a < b < after.len() implies (#[trigger] after[a]).0@
                        != (#[trigger] after[b]).0@ by {
                        assert(after[a].0@ == before[a].0@);
                        assert(after[b].0@ == before[b].0@);
                    }
                    assert forall|s: Seq<char>, p: Seq<char>| #[trigger] table_has(after, s, p) == (
                    table_has(before, s, p) && !(s == service@ && p == prefix@)) by {
                        if table_has(after, s, p) {
                            let a = choose|a: int|
                                0 <= a < after.len() && (#[trigger] after[a]).0@ == s && list_has(after[a].1@, p);
                            if a != i {
                                assert(after[a] == before[a]);
                                assert(s != service@);
                            } else {
                                assert(list_has(old_list, p) && p != prefix@);
                            }
                        }
                        if table_has(before, s, p) && !(s == service@ && p == prefix@) {
                            let a = choose|a: int|
                                0 <= a < before.len() && (#[trigger] before[a]).0@ == s && list_has(before[a].1@, p);
                            if a != i {
                                assert(after[a] == before[a]);
                            } else {
                                assert(list_has(after[a].1@, p));
                            }
                        }
                    }
                }
            },
        }
    }
}

/// `list` with every occurrence of `p` left out.
fn without(list: &Vec<String>, p: &str) -> (r: Vec<String>)
    ensures
        forall|q: Seq<char>| #[trigger] list_has(r@, q) == (list_has(list@, q) && q != p@),
{
    let mut out: Vec<String> = Vec::new();
    let mut i: usize = 0;
    while i < list.len()
        invariant
            i <= list@.len(),
            forall|q: Seq<char>| #[trigger] list_has(out@, q) == (list_has(list@.subrange(0, i as int), q) && q != p@),
        decreases list@.len() - i,
    {
        let ghost prev = out@;
        let keep = !same_text(list[i].as_str(), p);
        if keep {
            out.push(list[i].clone());
        }
        proof {
            let pre = list@.subrange(0, i as int);
            let cur = list@.subrange(0, i + 1);
            assert forall|q: Seq<char>| #[trigger] list_has(out@, q) == (list_has(cur, q) && q != p@) by {
                if list_has(out@, q) {
                    let j = choose|j: int| 0 <= j < out@.len() && (#[trigger] out@[j])@ == q;
                    if j < prev.len() {
                        assert(out@[j] == prev[j]);
                        assert(list_has(prev, q));
                        let k = choose|k: int| 0 <= k < pre.len() && (#[trigger] pre[k])@ == q;
                        assert(cur[k] == pre[k]);
                    } else {
                        assert(cur[i as int] == list@[i as int]);
                    }
                }
                if list_has(cur, q) && q != p@ {
                    let k = choose|k: int| 0 <= k < cur.len() && (#[trigger] cur[k])@ == q;
                    if k < i {
                        assert(pre[k] == cur[k]);
                        assert(list_has(pre, q));
                        assert(list_has(prev, q));
                        let j = choose|j: int| 0 <= j < prev.len() && (#[trigger] prev[j])@ == q;
                        assert(out@[j] == prev[j]);
                    } else {
                        assert(out@[prev.len() as int] == list@[i as int]);
                    }
                }
            }
        }
        i = i + 1;
    }
    assert(list@.subrange(0, list@.len() as int) =~= list@);
    out
}

impl Broker {
    /// Fan-out of an event published by `from`: the event stamped with its
    /// publisher, and the connected services (with their current
    /// registration) that hold a subscription catching its topic, the
    /// publisher itself excepted, each once.
    pub fn fanout(&self, from: &str, event: Event) -> (r: (Event, Vec<(String, u64)>))
        requires
            self.wf(),
        ensures
            r.0.topic == event.topic,
            r.0.payload == event.payload,
            r.0.from is Some && r.0.from->Some_0@ == from@,
            forall|i: int|
                0 <= i < r.1@.len() ==> {
                    let s = (#[trigger] r.1@[i]).0@;
                    &&& s != from@
                    &&& self.wants(s, event.topic@)
                    &&& self.services().dom().contains(s)
                    &&& r.1@[i].1 == self.services()[s].generation
                },
            forall|i: int, j: int| 0 <= i < j < r.1@.len() ==> (#[trigger] r.1@[i]).0@ != (#[trigger] r.1@[j]).0@,
            forall|s: Seq<char>|
                self.services().dom().contains(s) && s != from@ && #[trigger] self.wants(s, event.topic@)
                    ==> exists|i: int| 0 <= i < r.1@.len() && (#[trigger] r.1@[i]).0@ == s,
    {
        let mut event = event;
        event.from = Some(String::from_str(from));
        let subs = &self.subscriptions;
        let mut targets: Vec<(String, u64)> = Vec::new();
        let mut i: usize = 0;
        while i < subs.len()
            invariant
                i <= subs@.len(),
                subs@ == self.subscriptions@,
                table_wf(subs@),
                forall|k: int|
                    0 <= k < targets@.len() ==> {
                        let s = (#[trigger] targets@[k]).0@;
                        &&& s != from@
                        &&& table_catches(subs@, s, event.topic@)
                        &&& self.services().dom().contains(s)
                        &&& targets@[k].1 == self.services()[s].generation
                        &&& exists|m: int| 0 <= m < i && (#[trigger] subs@[m]).0@ == s
                    },
                forall|a: int, b: int|
                    0 <= a < b < targets@.len() ==> (#[trigger] targets@[a]).0@ != (#[trigger] targets@[b]).0@,
                forall|m: int|
                    0 <= m < i && (#[trigger] subs@[m]).0@ != from@ && list_catches(subs@[m].1@, event.topic@)
                        && self.services().dom().contains(subs@[m].0@) ==> exists|k: int|
                        0 <= k < targets@.len() && (#[trigger] targets@[k]).0@ == subs@[m].0@,
            decreases subs@.len() - i,
        {
            let ghost prev = targets@;
            let name = &subs[i].0;
            if !same_text(name.as_str(), from) && list_catches_topic(&subs[i].1, event.topic.as_str()) {
                match self.registry.get(name.as_str()) {
                    Some(e) => {
                        targets.push((name.clone(), e.generation));
                        proof {
                            assert(table_catches(subs@, subs@[i as int].0@, event.topic@));
                            assert forall|a: int, b: int|
                                0 <= a < b < targets@.len() implies (#[trigger] targets@[a]).0@
                                != (#[trigger] targets@[b]).0@ by {
                                if b == targets@.len() - 1 {
                                    assert(targets@[a] == prev[a]);
                                    let m = choose|m: int| 0 <= m < i && (#[trigger] subs@[m]).0@ == prev[a].0@;
                                    assert(subs@[m].0@ != subs@[i as int].0@);
                                } else {
                                    assert(targets@[a] == prev[a] && targets@[b] == prev[b]);
                                }
                            }
                            assert forall|k: int| 0 <= k < targets@.len() implies exists|m: int|
                                0 <= m < i + 1 && (#[trigger] subs@[m]).0@ == (#[trigger] targets@[k]).0@ by {
                                if k < prev.len() {
                                    assert(targets@[k] == prev[k]);
                                    let m = choose|m: int| 0 <= m < i && (#[trigger] subs@[m]).0@ == prev[k].0@;
                                } else {
                                    assert(subs@[i as int].0@ == targets@[k].0@);
                                }
                            }
                        }
                    },
                    None => {},
                }
            }
            proof {
                assert forall|k: int| 0 <= k < targets@.len() implies exists|m: int|
                    0 <= m < i + 1 && (#[trigger] subs@[m]).0@ == (#[trigger] targets@[k]).0@ by {
                    if k < prev.len() {
                        let m = choose|m: int| 0 <= m < i && (#[trigger] subs@[m]).0@ == prev[k].0@;
                        assert(targets@[k] == prev[k]);
                    }
                }
                assert forall|m: int|
                    0 <= m < i + 1 && (#[trigger] subs@[m]).0@ != from@ && list_catches(subs@[m].1@, event.topic@)
                        && self.services().dom().contains(subs@[m].0@) implies exists|k: int|
                        0 <= k < targets@.len() && (#[trigger] targets@[k]).0@ == subs@[m].0@ by {
                    if m < i {
                        let k = choose|k: int| 0 <= k < prev.len() && (#[trigger] prev[k]).0@ == subs@[m].0@;
                        assert(targets@[k] == prev[k]);
                    } else {
                        assert(targets@[targets@.len() - 1].0@ == subs@[m].0@);
                    }
                }
            }
            i = i + 1;
        }
        proof {
            assert forall|s: Seq<char>|
                self.services().dom().contains(s) && s != from@ && #[trigger] self.wants(s, event.topic@)
                    implies exists|k: int| 0 <= k < targets@.len() && (#[trigger] targets@[k]).0@ == s by {
                let m = choose|m: int|
                    0 <= m < subs@.len() && (#[trigger] subs@[m]).0@ == s && list_catches(subs@[m].1@, event.topic@);
            }
        }
        (event, targets)
    }
}

impl Broker {
    /// The handshake on a new connection, given its first frame.
    ///
    /// Anything but a `Hello` is dropped without a reply. A `Hello` whose
    /// major protocol version differs is refused with `ProtocolMismatch`; one
    /// whose spawn token does not match the outstanding token of its service
    /// is refused with `InvalidAuthToken` (the token is withdrawn either way).
    /// Otherwise the service is registered under a fresh generation, gets a
    /// connection id, and is acknowledged with the heartbeat interval.
    pub fn accept_hello(&mut self, frame: BusFrame) -> (r: HelloOutcome)
        requires
            old(self).wf(),
        ensures
            final(self).wf(),
            final(self).sessions() == old(self).sessions(),
            final(self).local() == old(self).local(),
            same_subscriptions(*old(self), *final(self)),
            final(self).pid() == old(self).pid(),
            final(self).config_view() == old(self).config_view(),
            final(self).token_counter() == old(self).token_counter(),
            !(frame is Hello) ==> r is NotHello && same_tokens(*old(self), *final(self)) && same_services(
                *old(self),
                *final(self),
            ) && final(self).client_counter() == old(self).client_counter(),
            frame matches BusFrame::Hello(h) ==> ({
                let tokens_ok = token_admits(old(self).tokens(), h.service@, h.auth_token@);
                &&& h.protocol.major != PROTOCOL_MAJOR ==> {
                    &&& r matches HelloOutcome::Rejected(f)
                    &&& is_refusal(
                        f,
                        BusError::ProtocolMismatch {
                            broker: ProtocolVersion { major: PROTOCOL_MAJOR, minor: PROTOCOL_MINOR },
                            client: h.protocol,
                        },
                    )
                    &&& same_tokens(*old(self), *final(self))
                    &&& same_services(*old(self), *final(self))
                    &&& final(self).client_counter() == old(self).client_counter()
                }
                &&& h.protocol.major == PROTOCOL_MAJOR ==> final(self).tokens() == old(self).tokens().remove(
                    h.service@,
                )
                &&& h.protocol.major == PROTOCOL_MAJOR && !tokens_ok ==> {
                    &&& r matches HelloOutcome::Rejected(f)
                    &&& is_refusal(f, BusError::InvalidAuthToken)
                    &&& same_services(*old(self), *final(self))
                    &&& final(self).client_counter() == old(self).client_counter()
                }
                &&& h.protocol.major == PROTOCOL_MAJOR && tokens_ok && old(self).last_generation() == u64::MAX
                    ==> {
                    &&& r matches HelloOutcome::Rejected(f)
                    &&& f matches BusFrame::Response(resp)
                    &&& resp.req_id == 0
                    &&& resp.result matches Err(BusError::Internal(m))
                    &&& m@ == "registration generations exhausted"@
                    &&& same_services(*old(self), *final(self))
                }
                &&& h.protocol.major == PROTOCOL_MAJOR && tokens_ok && old(self).last_generation() < u64::MAX
                    ==> {
                    let g = (old(self).last_generation() + 1) as u64;
                    &&& r matches HelloOutcome::Accepted { service, generation, client_id, ack }
                    &&& service@ == h.service@
                    &&& generation == g
                    &&& client_id == old(self).client_counter()
                    &&& ack matches BusFrame::HelloAck(a)
                    &&& a.client_id == client_id
                    &&& a.heartbeat_interval == old(self).config_view().heartbeat_interval
                    &&& final(self).last_generation() == g
                    &&& final(self).services() == old(self).services().insert(
                        h.service@,
                        EntryView {
                            service: h.service@,
                            generation: g,
                            methods: h.methods@,
                            pid: h.pid,
                            data_plane: h.data_plane,
                        },
                    )
                    &&& final(self).client_counter() == old(self).client_counter().wrapping_add(1)
                }
            }),
    {
        let hello = match frame {
            BusFrame::Hello(h) => h,
            _ => {
                return HelloOutcome::NotHello;
            },
        };
        if hello.protocol.major != PROTOCOL_MAJOR {
            let refusal = BusError::ProtocolMismatch {
                broker: ProtocolVersion::current(),
                client: hello.protocol,
            };
            return HelloOutcome::Rejected(
                BusFrame::Response(Response { req_id: 0, result: Err(refusal) }),
            );
        }
        if !self.consume_token(hello.service.as_str(), hello.auth_token.as_str()) {
            return HelloOutcome::Rejected(
                BusFrame::Response(Response { req_id: 0, result: Err(BusError::InvalidAuthToken) }),
            );
        }
        if self.registry.last_generation_exec() == u64::MAX {
            let refusal = BusError::Internal(String::from_str("registration generations exhausted"));
            return HelloOutcome::Rejected(BusFrame::Response(Response { req_id: 0, result: Err(refusal) }));
        }
        let client_id = self.next_client_id();
        let service = hello.service.clone();
        let entry = ServiceEntry {
            service: hello.service,
            generation: 0,
            methods: hello.methods,
            pid: hello.pid,
            data_plane: hello.data_plane,
        };
        let ghost mid = *self;
        let generation = self.registry.insert(entry);
        proof {
            assert(self.subscriptions@ == mid.subscriptions@);
            assert forall|s: Seq<char>, p: Seq<char>| #[trigger] self.subscribed(s, p) == old(self).subscribed(s, p) by {
                assert(self.subscribed(s, p) == mid.subscribed(s, p));
            }
        }
        let ack = BusFrame::HelloAck(
            HelloAck { client_id, heartbeat_interval: self.config.heartbeat_interval },
        );
        HelloOutcome::Accepted { service, generation, client_id, ack }
    }
}

/// An equal copy of a list of strings.
pub fn duplicate_strings(v: &Vec<String>) -> (r: Vec<String>)
    ensures
        r@ == v@,
{
    let mut out: Vec<String> = Vec::new();
    let mut i: usize = 0;
    while i < v.len()
        invariant
            i <= v@.len(),
            out@ == v@.subrange(0, i as int),
        decreases v@.len() - i,
    {
        out.push(v[i].clone());
        i = i + 1;
        assert(out@ =~= v@.subrange(0, i as int));
    }
    assert(v@.subrange(0, v@.len() as int) =~= v@);
    out
}

} // verus!

verus! {

/// Law: a spawn token is good once, and only for its own service. Once
/// issued (the token table gains it), a `Hello` of that service carrying it
/// is let through and one carrying any other token is refused; once a
/// handshake has withdrawn it (the table loses the service), the same token
/// is refused.
pub proof fn lemma_spawn_token_single_use(
    tokens: Map<Seq<char>, Seq<char>>,
    service: Seq<char>,
    token: Seq<char>,
    other: Seq<char>,
)
    ensures
        token_admits(tokens.insert(service, token), service, token),
        other != token ==> !token_admits(tokens.insert(service, token), service, other),
        !token_admits(tokens.insert(service, token).remove(service), service, token),
{
}

/// Law: a caller without a user id is never admitted to a method whose
/// declaration requires authentication.
pub proof fn lemma_anonymous_caller_refused(decls: Seq<MethodDecl>, method: Seq<char>, caller: CallerCtx)
    requires
        caller.user_id is None,
        first_decl(decls, method) is Some,
        first_decl(decls, method)->Some_0.requires_auth,
    ensures
        !admits(decls, method, caller),
{
}

/// Law: withdrawing a subscription that was just added restores the
/// subscriptions as they were.
pub proof fn lemma_unsubscribe_undoes_subscribe(
    b0: Broker,
    b1: Broker,
    b2: Broker,
    service: Seq<char>,
    prefix: Seq<char>,
)
    requires
        !b0.subscribed(service, prefix),
        forall|s: Seq<char>, p: Seq<char>|
            #[trigger] b1.subscribed(s, p) == (b0.subscribed(s, p) || (s == service && p == prefix)),
        forall|s: Seq<char>, p: Seq<char>|
            #[trigger] b2.subscribed(s, p) == (b1.subscribed(s, p) && !(s == service && p == prefix)),
    ensures
        same_subscriptions(b0, b2),
{
    assert forall|s: Seq<char>, p: Seq<char>| #[trigger] b2.subscribed(s, p) == b0.subscribed(s, p) by {
        assert(b1.subscribed(s, p) == (b0.subscribed(s, p) || (s == service && p == prefix)));
    }
}

/// Law: a subscription to a topic catches that topic and every topic below
/// it in the dot-separated hierarchy, and no topic that merely shares its
/// text as a prefix (`video.lib` does not catch `video.library`).
pub proof fn lemma_topic_parent_catches_child(parent: Seq<char>, rest: Seq<char>, sibling: Seq<char>)
    requires
        sibling.len() > 0,
        sibling[0] != '.',
    ensures
        topic_matches(parent, parent),
        topic_matches(parent.push('.') + rest, parent),
        !topic_matches(parent + sibling, parent),
{
    let t = parent.push('.') + rest;
    assert(t.subrange(0, parent.len() + 1 as int) =~= parent.push('.'));
    let u = parent + sibling;
    assert(u.len() != parent.len());
    if has_prefix(u, parent.push('.')) {
        assert(u[parent.len() as int] == sibling[0]);
        assert(u.subrange(0, (parent.len() + 1) as int)[parent.len() as int] == parent.push('.')[parent.len() as int]);
    }
}

/// Law: a service wants an event's topic exactly when one of its
/// subscriptions catches that topic: fan-out delivers an event to a
/// subscriber whose prefix matches it, and to no other.
pub proof fn lemma_wants_iff_matching_subscription(b: Broker, service: Seq<char>, topic: Seq<char>, prefix: Seq<char>)
    ensures
        b.subscribed(service, prefix) && topic_matches(topic, prefix) ==> b.wants(service, topic),
        b.wants(service, topic) ==> exists|p: Seq<char>| #[trigger] b.subscribed(service, p) && topic_matches(topic, p),
{
    let subs = b.subscriptions@;
    if b.subscribed(service, prefix) && topic_matches(topic, prefix) {
        let i = choose|i: int| 0 <= i < subs.len() && (#[trigger] subs[i]).0@ == service && list_has(subs[i].1@, prefix);
        let j = choose|j: int| 0 <= j < subs[i].1@.len() && (#[trigger] subs[i].1@[j])@ == prefix;
        assert(topic_matches(topic, subs[i].1@[j]@));
        assert(list_catches(subs[i].1@, topic));
    }
    if b.wants(service, topic) {
        let i = choose|i: int| 0 <= i < subs.len() && (#[trigger] subs[i]).0@ == service && list_catches(subs[i].1@, topic);
        let j = choose|j: int| 0 <= j < subs[i].1@.len() && topic_matches(topic, (#[trigger] subs[i].1@[j])@);
        let p = subs[i].1@[j]@;
        assert(list_has(subs[i].1@, p));
        assert(b.subscribed(service, p));
    }
}

} // verus!
