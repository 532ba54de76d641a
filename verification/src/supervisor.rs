//! Process supervision decisions: which apps are registered, how a spawn is
//! set up, and how long to wait before respawning a resident app.

use dashmap::DashMap;
use std::time::Duration;
use vstd::prelude::*;

use crate::broker::duplicate_strings;
use crate::frame::BusError;
use crate::std_extra::{duration_as_millis, duration_from_millis, duration_ms, duration_nanos, millis_nanos};
use crate::text::{decimal, u64_to_decimal};

verus! {

/// Lifecycle policy of a supervised app.
#[derive(Debug, Clone)]
pub enum Lifecycle {
    /// Started with the broker; respawned after exiting, with backoff.
    Resident,
    /// Spawned on first call; the app exits by itself after being idle for
    /// `idle_timeout` (passed to it in `TOKIMO_BUS_IDLE_MS`).
    OnDemand {
        /// Idle threshold propagated to the app.
        idle_timeout: Duration,
    },
}

/// Definition of a supervised app.
#[derive(Debug, Clone)]
pub struct AppSpec {
    /// Service name, as the app's `Hello` announces it.
    pub service: String,
    /// Path to the app binary.
    pub binary: String,
    /// Extra command-line arguments.
    pub args: Vec<String>,
    /// Extra environment variables, after the bus variables.
    pub env: Vec<(String, String)>,
    /// When and how to start.
    pub lifecycle: Lifecycle,
}

/// What an app definition says, as plain values.
pub struct AppSpecView {
    /// Service name.
    pub service: Seq<char>,
    /// Binary path.
    pub binary: Seq<char>,
    /// Arguments.
    pub args: Seq<String>,
    /// Extra environment.
    pub env: Seq<(String, String)>,
    /// Lifecycle policy.
    pub lifecycle: Lifecycle,
}

impl View for AppSpec {
    type V = AppSpecView;

    open spec fn view(&self) -> AppSpecView {
        AppSpecView {
            service: self.service@,
            binary: self.binary@,
            args: self.args@,
            env: self.env@,
            lifecycle: self.lifecycle,
        }
    }
}

impl Lifecycle {
    /// An equal copy of this policy.
    pub fn duplicate(&self) -> (r: Lifecycle)
        ensures
            r == *self,
    {
        match self {
            Lifecycle::Resident => Lifecycle::Resident,
            Lifecycle::OnDemand { idle_timeout } => Lifecycle::OnDemand { idle_timeout: idle_timeout.clone() },
        }
    }
}

/// An equal copy of a list of string pairs.
pub fn duplicate_pairs(v: &Vec<(String, String)>) -> (r: Vec<(String, String)>)
    ensures
        r@ == v@,
{
    let mut out: Vec<(String, String)> = Vec::new();
    let mut i: usize = 0;
    while i < v.len()
        invariant
            i <= v@.len(),
            out@ == v@.subrange(0, i as int),
        decreases v@.len() - i,
    {
        let pair = (v[i].0.clone(), v[i].1.clone());
        out.push(pair);
        i = i + 1;
        assert(out@ =~= v@.subrange(0, i as int));
    }
    assert(v@.subrange(0, v@.len() as int) =~= v@);
    out
}

impl AppSpec {
    /// A copy of this definition that says the same.
    pub fn duplicate(&self) -> (r: AppSpec)
        ensures
            r@ == self@,
    {
        AppSpec {
            service: self.service.clone(),
            binary: self.binary.clone(),
            args: duplicate_strings(&self.args),
            env: duplicate_pairs(&self.env),
            lifecycle: self.lifecycle.duplicate(),
        }
    }
}

/// Longest respawn delay: 5 minutes.
pub const MAX_BACKOFF_MS: u64 = 300000;

/// First respawn delay: 1 second.
pub const INITIAL_BACKOFF_MS: u64 = 1000;

/// Exponential respawn backoff: 1 s, 2 s, 4 s, ... capped at 5 min.
#[derive(Debug, Clone, Copy, PartialEq, Eq, Structural)]
pub struct Backoff {
    next_ms: u64,
}

impl Backoff {
    /// The delay the next `bump` hands out, in milliseconds.
    pub closed spec fn next_ms(&self) -> u64 {
        self.next_ms
    }

    /// The delay stays between 1 s and 5 min.
    pub closed spec fn wf(&self) -> bool {
        INITIAL_BACKOFF_MS <= self.next_ms <= MAX_BACKOFF_MS
    }

    /// A backoff that starts over: its next delay is 1 s.
    pub closed spec fn fresh() -> Backoff {
        Backoff { next_ms: INITIAL_BACKOFF_MS }
    }

    /// What a fresh backoff holds.
    pub proof fn lemma_fresh()
        ensures
            Self::fresh().wf(),
            Self::fresh().next_ms() == INITIAL_BACKOFF_MS,
    {
    }

    /// A fresh backoff: the first delay is 1 s.
    pub fn new() -> (b: Backoff)
        ensures
            b.wf(),
            b.next_ms() == INITIAL_BACKOFF_MS,
            b == Self::fresh(),
    {
        Backoff { next_ms: INITIAL_BACKOFF_MS }
    }

    /// Hands out the current delay and doubles the next one, up to 5 min.
    pub fn bump(&mut self) -> (d: Duration)
        requires
            old(self).wf(),
        ensures
            final(self).wf(),
            duration_nanos(d) == millis_nanos(old(self).next_ms() as nat),
            final(self).next_ms() == (if 2 * old(self).next_ms() < MAX_BACKOFF_MS {
                2 * old(self).next_ms()
            } else {
                MAX_BACKOFF_MS as int
            }),
    {
        let d = self.next_ms;
        self.next_ms = if d < MAX_BACKOFF_MS / 2 {
            d * 2
        } else {
            MAX_BACKOFF_MS
        };
        duration_from_millis(d)
    }

    /// Starts over at 1 s.
    pub fn reset(&mut self)
        ensures
            *final(self) == Self::fresh(),
            final(self).wf(),
            final(self).next_ms() == INITIAL_BACKOFF_MS,
    {
        self.next_ms = INITIAL_BACKOFF_MS;
    }
}

/// The delay of the `k`-th respawn (counting from 0) after a fresh or reset
/// backoff, in milliseconds.
pub open spec fn backoff_delay(k: nat) -> nat
    decreases k,
{
    if k == 0 {
        INITIAL_BACKOFF_MS as nat
    } else {
        let prev = backoff_delay((k - 1) as nat);
        if 2 * prev < MAX_BACKOFF_MS {
            2 * prev
        } else {
            MAX_BACKOFF_MS as nat
        }
    }
}

/// Law: successive respawn delays are 1 s, 2 s, 4 s, ..., 256 s, and from the
/// tenth on always 5 minutes; none is shorter than 1 s or longer than 5 min.
pub proof fn lemma_backoff_schedule(k: nat)
    ensures
        INITIAL_BACKOFF_MS <= backoff_delay(k) <= MAX_BACKOFF_MS,
        k >= 9 ==> backoff_delay(k) == MAX_BACKOFF_MS,
        k <= 8 ==> backoff_delay(k) == 1000 * vstd::arithmetic::power2::pow2(k),
    decreases k,
{
    if k > 0 {
        lemma_backoff_schedule((k - 1) as nat);
        vstd::arithmetic::power2::lemma_pow2_unfold(k);
        if k <= 8 {
            vstd::arithmetic::power2::lemma_pow2_strictly_increases(k, 9);
            vstd::arithmetic::power2::lemma2_to64();
        }
        if k == 9 {
            vstd::arithmetic::power2::lemma2_to64();
        }
    } else {
        vstd::arithmetic::power2::lemma2_to64();
    }
}

/// Law: a bump hands out the delay of the current step and moves to the
/// next step of the schedule.
pub proof fn lemma_bump_follows_schedule(before: Backoff, after: Backoff, d: Duration, k: nat)
    requires
        before.wf(),
        before.next_ms() == backoff_delay(k),
        duration_nanos(d) == millis_nanos(before.next_ms() as nat),
        after.next_ms() == (if 2 * before.next_ms() < MAX_BACKOFF_MS {
            2 * before.next_ms()
        } else {
            MAX_BACKOFF_MS as int
        }),
    ensures
        duration_nanos(d) == millis_nanos(backoff_delay(k)),
        after.next_ms() == backoff_delay(k + 1),
{
}

} // verus!

verus! {

/// A registered app: its definition and its respawn backoff.
pub struct AppRecord {
    /// The app's definition.
    pub spec: AppSpec,
    /// Respawn backoff of a resident app.
    pub backoff: Backoff,
}

/// What a registered app's record says.
pub struct RecordView {
    /// The app's definition.
    pub spec: AppSpecView,
    /// Its respawn backoff.
    pub backoff: Backoff,
}

impl View for AppRecord {
    type V = RecordView;

    open spec fn view(&self) -> RecordView {
        RecordView { spec: self.spec@, backoff: self.backoff }
    }
}

impl AppRecord {
    /// A copy of this record that says the same.
    pub fn duplicate(&self) -> (r: AppRecord)
        ensures
            r@ == self@,
    {
        AppRecord { spec: self.spec.duplicate(), backoff: self.backoff }
    }
}

/// The supervisor's table of registered apps.
pub type AppMap = DashMap<String, AppRecord>;

/// An app table with no apps.
pub open spec fn no_apps() -> Map<Seq<char>, RecordView> {
    Map::empty()
}

/// What the app table holds: service name to record.
pub uninterp spec fn apps_of(m: AppMap) -> Map<Seq<char>, RecordView>;

/// `DashMap::new`: a map with no entries.
#[verifier::external_body]
fn apps_new() -> (m: AppMap)
    ensures
        apps_of(m) == no_apps(),
{
    DashMap::new()
}

/// `DashMap::insert`: the key maps to the value, other keys unchanged.
#[verifier::external_body]
fn apps_insert(m: &mut AppMap, k: String, v: AppRecord)
    ensures
        apps_of(*final(m)) == apps_of(*old(m)).insert(k@, v@),
{
    m.insert(k, v);
}

/// `DashMap::get`: the record stored under the key, copied out.
#[verifier::external_body]
fn apps_get(m: &AppMap, k: &str) -> (r: Option<AppRecord>)
    ensures
        r is Some == apps_of(*m).dom().contains(k@),
        r is Some ==> r->Some_0@ == apps_of(*m)[k@],
{
    m.get(k).map(|e| e.value().duplicate())
}

/// `DashMap::remove`: the key no longer maps to anything.
#[verifier::external_body]
fn apps_remove(m: &mut AppMap, k: &str)
    ensures
        apps_of(*final(m)) == apps_of(*old(m)).remove(k@),
{
    m.remove(k);
}

/// `DashMap::iter`: every key once, in the map's own order.
#[verifier::external_body]
fn apps_keys(m: &AppMap) -> (r: Vec<String>)
    ensures
        forall|i: int| 0 <= i < r@.len() ==> apps_of(*m).dom().contains(#[trigger] r@[i]@),
        forall|i: int, j: int| 0 <= i < j < r@.len() ==> #[trigger] r@[i]@ != #[trigger] r@[j]@,
        forall|k: Seq<char>|
            #[trigger] apps_of(*m).dom().contains(k) ==> exists|i: int|
                0 <= i < r@.len() && #[trigger] r@[i]@ == k,
{
    m.iter().map(|e| e.key().clone()).collect()
}

/// The idle threshold, in whole milliseconds, that an app of this policy is
/// told (0 for a resident app, which never idles out).
pub open spec fn idle_ms_of(l: Lifecycle) -> u64 {
    match l {
        Lifecycle::OnDemand { idle_timeout } => duration_ms(idle_timeout) as u64,
        Lifecycle::Resident => 0,
    }
}

/// The environment a spawned app gets: the broker socket, its spawn token,
/// its idle threshold in ms, then its own extra variables.
pub open spec fn spawn_env_spec(socket_path: Seq<char>, token: Seq<char>, spec: AppSpecView) -> Seq<
    (Seq<char>, Seq<char>),
> {
    seq![
        ("TOKIMO_BUS_SOCKET"@, socket_path),
        ("TOKIMO_BUS_TOKEN"@, token),
        ("TOKIMO_BUS_IDLE_MS"@, decimal(idle_ms_of(spec.lifecycle) as nat)),
    ] + spec.env.map_values(|p: (String, String)| (p.0@, p.1@))
}

/// How to start an app process.
pub struct SpawnPlan {
    /// Binary to run.
    pub binary: String,
    /// Its arguments.
    pub args: Vec<String>,
    /// Its environment variables, in the order they are set.
    pub env: Vec<(String, String)>,
}

/// The process supervisor's state: where the broker listens, and the
/// registered apps.
pub struct Supervisor {
    socket_path: String,
    apps: AppMap,
}

/// Law: the idle threshold a supervisor hands an app in
/// `TOKIMO_BUS_IDLE_MS` reads back, on the app's side, as the same number
/// of milliseconds.
pub proof fn lemma_idle_threshold_handoff(l: Lifecycle)
    ensures
        crate::text::parse_u64_spec(decimal(idle_ms_of(l) as nat)) == Some(idle_ms_of(l)),
{
    crate::text::lemma_parse_decimal_roundtrip(idle_ms_of(l));
}

impl Supervisor {
    /// Registered apps.
    pub closed spec fn apps_view(&self) -> Map<Seq<char>, RecordView> {
        apps_of(self.apps)
    }

    /// Every registered app's backoff is within its bounds.
    pub closed spec fn wf(&self) -> bool {
        forall|k: Seq<char>| #[trigger] apps_of(self.apps).dom().contains(k) ==> apps_of(self.apps)[k].backoff.wf()
    }

    /// The broker socket path handed to spawned apps.
    pub closed spec fn socket_path_view(&self) -> Seq<char> {
        self.socket_path@
    }

    /// A supervisor with no apps, for a broker listening at `socket_path`.
    pub fn new(socket_path: String) -> (s: Supervisor)
        ensures
            s.wf(),
            s.apps_view() == no_apps(),
            s.socket_path_view() == socket_path@,
    {
        Supervisor { socket_path, apps: apps_new() }
    }

    /// Registers an app (replacing any earlier definition) with a fresh
    /// backoff. It is not started.
    pub fn register(&mut self, spec: AppSpec)
        requires
            old(self).wf(),
        ensures
            final(self).wf(),
            final(self).apps_view() == old(self).apps_view().insert(
                spec.service@,
                RecordView { spec: spec@, backoff: Backoff::fresh() },
            ),
            final(self).socket_path_view() == old(self).socket_path_view(),
    {
        let key = spec.service.clone();
        apps_insert(&mut self.apps, key, AppRecord { spec, backoff: Backoff::new() });
    }

    /// Every registered resident app, each once.
    pub fn resident_services(&self) -> (r: Vec<String>)
        ensures
            forall|i: int|
                0 <= i < r@.len() ==> self.apps_view().dom().contains(#[trigger] r@[i]@)
                    && self.apps_view()[r@[i]@].spec.lifecycle is Resident,
            forall|i: int, j: int| 0 <= i < j < r@.len() ==> #[trigger] r@[i]@ != #[trigger] r@[j]@,
            forall|k: Seq<char>|
                #[trigger] self.apps_view().dom().contains(k) && self.apps_view()[k].spec.lifecycle is Resident
                    ==> exists|i: int| 0 <= i < r@.len() && #[trigger] r@[i]@ == k,
    {
        let keys = apps_keys(&self.apps);
        let mut out: Vec<String> = Vec::new();
        let mut i: usize = 0;
        while i < keys.len()
            invariant
                i <= keys@.len(),
                forall|a: int| 0 <= a < keys@.len() ==> self.apps_view().dom().contains(#[trigger] keys@[a]@),
                forall|a: int, b: int| 0 <= a < b < keys@.len() ==> #[trigger] keys@[a]@ != #[trigger] keys@[b]@,
                forall|a: int|
                    0 <= a < out@.len() ==> self.apps_view().dom().contains(#[trigger] out@[a]@)
                        && self.apps_view()[out@[a]@].spec.lifecycle is Resident && exists|b: int|
                        0 <= b < i && #[trigger] keys@[b]@ == out@[a]@,
                forall|a: int, b: int| 0 <= a < b < out@.len() ==> #[trigger] out@[a]@ != #[trigger] out@[b]@,
                forall|b: int|
                    0 <= b < i && self.apps_view()[(#[trigger] keys@[b])@].spec.lifecycle is Resident
                        ==> exists|a: int| 0 <= a < out@.len() && #[trigger] out@[a]@ == keys@[b]@,
            decreases keys@.len() - i,
        {
            let ghost prev = out@;
            match apps_get(&self.apps, keys[i].as_str()) {
                Some(rec) => {
                    if let Lifecycle::Resident = rec.spec.lifecycle {
                        out.push(keys[i].clone());
                        proof {
                            assert forall|a: int, b: int| 0 <= a < b < out@.len() implies #[trigger] out@[a]@
                                != #[trigger] out@[b]@ by {
                                if b == out@.len() - 1 {
                                    assert(out@[a] == prev[a]);
                                    let c = choose|c: int| 0 <= c < i && #[trigger] keys@[c]@ == prev[a]@;
                                } else {
                                    assert(out@[a] == prev[a] && out@[b] == prev[b]);
                                }
                            }
                        }
                    }
                },
                None => {},
            }
            proof {
                assert forall|a: int|
                    0 <= a < out@.len() implies self.apps_view().dom().contains(#[trigger] out@[a]@)
                        && self.apps_view()[out@[a]@].spec.lifecycle is Resident && exists|b: int|
                        0 <= b < i + 1 && #[trigger] keys@[b]@ == out@[a]@ by {
                    if a < prev.len() {
                        assert(out@[a] == prev[a]);
                        let c = choose|c: int| 0 <= c < i && #[trigger] keys@[c]@ == prev[a]@;
                    } else {
                        assert(keys@[i as int]@ == out@[a]@);
                    }
                }
                assert forall|b: int|
                    0 <= b < i + 1 && self.apps_view()[(#[trigger] keys@[b])@].spec.lifecycle is Resident
                        implies exists|a: int| 0 <= a < out@.len() && #[trigger] out@[a]@ == keys@[b]@ by {
                    if b < i {
                        let a = choose|a: int| 0 <= a < prev.len() && #[trigger] prev[a]@ == keys@[b]@;
                        assert(out@[a] == prev[a]);
                    } else {
                        assert(out@[out@.len() - 1]@ == keys@[b]@);
                    }
                }
            }
            i = i + 1;
        }
        proof {
            assert forall|k: Seq<char>|
                #[trigger] self.apps_view().dom().contains(k) && self.apps_view()[k].spec.lifecycle is Resident
                    implies exists|a: int| 0 <= a < out@.len() && #[trigger] out@[a]@ == k by {
                let b = choose|b: int| 0 <= b < keys@.len() && #[trigger] keys@[b]@ == k;
            }
        }
        out
    }
}

} // verus!

verus! {

/// What replacing an app's definition asks of the host.
pub struct Replacement {
    /// An earlier definition was registered: stop its process first.
    pub stop_old: bool,
    /// The new definition is resident: start its respawn loop.
    pub start_resident: bool,
}

impl Supervisor {
    /// Registers `spec` in place of any earlier definition of the service
    /// (whose process the host stops), with a fresh backoff; a resident app
    /// is started by the host.
    pub fn register_or_replace(&mut self, spec: AppSpec) -> (r: Replacement)
        requires
            old(self).wf(),
        ensures
            final(self).wf(),
            r.stop_old == old(self).apps_view().dom().contains(spec.service@),
            r.start_resident == spec.lifecycle is Resident,
            final(self).apps_view() == old(self).apps_view().insert(
                spec.service@,
                RecordView { spec: spec@, backoff: Backoff::fresh() },
            ),
            final(self).socket_path_view() == old(self).socket_path_view(),
    {
        let stop_old = apps_get(&self.apps, spec.service.as_str()).is_some();
        if stop_old {
            apps_remove(&mut self.apps, spec.service.as_str());
        }
        let start_resident = match spec.lifecycle {
            Lifecycle::Resident => true,
            Lifecycle::OnDemand { .. } => false,
        };
        let ghost removed = self.apps_view();
        self.register(spec);
        proof {
            assert(removed.insert(spec.service@, RecordView { spec: spec@, backoff: Backoff::fresh() })
                =~= old(self).apps_view().insert(
                spec.service@,
                RecordView { spec: spec@, backoff: Backoff::fresh() },
            ));
        }
        Replacement { stop_old, start_resident }
    }

    /// Withdraws an app's definition, so it is no longer started; the host
    /// stops its process. An unknown service is `ServiceNotFound`.
    pub fn unregister(&mut self, service: &str) -> (r: Result<(), BusError>)
        requires
            old(self).wf(),
        ensures
            final(self).wf(),
            old(self).apps_view().dom().contains(service@) ==> r is Ok && final(self).apps_view()
                == old(self).apps_view().remove(service@),
            !old(self).apps_view().dom().contains(service@) ==> (r matches Err(BusError::ServiceNotFound(s))
                && s@ == service@) && final(self).apps_view() == old(self).apps_view(),
            final(self).socket_path_view() == old(self).socket_path_view(),
    {
        if apps_get(&self.apps, service).is_none() {
            return Err(BusError::ServiceNotFound(String::from_str(service)));
        }
        apps_remove(&mut self.apps, service);
        Ok(())
    }

    /// Whether `ensure_up` must spawn the app: an unknown service is
    /// `ServiceNotFound`; a running one needs nothing.
    pub fn needs_spawn(&self, service: &str, running: bool) -> (r: Result<bool, BusError>)
        ensures
            !self.apps_view().dom().contains(service@) ==> (r matches Err(BusError::ServiceNotFound(s))
                && s@ == service@),
            self.apps_view().dom().contains(service@) ==> r == Ok::<bool, BusError>(!running),
    {
        if apps_get(&self.apps, service).is_none() {
            return Err(BusError::ServiceNotFound(String::from_str(service)));
        }
        Ok(!running)
    }

    /// How to start the app of `service`, which is handed `token`: its
    /// binary and arguments, and an environment naming the broker socket,
    /// the token and the idle threshold, followed by its own variables.
    pub fn spawn_plan(&self, service: &str, token: String) -> (r: Result<SpawnPlan, BusError>)
        ensures
            !self.apps_view().dom().contains(service@) ==> (r matches Err(BusError::ServiceNotFound(s))
                && s@ == service@),
            self.apps_view().dom().contains(service@) ==> ({
                let spec = self.apps_view()[service@].spec;
                &&& r matches Ok(plan)
                &&& plan.binary@ == spec.binary
                &&& plan.args@ == spec.args
                &&& plan.env@.map_values(|p: (String, String)| (p.0@, p.1@)) == spawn_env_spec(
                    self.socket_path_view(),
                    token@,
                    spec,
                )
            }),
    {
        let rec = match apps_get(&self.apps, service) {
            Some(rec) => rec,
            None => {
                return Err(BusError::ServiceNotFound(String::from_str(service)));
            },
        };
        let idle_ms: u64 = match &rec.spec.lifecycle {
            Lifecycle::OnDemand { idle_timeout } => duration_as_millis(idle_timeout) as u64,
            Lifecycle::Resident => 0,
        };
        let ghost extra = rec.spec.env@;
        let mut env: Vec<(String, String)> = Vec::new();
        env.push((String::from_str("TOKIMO_BUS_SOCKET"), self.socket_path.clone()));
        env.push((String::from_str("TOKIMO_BUS_TOKEN"), token));
        env.push((String::from_str("TOKIMO_BUS_IDLE_MS"), u64_to_decimal(idle_ms)));
        let ghost head = env@;
        let mut i: usize = 0;
        while i < rec.spec.env.len()
            invariant
                i <= extra.len(),
                extra == rec.spec.env@,
                env@ == head + extra.subrange(0, i as int),
            decreases extra.len() - i,
        {
            let pair = (rec.spec.env[i].0.clone(), rec.spec.env[i].1.clone());
            env.push(pair);
            i = i + 1;
            assert(env@ =~= head + extra.subrange(0, i as int));
        }
        proof {
            assert(extra.subrange(0, extra.len() as int) =~= extra);
            let f = |p: (String, String)| (p.0@, p.1@);
            assert(env@.map_values(f) =~= spawn_env_spec(self.socket_path_view(), token@, rec.spec@));
        }
        Ok(SpawnPlan { binary: rec.spec.binary, args: rec.spec.args, env })
    }

    /// After a failed spawn of a resident app: the delay before the next
    /// attempt (from its backoff, which moves on), or `None` if the app is no
    /// longer registered and its loop ends.
    pub fn after_spawn_failure(&mut self, service: &str) -> (r: Option<Duration>)
        requires
            old(self).wf(),
        ensures
            final(self).wf(),
            !old(self).apps_view().dom().contains(service@) ==> r is None && final(self).apps_view() == old(self).apps_view(),
            old(self).apps_view().dom().contains(service@) ==> ({
                let before = old(self).apps_view()[service@];
                &&& r is Some
                &&& duration_nanos(r->Some_0) == millis_nanos(before.backoff.next_ms() as nat)
                &&& final(self).apps_view().dom() == old(self).apps_view().dom()
                &&& final(self).apps_view()[service@].spec == before.spec
                &&& final(self).apps_view()[service@].backoff.next_ms() == (if 2 * before.backoff.next_ms()
                    < MAX_BACKOFF_MS {
                    2 * before.backoff.next_ms()
                } else {
                    MAX_BACKOFF_MS as int
                })
                &&& forall|k: Seq<char>| k != service@ && #[trigger] old(self).apps_view().dom().contains(k)
                    ==> final(self).apps_view()[k] == old(self).apps_view()[k]
            }),
            final(self).socket_path_view() == old(self).socket_path_view(),
    {
        let mut rec = match apps_get(&self.apps, service) {
            Some(rec) => rec,
            None => {
                return None;
            },
        };
        let d = rec.backoff.bump();
        apps_insert(&mut self.apps, String::from_str(service), rec);
        proof {
            assert(self.apps_view().dom() =~= old(self).apps_view().dom());
        }
        Some(d)
    }

    /// After a resident app's process exited: a clean exit resets its
    /// backoff; either way the delay before the respawn comes from the
    /// backoff, which moves on. `None` if the app is no longer registered.
    pub fn after_exit(&mut self, service: &str, clean: bool) -> (r: Option<Duration>)
        requires
            old(self).wf(),
        ensures
            final(self).wf(),
            !old(self).apps_view().dom().contains(service@) ==> r is None && final(self).apps_view() == old(self).apps_view(),
            old(self).apps_view().dom().contains(service@) ==> ({
                let before = old(self).apps_view()[service@];
                let cur: u64 = if clean { INITIAL_BACKOFF_MS } else { before.backoff.next_ms() };
                &&& r is Some
                &&& duration_nanos(r->Some_0) == millis_nanos(cur as nat)
                &&& final(self).apps_view().dom() == old(self).apps_view().dom()
                &&& final(self).apps_view()[service@].spec == before.spec
                &&& final(self).apps_view()[service@].backoff.next_ms() == (if 2 * cur < MAX_BACKOFF_MS {
                    2 * cur
                } else {
                    MAX_BACKOFF_MS as int
                })
                &&& forall|k: Seq<char>| k != service@ && #[trigger] old(self).apps_view().dom().contains(k)
                    ==> final(self).apps_view()[k] == old(self).apps_view()[k]
            }),
            final(self).socket_path_view() == old(self).socket_path_view(),
    {
        let mut rec = match apps_get(&self.apps, service) {
            Some(rec) => rec,
            None => {
                return None;
            },
        };
        if clean {
            rec.backoff.reset();
        }
        let d = rec.backoff.bump();
        apps_insert(&mut self.apps, String::from_str(service), rec);
        proof {
            assert(self.apps_view().dom() =~= old(self).apps_view().dom());
        }
        Some(d)
    }
}

/// Law: whatever its lifecycle, an app is spawned with the broker socket,
/// its token and its idle threshold, followed by every one of its own
/// environment variables, in order and unchanged.
pub proof fn lemma_spawn_env_keeps_app_env(socket_path: Seq<char>, token: Seq<char>, spec: AppSpecView)
    ensures
        spawn_env_spec(socket_path, token, spec).len() == 3 + spec.env.len(),
        spawn_env_spec(socket_path, token, spec)[0] == ("TOKIMO_BUS_SOCKET"@, socket_path),
        spawn_env_spec(socket_path, token, spec)[1] == ("TOKIMO_BUS_TOKEN"@, token),
        spawn_env_spec(socket_path, token, spec)[2].0 == "TOKIMO_BUS_IDLE_MS"@,
        forall|k: int|
            0 <= k < spec.env.len() ==> #[trigger] spawn_env_spec(socket_path, token, spec)[3 + k] == (
                spec.env[k].0@,
                spec.env[k].1@,
            ),
{
}

} // verus!
