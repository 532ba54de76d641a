//! Service registry: maps a service name to the entry of its current
//! connection, each registration stamped with a fresh generation.

use dashmap::DashMap;
use vstd::prelude::*;

use crate::frame::{
    duplicate_methods, duplicate_opt_socket, DataPlaneSocket, MethodDecl,
};

verus! {

/// A single registered service connection.
#[derive(Debug, Clone)]
pub struct ServiceEntry {
    /// Service name (the registry key).
    pub service: String,
    /// Registration stamp, increasing with each registration.
    pub generation: u64,
    /// Methods the app declared in its `Hello`.
    pub methods: Vec<MethodDecl>,
    /// Process id, informational.
    pub pid: u32,
    /// Data-plane socket the app declared, if any.
    pub data_plane: Option<DataPlaneSocket>,
}

/// What a registry entry says, as plain values.
pub struct EntryView {
    /// Service name.
    pub service: Seq<char>,
    /// Registration stamp.
    pub generation: u64,
    /// Declared methods.
    pub methods: Seq<MethodDecl>,
    /// Process id.
    pub pid: u32,
    /// Declared data-plane socket.
    pub data_plane: Option<DataPlaneSocket>,
}

impl View for ServiceEntry {
    type V = EntryView;

    open spec fn view(&self) -> EntryView {
        EntryView {
            service: self.service@,
            generation: self.generation,
            methods: self.methods@,
            pid: self.pid,
            data_plane: self.data_plane,
        }
    }
}

impl ServiceEntry {
    /// A copy of this entry that says the same.
    pub fn duplicate(&self) -> (r: ServiceEntry)
        ensures
            r@ == self@,
    {
        let methods = duplicate_methods(&self.methods);
        assert(methods@ =~= self.methods@);
        ServiceEntry {
            service: self.service.clone(),
            generation: self.generation,
            methods,
            pid: self.pid,
            data_plane: duplicate_opt_socket(&self.data_plane),
        }
    }
}

/// `entry` stamped with generation `g`.
pub open spec fn stamped(entry: EntryView, g: u64) -> EntryView {
    EntryView { generation: g, ..entry }
}

/// The registry's concurrent table.
pub type EntryMap = DashMap<String, ServiceEntry>;

/// A table with no entries.
pub open spec fn no_entries() -> Map<Seq<char>, EntryView> {
    Map::empty()
}

/// What the registry's map holds, key by key.
pub uninterp spec fn entries_of(m: EntryMap) -> Map<Seq<char>, EntryView>;

/// `DashMap::new`: a map with no entries.
#[verifier::external_body]
fn entries_new() -> (m: EntryMap)
    ensures
        entries_of(m) == no_entries(),
{
    DashMap::new()
}

/// `DashMap::insert`: after the call the key maps to the value, other keys
/// are unchanged.
#[verifier::external_body]
fn entries_insert(m: &mut EntryMap, k: String, v: ServiceEntry)
    ensures
        entries_of(*final(m)) == entries_of(*old(m)).insert(k@, v@),
{
    m.insert(k, v);
}

/// `DashMap::get`: the value stored under the key, copied out.
#[verifier::external_body]
fn entries_get(m: &EntryMap, k: &str) -> (r: Option<ServiceEntry>)
    ensures
        r is Some == entries_of(*m).dom().contains(k@),
        r is Some ==> r->Some_0@ == entries_of(*m)[k@],
{
    m.get(k).map(|e| e.duplicate())
}

/// `DashMap::remove`: the key no longer maps to anything.
#[verifier::external_body]
fn entries_remove(m: &mut EntryMap, k: &str)
    ensures
        entries_of(*final(m)) == entries_of(*old(m)).remove(k@),
{
    m.remove(k);
}

/// `DashMap::iter`: every stored value once, in the map's own order.
#[verifier::external_body]
fn entries_values(m: &EntryMap) -> (r: Vec<(String, ServiceEntry)>)
    ensures
        forall|i: int|
            0 <= i < r@.len() ==> entries_of(*m).dom().contains(#[trigger] r@[i].0@) && entries_of(
                *m,
            )[r@[i].0@] == r@[i].1@,
        forall|i: int, j: int| 0 <= i < j < r@.len() ==> #[trigger] r@[i].0@ != #[trigger] r@[j].0@,
        forall|k: Seq<char>|
            #[trigger] entries_of(*m).dom().contains(k) ==> exists|i: int|
                0 <= i < r@.len() && #[trigger] r@[i].0@ == k,
{
    m.iter().map(|e| (e.key().clone(), e.value().duplicate())).collect()
}

/// In-memory registry of connected services.
pub struct Registry {
    entries: EntryMap,
    next_gen: u64,
}

impl Registry {
    /// The registry's contents: service name to entry.
    pub closed spec fn view(&self) -> Map<Seq<char>, EntryView> {
        entries_of(self.entries)
    }

    /// The last generation handed out (0 before the first registration).
    pub closed spec fn last_generation(&self) -> u64 {
        self.next_gen
    }

    /// Every entry is filed under its own service name and carries a
    /// generation already handed out; the table is finite.
    pub closed spec fn wf(&self) -> bool {
        &&& entries_of(self.entries).dom().finite()
        &&& forall|k: Seq<char>|
            #[trigger] entries_of(self.entries).dom().contains(k) ==> entries_of(self.entries)[k].service
                == k && 1 <= entries_of(self.entries)[k].generation <= self.next_gen
    }

    /// The last generation handed out (0 before the first registration).
    pub fn last_generation_exec(&self) -> (g: u64)
        ensures
            g == self.last_generation(),
    {
        self.next_gen
    }

    /// An empty registry.
    pub fn new() -> (r: Registry)
        ensures
            r.wf(),
            r.view() == no_entries(),
            r.last_generation() == 0,
    {
        Registry { entries: entries_new(), next_gen: 0 }
    }

    /// Register or replace a service entry. Returns the new generation,
    /// one more than the last one handed out.
    pub fn insert(&mut self, entry: ServiceEntry) -> (generation: u64)
        requires
            old(self).wf(),
            old(self).last_generation() < u64::MAX,
        ensures
            final(self).wf(),
            generation == old(self).last_generation() + 1,
            final(self).last_generation() == generation,
            final(self).view() == old(self).view().insert(entry.service@, stamped(entry@, generation)),
    {
        self.next_gen = self.next_gen + 1;
        let generation = self.next_gen;
        let mut entry = entry;
        entry.generation = generation;
        let key = entry.service.clone();
        entries_insert(&mut self.entries, key, entry);
        generation
    }

    /// Look up an entry by service name.
    pub fn get(&self, service: &str) -> (r: Option<ServiceEntry>)
        ensures
            self.view().dom().contains(service@) ==> (r matches Some(e) && e@ == self.view()[service@]),
            !self.view().dom().contains(service@) ==> r is None,
    {
        entries_get(&self.entries, service)
    }

    /// Remove an entry only if its generation still matches, so that a stale
    /// connection cannot evict a freshly registered successor.
    pub fn remove_if(&mut self, service: &str, generation: u64) -> (removed: bool)
        requires
            old(self).wf(),
        ensures
            final(self).wf(),
            final(self).last_generation() == old(self).last_generation(),
            removed == (old(self).view().dom().contains(service@) && old(self).view()[service@].generation
                == generation),
            removed ==> final(self).view() == old(self).view().remove(service@),
            !removed ==> final(self).view() == old(self).view(),
    {
        match entries_get(&self.entries, service) {
            Some(e) => {
                if e.generation == generation {
                    entries_remove(&mut self.entries, service);
                    true
                } else {
                    false
                }
            },
            None => false,
        }
    }

    /// Snapshot of every entry, one per registered service.
    pub fn list(&self) -> (r: Vec<ServiceEntry>)
        requires
            self.wf(),
        ensures
            forall|i: int|
                0 <= i < r@.len() ==> self.view().dom().contains((#[trigger] r@[i]).service@)
                    && self.view()[r@[i].service@] == r@[i]@,
            forall|i: int, j: int|
                0 <= i < j < r@.len() ==> (#[trigger] r@[i]).service@ != (#[trigger] r@[j]).service@,
            forall|k: Seq<char>|
                #[trigger] self.view().dom().contains(k) ==> exists|i: int|
                    0 <= i < r@.len() && #[trigger] r@[i].service@ == k,
    {
        let pairs = entries_values(&self.entries);
        let mut out: Vec<ServiceEntry> = Vec::new();
        let mut i: usize = 0;
        while i < pairs.len()
            invariant
                i <= pairs@.len(),
                out@.len() == i,
                forall|j: int| 0 <= j < i ==> out@[j]@ == (#[trigger] pairs@[j]).1@,
            decreases pairs@.len() - i,
        {
            out.push(pairs[i].1.duplicate());
            i = i + 1;
        }
        proof {
            assert forall|j: int| 0 <= j < out@.len() implies pairs@[j].0@ == (#[trigger] out@[j]).service@ by {
                assert(out@[j]@ == pairs@[j].1@);
            }
            assert forall|k: Seq<char>| #[trigger] self.view().dom().contains(k) implies exists|i: int|
                0 <= i < out@.len() && #[trigger] out@[i].service@ == k by {
                let i = choose|i: int| 0 <= i < pairs@.len() && #[trigger] pairs@[i].0@ == k;
                assert(out@[i]@ == pairs@[i].1@);
            }
        }
        out
    }
}

} // verus!

verus! {

/// Law: a registration's generation exceeds that of every registration
/// before it, so removing by an earlier generation (a stale connection
/// ending) never evicts the newer registration of the same service.
pub proof fn lemma_stale_generation_cannot_evict(
    before: Registry,
    after: Registry,
    entry: ServiceEntry,
    generation: u64,
    stale: u64,
)
    requires
        before.wf(),
        generation == before.last_generation() + 1,
        after.view() == before.view().insert(entry.service@, stamped(entry@, generation)),
        stale <= before.last_generation(),
    ensures
        after.view().dom().contains(entry.service@),
        after.view()[entry.service@].generation == generation,
        after.view()[entry.service@].generation != stale,
        forall|k: Seq<char>|
            #[trigger] before.view().dom().contains(k) ==> before.view()[k].generation < generation,
{
}

} // verus!
