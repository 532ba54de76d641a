//! The concurrent map type that the registry, the broker and the supervisor
//! keep their tables in. Each table's module names the map's contents and
//! wraps the map's methods with contracts over that name.

use vstd::prelude::*;

verus! {

/// `dashmap::DashMap`, carried opaquely; its contents are named per table.
#[verifier::external_type_specification]
#[verifier::external_body]
#[verifier::reject_recursive_types(K)]
#[verifier::reject_recursive_types(V)]
#[verifier::reject_recursive_types(S)]
pub struct ExDashMap<K, V, S>(dashmap::DashMap<K, V, S>);

} // verus!
