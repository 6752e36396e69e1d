//! Per-server tables kept in `dashmap::DashMap`, the sharded concurrent
//! map, keyed by server address. Each table's contents are named by a spec
//! function, and each map operation the library uses is a wrapper whose
//! contract states what it does to those contents.

use vstd::prelude::*;
use dashmap::DashMap;
use crate::addr::SocketAddress;
use crate::health::ServerHealth;

verus! {

#[verifier::external_type_specification]
#[verifier::external_body]
#[verifier::reject_recursive_types(K)]
#[verifier::reject_recursive_types(V)]
#[verifier::reject_recursive_types(S)]
pub struct ExDashMap<K, V, S>(DashMap<K, V, S>);

/// A table of open connections per server.
pub type CountTable = DashMap<SocketAddress, u32>;

/// What a connection-count table holds: server address to open connections.
pub uninterp spec fn count_entries(m: CountTable) -> Map<SocketAddress, u32>;

/// Relies on `DashMap::new`: the new map is empty.
#[verifier::external_body]
pub(crate) fn counts_new() -> (r: CountTable)
    ensures
        count_entries(r).dom() == Set::<SocketAddress>::empty(),
{
    DashMap::new()
}

/// Relies on `DashMap::get`: the value stored under `key`, if any.
#[verifier::external_body]
pub(crate) fn counts_get(m: &CountTable, key: &SocketAddress) -> (r: Option<u32>)
    ensures
        r == (if count_entries(*m).contains_key(*key) {
            Some(count_entries(*m)[*key])
        } else {
            None
        }),
{
    m.get(key).map(|e| *e.value())
}

/// Relies on `DashMap::insert`: `key` maps to `value` afterwards, every other
/// entry is kept.
#[verifier::external_body]
pub(crate) fn counts_insert(m: &mut CountTable, key: SocketAddress, value: u32)
    ensures
        count_entries(*final(m)) == count_entries(*old(m)).insert(key, value),
{
    m.insert(key, value);
}

/// A table of health records per server.
pub type HealthTable = DashMap<SocketAddress, ServerHealth>;

/// What a health table holds: server address to its health record.
pub uninterp spec fn health_entries(m: HealthTable) -> Map<SocketAddress, ServerHealth>;

/// Relies on `DashMap::new`: the new map is empty.
#[verifier::external_body]
pub(crate) fn health_new() -> (r: HealthTable)
    ensures
        health_entries(r).dom() == Set::<SocketAddress>::empty(),
{
    DashMap::new()
}

/// Relies on `DashMap::get`: the record stored under `key`, if any.
#[verifier::external_body]
pub(crate) fn health_get(m: &HealthTable, key: &SocketAddress) -> (r: Option<ServerHealth>)
    ensures
        r == (if health_entries(*m).contains_key(*key) {
            Some(health_entries(*m)[*key])
        } else {
            None
        }),
{
    m.get(key).map(|e| *e.value())
}

/// Relies on `DashMap::insert`: `key` maps to `value` afterwards, every other
/// entry is kept.
#[verifier::external_body]
pub(crate) fn health_insert(m: &mut HealthTable, key: SocketAddress, value: ServerHealth)
    ensures
        health_entries(*final(m)) == health_entries(*old(m)).insert(key, value),
{
    m.insert(key, value);
}

/// Relies on `DashMap::iter`: every entry once, in an order the map picks.
#[verifier::external_body]
pub(crate) fn health_list(m: &HealthTable) -> (r: Vec<(SocketAddress, ServerHealth)>)
    ensures
        forall|i: int|
            0 <= i < r@.len() ==> health_entries(*m).contains_key(#[trigger] r@[i].0)
                && health_entries(*m)[r@[i].0] == r@[i].1,
        forall|i: int, j: int| 0 <= i < j < r@.len() ==> #[trigger] r@[i].0 != #[trigger] r@[j].0,
        forall|a: SocketAddress|
            #[trigger] health_entries(*m).contains_key(a) ==> exists|i: int|
                0 <= i < r@.len() && r@[i].0 == a,
{
    m.iter().map(|e| (*e.key(), *e.value())).collect()
}

} // verus!
