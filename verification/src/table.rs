//! The concurrent tables of the proxy: from a name to the handle filed under it.
//!
//! The tables are [`DashMap`]s. What is stated here of their methods is not
//! proved; it is what the rest of the library rests on.
use vstd::prelude::*;

use dashmap::DashMap;

verus! {

/// Makes [`dashmap::DashMap`] known to the verifier, as an opaque type.
#[verifier::external_type_specification]
#[verifier::external_body]
#[verifier::reject_recursive_types(K)]
#[verifier::reject_recursive_types(V)]
#[verifier::reject_recursive_types(S)]
pub struct ExDashMap<K, V, S>(DashMap<K, V, S>);

/// The entries that a table holds: the handle filed under each name.
pub uninterp spec fn entries(table: DashMap<String, u64>) -> Map<Seq<char>, u64>;

/// The entries of a table in which nothing is filed.
pub open spec fn no_entries() -> Map<Seq<char>, u64> {
    Map::empty()
}

/// The handle that `map` holds under `name`, if there is one.
pub open spec fn entry(map: Map<Seq<char>, u64>, name: Seq<char>) -> Option<u64> {
    if map.contains_key(name) {
        Some(map[name])
    } else {
        None
    }
}

/// Calls `DashMap::new`. Trusted: the new table holds nothing.
#[verifier::external_body]
pub(crate) fn table_new() -> (table: DashMap<String, u64>)
    ensures
        entries(table) == no_entries(),
{
    DashMap::new()
}

/// Calls `DashMap::insert`. Trusted: afterwards `handle` is filed under `name`,
/// every other entry is as before, and the handle that was filed under `name`
/// before, if any, is returned.
///
/// The call may block while a reference into the table is held; the exclusive
/// borrow of the table rules that out.
#[verifier::external_body]
pub(crate) fn table_insert(
    table: &mut DashMap<String, u64>,
    name: String,
    handle: u64,
) -> (previous: Option<u64>)
    ensures
        entries(*final(table)) == entries(*old(table)).insert(name@, handle),
        previous == entry(entries(*old(table)), name@),
{
    table.insert(name, handle)
}

/// Calls `DashMap::remove`. Trusted: afterwards nothing is filed under `name`,
/// every other entry is as before, and the handle that was filed under `name`
/// before, if any, is returned.
///
/// The call may block while a reference into the table is held; the exclusive
/// borrow of the table rules that out.
#[verifier::external_body]
pub(crate) fn table_remove(table: &mut DashMap<String, u64>, name: &str) -> (removed: Option<u64>)
    ensures
        entries(*final(table)) == entries(*old(table)).remove(name@),
        removed == entry(entries(*old(table)), name@),
{
    match table.remove(name) {
        Some((_, handle)) => Some(handle),
        None => None,
    }
}

/// Calls `DashMap::get`. Trusted: returns the handle filed under `name`, if there
/// is one. The reference into the table is released before this returns.
#[verifier::external_body]
pub(crate) fn table_get(table: &DashMap<String, u64>, name: &str) -> (found: Option<u64>)
    ensures
        found == entry(entries(*table), name@),
{
    match table.get(name) {
        Some(handle) => Some(*handle.value()),
        None => None,
    }
}

} // verus!
