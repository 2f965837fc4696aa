//! The concurrent map of `dashmap` that files each known peer under its key.

use vstd::prelude::*;
use dashmap::DashMap;
use crate::netaddr::NodeKey;
use crate::manager::Node;

verus! {

#[verifier::external_type_specification]
#[verifier::external_body]
#[verifier::reject_recursive_types(K)]
#[verifier::reject_recursive_types(V)]
#[verifier::reject_recursive_types(S)]
pub struct ExDashMap<K, V, S>(DashMap<K, V, S>);

/// The concurrent map that files each known peer under its key.
pub type NodeTable = DashMap<NodeKey, Node>;

/// One key and the peer filed under it.
pub type TableEntry = (NodeKey, Node);

/// The peers that a table holds, by key.
pub uninterp spec fn table_contents(m: NodeTable) -> Map<NodeKey, Node>;

/// `DashMap::new`: a map with no entries.
#[verifier::external_body]
pub(crate) fn table_new() -> (r: NodeTable)
    ensures
        table_contents(r).is_empty(),
{
    DashMap::new()
}

/// `DashMap::get`, cloning the value found: the peer filed under `k`, if any.
#[verifier::external_body]
pub(crate) fn table_get(m: &NodeTable, k: &NodeKey) -> (r: Option<Node>)
    ensures
        r == (if table_contents(*m).contains_key(*k) {
            Some(table_contents(*m)[*k])
        } else {
            None
        }),
{
    m.get(k).map(|e| e.value().clone())
}

/// `DashMap::insert`: files `v` under `k`, replacing what was there.
#[verifier::external_body]
pub(crate) fn table_insert(m: &mut NodeTable, k: NodeKey, v: Node)
    ensures
        table_contents(*final(m)) == table_contents(*old(m)).insert(k, v),
{
    m.insert(k, v);
}

/// `DashMap::remove`: drops what is filed under `k`, if anything.
#[verifier::external_body]
pub(crate) fn table_remove(m: &mut NodeTable, k: &NodeKey)
    ensures
        table_contents(*final(m)) == table_contents(*old(m)).remove(*k),
{
    m.remove(k);
}

/// `DashMap::len`: the number of entries.
#[verifier::external_body]
pub(crate) fn table_len(m: &NodeTable) -> (r: usize)
    ensures
        r == table_contents(*m).len(),
{
    m.len()
}

/// `DashMap::iter`, each entry copied out: every entry exactly once, in an
/// order that depends on the map's hashing and is not stated.
#[verifier::external_body]
pub(crate) fn table_entries(m: &NodeTable) -> (r: Vec<TableEntry>)
    ensures
        r@.len() == table_contents(*m).len(),
        forall|i: int|
            0 <= i < r@.len() ==> table_contents(*m).contains_key(#[trigger] r@[i].0)
                && table_contents(*m)[r@[i].0] == r@[i].1,
        forall|i: int, j: int| 0 <= i < j < r@.len() ==> r@[i].0 != r@[j].0,
{
    m.iter().map(|e| (*e.key(), e.value().clone())).collect()
}

} // verus!
