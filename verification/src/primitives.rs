//! Procedural primitives (cube, sphere, …) attached to nodes through their
//! properties: the per-node cache of parsed descriptors, the set of nodes
//! whose properties were asked for, and the choice of how a node is
//! materialized on petal (re)spawn.
//!
//! The descriptor type `D` is whatever the caller parses the `primitive`
//! property into; this module only stores and hands it out.

use vstd::prelude::*;
use vstd::hash_map::StringHashMap;
use vstd::hash_set::StringHashSet;

use crate::hierarchy::NodeEntry;
use crate::text::to_owned_string;

verus! {

/// `node id → descriptor` for nodes whose properties carried a valid
/// primitive descriptor, plus the nodes with a properties fetch in flight.
#[verifier::reject_recursive_types(D)]
pub struct PrimitiveDescriptorCache<D> {
    descriptors: StringHashMap<D>,
    requested: StringHashSet,
}

impl<D> PrimitiveDescriptorCache<D> {
    /// The cached descriptors.
    pub closed spec fn descriptors_view(&self) -> Map<Seq<char>, D> {
        self.descriptors@
    }

    /// The nodes with a fetch in flight.
    pub closed spec fn requested_view(&self) -> Set<Seq<char>> {
        self.requested@
    }

    pub fn new() -> (r: Self)
        ensures
            r.descriptors_view() == Map::<Seq<char>, D>::empty(),
            r.requested_view() == Set::<Seq<char>>::empty(),
    {
        PrimitiveDescriptorCache { descriptors: StringHashMap::new(), requested: StringHashSet::new() }
    }

    /// The cached descriptor of a node.
    pub fn get(&self, node_id: &str) -> (r: Option<&D>)
        ensures
            r matches Some(d) ==> self.descriptors_view().contains_key(node_id@) && *d == self.descriptors_view()[node_id@],
            r is None ==> !self.descriptors_view().contains_key(node_id@),
    {
        self.descriptors.get(node_id)
    }

    /// Whether a fetch for the node is in flight.
    pub fn is_requested(&self, node_id: &str) -> (r: bool)
        ensures
            r == self.requested_view().contains(node_id@),
    {
        self.requested.contains(node_id)
    }

    /// Ingests a properties load: the fetch is no longer in flight, and the
    /// node's descriptor becomes `parsed` (the primitive property parsed as
    /// a descriptor), or is dropped when the property was absent or invalid.
    pub fn note_properties(&mut self, node_id: &str, parsed: Option<D>)
        ensures
            final(self).requested_view() == old(self).requested_view().remove(node_id@),
            parsed matches Some(d) ==> final(self).descriptors_view() == old(self).descriptors_view().insert(node_id@, d),
            parsed is None ==> final(self).descriptors_view() == old(self).descriptors_view().remove(node_id@),
    {
        self.requested.remove(node_id);
        match parsed {
            Some(d) => {
                self.descriptors.insert(to_owned_string(node_id), d);
            },
            None => {
                self.descriptors.remove(node_id);
            },
        }
    }

    /// Drops a node's descriptor and request mark.
    pub fn invalidate(&mut self, node_id: &str)
        ensures
            final(self).descriptors_view() == old(self).descriptors_view().remove(node_id@),
            final(self).requested_view() == old(self).requested_view().remove(node_id@),
    {
        self.descriptors.remove(node_id);
        self.requested.remove(node_id);
    }

    /// Drops everything.
    pub fn clear(&mut self)
        ensures
            final(self).descriptors_view() == Map::<Seq<char>, D>::empty(),
            final(self).requested_view() == Set::<Seq<char>>::empty(),
    {
        self.descriptors.clear();
        self.requested.clear();
    }

    /// Marks a properties fetch in flight; `true` when the caller should
    /// send it: the node has no cached descriptor and no fetch in flight.
    pub fn mark_requested(&mut self, node_id: &str) -> (r: bool)
        ensures
            r == fetch_needed(old(self).descriptors_view(), old(self).requested_view(), node_id@),
            final(self).descriptors_view() == old(self).descriptors_view(),
            old(self).descriptors_view().contains_key(node_id@) ==> final(self).requested_view() == old(self).requested_view(),
            !old(self).descriptors_view().contains_key(node_id@) ==> final(self).requested_view() == old(self).requested_view().insert(node_id@),
    {
        if self.descriptors.contains_key(node_id) {
            return false;
        }
        self.requested.insert(to_owned_string(node_id))
    }
}

/// Whether a properties fetch must be sent for `node_id`: nothing cached and
/// nothing in flight.
pub open spec fn fetch_needed<D>(descriptors: Map<Seq<char>, D>, requested: Set<Seq<char>>, node_id: Seq<char>) -> bool {
    !descriptors.contains_key(node_id) && !requested.contains(node_id)
}

/// Law: a node is fetched at most once until its answer arrives — once
/// marked, marking again says no — and once it is invalidated a fetch is
/// needed again.
pub proof fn law_fetch_once<D>(descriptors: Map<Seq<char>, D>, requested: Set<Seq<char>>, node_id: Seq<char>)
    ensures
        !fetch_needed(descriptors, requested.insert(node_id), node_id),
        fetch_needed(descriptors.remove(node_id), requested.remove(node_id), node_id),
{
}

/// How a node is materialized on petal (re)spawn.
#[derive(Debug, Clone)]
pub enum SpawnBranch<D> {
    /// Backed by a glTF/GLB asset.
    Gltf(String),
    /// Has a cached primitive descriptor.
    Primitive(D),
    /// Neither: a fallback sign (and a properties fetch).
    Fallback,
}

/// The branch a node takes: an asset path wins, then a cached descriptor,
/// else the fallback sign. Selection plays no part.
pub fn spawn_branch<P, D: Clone>(node: &NodeEntry<P>, cache: &PrimitiveDescriptorCache<D>) -> (r: SpawnBranch<D>)
    ensures
        node.asset_path matches Some(ap) ==> (r matches SpawnBranch::Gltf(p) && p@ == ap@),
        node.asset_path is None && cache.descriptors_view().contains_key(node.id@) ==> (r matches SpawnBranch::Primitive(d)
            && cloned(cache.descriptors_view()[node.id@], d)),
        node.asset_path is None && !cache.descriptors_view().contains_key(node.id@) ==> r is Fallback,
{
    if let Some(ap) = &node.asset_path {
        return SpawnBranch::Gltf(ap.clone());
    }
    match cache.get(node.id.as_str()) {
        Some(desc) => SpawnBranch::Primitive(desc.clone()),
        None => SpawnBranch::Fallback,
    }
}

} // verus!
