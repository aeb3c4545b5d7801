//! Respawning the scene when the active petal changes, straight from the
//! in-memory tree: entities of other petals go, nodes of the new petal that
//! are not already on screen are spawned (within the spawn budget), each by
//! the branch its data calls for, and asset-less nodes with no known
//! primitive get their properties fetched once.

use vstd::prelude::*;
use vstd::hash_set::StringHashSet;

use crate::hierarchy::{first_petal, lemma_first_petal_unique, petal_at, tree_has_petal, NodeEntry, VerseManager};
use crate::primitives::{spawn_branch, PrimitiveDescriptorCache, SpawnBranch};
use crate::stamps::{spawn_allowance, PathAssetApplied, AppliedState, MAX_PETAL_NODES};
use crate::text::{clone_opt_text, opt_text_eq, opt_text_same, same_opt_text, str_eq};

verus! {

/// A live scene entity that stands for a node.
pub struct SpawnedMarker {
    pub entity: u64,
    pub node_id: String,
    pub petal_id: String,
}

/// The petal seen on the previous frame.
pub struct PetalWatch {
    pub last: Option<String>,
    pub initialized: bool,
}

impl PetalWatch {
    /// Nothing seen yet.
    pub fn new() -> (r: Self)
        ensures
            r.last is None,
            !r.initialized,
    {
        PetalWatch { last: None, initialized: false }
    }
}

/// One node to materialize: its index in the petal, the branch it takes and
/// whether its properties must be fetched.
pub struct SpawnOrder<D> {
    pub node_index: usize,
    pub branch: SpawnBranch<D>,
    pub fetch_properties: bool,
}

/// What a petal change asks of the scene.
pub struct RespawnPlan<D> {
    /// Entities to despawn, in the order they were listed.
    pub despawn: Vec<u64>,
    /// Nodes to spawn, in petal order.
    pub spawns: Vec<SpawnOrder<D>>,
    /// Nodes left out because the spawn budget ran out.
    pub skipped: usize,
}

/// Marker `m` belongs to the active petal and stays.
pub open spec fn marker_kept(m: SpawnedMarker, active: Option<String>) -> bool {
    active matches Some(a) && a@ == m.petal_id@
}

/// Entities of markers that do not belong to the active petal, in order.
pub open spec fn despawned(ms: Seq<SpawnedMarker>, active: Option<String>) -> Seq<u64>
    decreases ms.len(),
{
    if ms.len() == 0 {
        Seq::empty()
    } else {
        despawned(ms.drop_last(), active) + if marker_kept(ms.last(), active) {
            Seq::empty()
        } else {
            seq![ms.last().entity]
        }
    }
}

/// Node ids already on screen in the active petal.
pub open spec fn kept_ids(ms: Seq<SpawnedMarker>, active: Option<String>) -> Set<Seq<char>> {
    Set::new(|id: Seq<char>| exists|k: int| 0 <= k < ms.len() && marker_kept(#[trigger] ms[k], active) && ms[k].node_id@ == id)
}

/// The spawn budget: nothing under the mesh-budget gate, otherwise what
/// the petal cap leaves after the kept entities, at most one per node.
pub open spec fn spawn_budget(exceeded: bool, wanted: int, kept: int) -> int {
    if exceeded {
        0
    } else if kept >= MAX_PETAL_NODES {
        0
    } else if wanted <= MAX_PETAL_NODES - kept {
        wanted
    } else {
        MAX_PETAL_NODES - kept
    }
}

/// Walking the petal's nodes in order with `budget` spawns: kept nodes are
/// passed over; once the budget is spent a node is counted as skipped;
/// otherwise it is spawned, and an asset-less node with no cached descriptor
/// is marked as requested, its fetch being needed when it was not yet
/// requested. Gives (orders as (node index, fetch), skipped, budget left,
/// requested set).
pub open spec fn plan_nodes<P, D>(
    nodes: Seq<NodeEntry<P>>,
    kept: Set<Seq<char>>,
    budget: int,
    descs: Map<Seq<char>, D>,
    req0: Set<Seq<char>>,
) -> (Seq<(int, bool)>, nat, int, Set<Seq<char>>)
    decreases nodes.len(),
{
    if nodes.len() == 0 {
        (Seq::empty(), 0, budget, req0)
    } else {
        let prev = plan_nodes(nodes.drop_last(), kept, budget, descs, req0);
        let n = nodes.last();
        let i: int = nodes.len() - 1;
        if kept.contains(n.id@) {
            prev
        } else if prev.2 <= 0 {
            (prev.0, prev.1 + 1, prev.2, prev.3)
        } else if n.asset_path is None && !descs.contains_key(n.id@) {
            (prev.0.push((i, !prev.3.contains(n.id@))), prev.1, prev.2 - 1, prev.3.insert(n.id@))
        } else {
            (prev.0.push((i, false)), prev.1, prev.2 - 1, prev.3)
        }
    }
}

/// `b` is the branch node `n` takes against the cached descriptors.
pub open spec fn branch_fits<P, D: Clone>(n: NodeEntry<P>, b: SpawnBranch<D>, descs: Map<Seq<char>, D>) -> bool {
    match n.asset_path {
        Some(ap) => b matches SpawnBranch::Gltf(p) && p@ == ap@,
        None => if descs.contains_key(n.id@) {
            b matches SpawnBranch::Primitive(d) && cloned(descs[n.id@], d)
        } else {
            b is Fallback
        },
    }
}

/// The orders match the planned (index, fetch) pairs over `nodes`.
pub open spec fn orders_fit<P, D: Clone>(
    orders: Seq<SpawnOrder<D>>,
    planned: Seq<(int, bool)>,
    nodes: Seq<NodeEntry<P>>,
    descs: Map<Seq<char>, D>,
) -> bool {
    &&& orders.len() == planned.len()
    &&& forall|j: int|
        0 <= j < orders.len() ==> {
            &&& (#[trigger] orders[j]).node_index == planned[j].0
            &&& orders[j].fetch_properties == planned[j].1
            &&& 0 <= planned[j].0 < nodes.len()
            &&& branch_fits(nodes[planned[j].0], orders[j].branch, descs)
        }
}

/// Every planned index is below `n`.
proof fn lemma_plan_indices<P, D>(
    nodes: Seq<NodeEntry<P>>,
    kept: Set<Seq<char>>,
    budget: int,
    descs: Map<Seq<char>, D>,
    req0: Set<Seq<char>>,
)
    ensures
        forall|j: int|
            0 <= j < plan_nodes(nodes, kept, budget, descs, req0).0.len() ==> 0 <= (
            #[trigger] plan_nodes(nodes, kept, budget, descs, req0).0[j]).0 < nodes.len(),
        plan_nodes(nodes, kept, budget, descs, req0).1 <= nodes.len(),
    decreases nodes.len(),
{
    if nodes.len() > 0 {
        lemma_plan_indices(nodes.drop_last(), kept, budget, descs, req0);
    }
}

/// Splits the live markers into the entities to despawn and the node ids
/// that stay.
fn scan_markers(spawned: &Vec<SpawnedMarker>, active: &Option<String>) -> (r: (Vec<u64>, StringHashSet))
    ensures
        r.0@ == despawned(spawned@, *active),
        r.1@ == kept_ids(spawned@, *active),
{
    let mut gone: Vec<u64> = Vec::new();
    let mut kept = StringHashSet::new();
    let mut k: usize = 0;
    while k < spawned.len()
        invariant
            k <= spawned@.len(),
            gone@ == despawned(spawned@.take(k as int), *active),
            kept@ == kept_ids(spawned@.take(k as int), *active),
        decreases spawned@.len() - k,
    {
        let m = &spawned[k];
        proof {
            assert(spawned@.take(k + 1).drop_last() =~= spawned@.take(k as int));
            assert(spawned@.take(k + 1).last() == spawned@[k as int]);
        }
        let ghost before = kept@;
        if opt_text_eq(active, m.petal_id.as_str()) {
            kept.insert(m.node_id.clone());
        } else {
            gone.push(m.entity);
        }
        proof {
            let ms = spawned@.take(k + 1);
            let prev = spawned@.take(k as int);
            assert forall|id: Seq<char>| kept@.contains(id) <==> kept_ids(ms, *active).contains(id) by {
                if kept_ids(ms, *active).contains(id) {
                    let j = choose|j: int| 0 <= j < ms.len() && marker_kept(#[trigger] ms[j], *active) && ms[j].node_id@ == id;
                    if j < k {
                        assert(prev[j] == ms[j]);
                        assert(kept_ids(prev, *active).contains(id));
                    }
                }
                if kept_ids(prev, *active).contains(id) {
                    let j = choose|j: int| 0 <= j < prev.len() && marker_kept(#[trigger] prev[j], *active) && prev[j].node_id@ == id;
                    assert(ms[j] == prev[j]);
                }
                if marker_kept(*m, *active) && id == m.node_id@ {
                    assert(ms[k as int] == *m);
                }
            }
            assert(kept@ =~= kept_ids(ms, *active));
        }
        k = k + 1;
    }
    assert(spawned@.take(spawned@.len() as int) =~= spawned@);
    (gone, kept)
}

/// Plans the spawns over a petal's nodes.
fn plan_petal<P, D: Clone>(
    nodes: &Vec<NodeEntry<P>>,
    kept: &StringHashSet,
    budget: usize,
    cache: &mut PrimitiveDescriptorCache<D>,
) -> (r: (Vec<SpawnOrder<D>>, usize))
    ensures
        orders_fit(r.0@, plan_nodes(nodes@, kept@, budget as int, old(cache).descriptors_view(), old(cache).requested_view()).0, nodes@, old(cache).descriptors_view()),
        r.1 == plan_nodes(nodes@, kept@, budget as int, old(cache).descriptors_view(), old(cache).requested_view()).1,
        final(cache).descriptors_view() == old(cache).descriptors_view(),
        final(cache).requested_view() == plan_nodes(nodes@, kept@, budget as int, old(cache).descriptors_view(), old(cache).requested_view()).3,
{
    let ghost descs = cache.descriptors_view();
    let ghost req0 = cache.requested_view();
    let mut orders: Vec<SpawnOrder<D>> = Vec::new();
    let mut skipped: usize = 0;
    let mut remaining: usize = budget;
    let mut k: usize = 0;
    proof {
        lemma_plan_indices(nodes@, kept@, budget as int, descs, req0);
    }
    while k < nodes.len()
        invariant
            k <= nodes@.len(),
            descs == cache.descriptors_view(),
            orders_fit(orders@, plan_nodes(nodes@.take(k as int), kept@, budget as int, descs, req0).0, nodes@, descs),
            skipped == plan_nodes(nodes@.take(k as int), kept@, budget as int, descs, req0).1,
            remaining == plan_nodes(nodes@.take(k as int), kept@, budget as int, descs, req0).2,
            cache.requested_view() == plan_nodes(nodes@.take(k as int), kept@, budget as int, descs, req0).3,
        decreases nodes@.len() - k,
    {
        let node = &nodes[k];
        let ghost pre = nodes@.take(k as int);
        let ghost cur = nodes@.take(k + 1);
        proof {
            assert(cur.drop_last() =~= pre);
            assert(cur.last() == nodes@[k as int]);
            lemma_plan_indices(pre, kept@, budget as int, descs, req0);
        }
        if kept.contains(node.id.as_str()) {
        } else if remaining == 0 {
            skipped = skipped + 1;
        } else {
            remaining = remaining - 1;
            let branch = spawn_branch(node, cache);
            let fetch = match &branch {
                SpawnBranch::Fallback => cache.mark_requested(node.id.as_str()),
                _ => false,
            };
            orders.push(SpawnOrder { node_index: k, branch, fetch_properties: fetch });
        }
        proof {
            let planned = plan_nodes(cur, kept@, budget as int, descs, req0).0;
            assert forall|j: int| 0 <= j < orders@.len() implies {
                &&& (#[trigger] orders@[j]).node_index == planned[j].0
                &&& orders@[j].fetch_properties == planned[j].1
                &&& 0 <= planned[j].0 < nodes@.len()
                &&& branch_fits(nodes@[planned[j].0], orders@[j].branch, descs)
            } by {}
        }
        k = k + 1;
    }
    assert(nodes@.take(nodes@.len() as int) =~= nodes@);
    (orders, skipped)
}

/// What a petal change plans for the nodes of the newly active petal: when
/// it exists in the tree, the walk of `plan_nodes` over its nodes with the
/// spawn budget; otherwise nothing, with the cache untouched.
pub open spec fn spawns_fit<P, D: Clone>(
    plan: RespawnPlan<D>,
    vs: Seq<crate::hierarchy::VerseEntry<P>>,
    active: Option<String>,
    kept: Set<Seq<char>>,
    exceeded: bool,
    descs: Map<Seq<char>, D>,
    req0: Set<Seq<char>>,
    req1: Set<Seq<char>>,
) -> bool {
    if active matches Some(pid) && tree_has_petal(vs, pid@) {
        let nodes = petal_at(vs, first_petal(vs, active->0@)).nodes@;
        let planned = plan_nodes(nodes, kept, spawn_budget(exceeded, nodes.len() as int, kept.len() as int), descs, req0);
        &&& orders_fit(plan.spawns@, planned.0, nodes, descs)
        &&& plan.skipped == planned.1
        &&& req1 == planned.3
    } else {
        &&& plan.spawns@.len() == 0
        &&& plan.skipped == 0
        &&& req1 == req0
    }
}

/// Runs once per frame with the active petal. The first frame only records
/// the petal; an unchanged petal does nothing. On a change: every path-asset
/// applied record is dropped (so the new petal's tracks restamp), the
/// entities of other petals are despawned, and the new petal's nodes that
/// are not already on screen are planned for spawning, each by its branch,
/// within the spawn budget (none under the mesh-budget gate; else the petal
/// cap minus the kept entities); fallback nodes are marked as requested and
/// fetched when they were not already. The new petal is then recorded.
pub fn respawn_on_petal_change<P, D: Clone>(
    watch: &mut PetalWatch,
    active_petal: &Option<String>,
    spawned: &Vec<SpawnedMarker>,
    verse_mgr: &VerseManager<P>,
    cache: &mut PrimitiveDescriptorCache<D>,
    path_applied: &mut PathAssetApplied,
    budget_exceeded: bool,
) -> (r: Option<RespawnPlan<D>>)
    ensures
        !old(watch).initialized ==> {
            &&& r is None
            &&& final(watch).last == *active_petal
            &&& final(watch).initialized
            &&& final(cache).descriptors_view() == old(cache).descriptors_view()
            &&& final(cache).requested_view() == old(cache).requested_view()
            &&& final(path_applied)@ == old(path_applied)@
        },
        old(watch).initialized && same_opt_text(old(watch).last, *active_petal) ==> {
            &&& r is None
            &&& *final(watch) == *old(watch)
            &&& final(cache).descriptors_view() == old(cache).descriptors_view()
            &&& final(cache).requested_view() == old(cache).requested_view()
            &&& final(path_applied)@ == old(path_applied)@
        },
        old(watch).initialized && !same_opt_text(old(watch).last, *active_petal) ==> {
            &&& r is Some
            &&& final(watch).last == *active_petal
            &&& final(watch).initialized
            &&& final(path_applied)@ == Map::<Seq<char>, AppliedState>::empty()
            &&& r->0.despawn@ == despawned(spawned@, *active_petal)
            &&& final(cache).descriptors_view() == old(cache).descriptors_view()
            &&& spawns_fit(
                r->0,
                verse_mgr.verses@,
                *active_petal,
                kept_ids(spawned@, *active_petal),
                budget_exceeded,
                old(cache).descriptors_view(),
                old(cache).requested_view(),
                final(cache).requested_view(),
            )
        },
{
    if !watch.initialized {
        watch.last = clone_opt_text(active_petal);
        watch.initialized = true;
        return None;
    }
    if opt_text_same(&watch.last, active_petal) {
        return None;
    }
    path_applied.clear();
    let (despawn, kept) = scan_markers(spawned, active_petal);
    let mut spawns: Vec<SpawnOrder<D>> = Vec::new();
    let mut skipped: usize = 0;
    match active_petal {
        Some(pid) => {
            match verse_mgr.find_petal(pid.as_str()) {
                Some(petal) => {
                    proof {
                        let vs = verse_mgr.verses@;
                        let t = choose|t: crate::hierarchy::Slot|
                            #[trigger] crate::hierarchy::first_petal_slot(vs, t, pid@) && *petal == petal_at(vs, t);
                        assert(crate::hierarchy::petal_in_slot(vs, t, pid@));
                        assert(tree_has_petal(vs, pid@));
                        assert(crate::hierarchy::first_petal_slot(vs, first_petal(vs, pid@), pid@));
                        lemma_first_petal_unique(vs, t, first_petal(vs, pid@), pid@);
                    }
                    let budget: usize = if budget_exceeded {
                        0
                    } else {
                        spawn_allowance(petal.nodes.len(), kept.len(), MAX_PETAL_NODES)
                    };
                    let (orders, n_skipped) = plan_petal(&petal.nodes, &kept, budget, cache);
                    spawns = orders;
                    skipped = n_skipped;
                },
                None => {},
            }
        },
        None => {},
    }
    watch.last = clone_opt_text(active_petal);
    Some(RespawnPlan { despawn, spawns, skipped })
}

// ---------------------------------------------------------------------------
// Materializing cached primitives
// ---------------------------------------------------------------------------

/// What to do for one asset-less node of the active petal whose primitive
/// descriptor is cached.
pub enum PrimitiveStep {
    /// The node already has primitive entities: reconcile each with the
    /// cached descriptor.
    Reconcile { node_index: usize, entities: Vec<u64> },
    /// Spawn the primitive; when a fallback sign stands for the node, it is
    /// replaced (the sign's entity is given).
    Materialize { node_index: usize, promote: Option<u64> },
}

/// The steps of one materialization pass and how many nodes the spawn
/// budget left out.
pub struct PrimitivePass {
    pub steps: Vec<PrimitiveStep>,
    pub skipped: usize,
}

/// Marker `m` stands for node `id` in petal `pid`.
pub open spec fn marker_for(m: SpawnedMarker, id: Seq<char>, pid: Seq<char>) -> bool {
    m.node_id@ == id && m.petal_id@ == pid
}

/// Entities of the markers for node `id` in petal `pid`, in order.
pub open spec fn entities_for(ms: Seq<SpawnedMarker>, id: Seq<char>, pid: Seq<char>) -> Seq<u64>
    decreases ms.len(),
{
    if ms.len() == 0 {
        Seq::empty()
    } else {
        entities_for(ms.drop_last(), id, pid) + if marker_for(ms.last(), id, pid) {
            seq![ms.last().entity]
        } else {
            Seq::empty()
        }
    }
}

/// Entity of the first marker for node `id` in petal `pid`.
pub open spec fn first_entity_for(ms: Seq<SpawnedMarker>, id: Seq<char>, pid: Seq<char>) -> Option<u64>
    decreases ms.len(),
{
    if ms.len() == 0 {
        None
    } else if first_entity_for(ms.drop_last(), id, pid) is Some {
        first_entity_for(ms.drop_last(), id, pid)
    } else if marker_for(ms.last(), id, pid) {
        Some(ms.last().entity)
    } else {
        None
    }
}

/// Walking the petal's nodes in order: nodes with an asset or without a
/// cached descriptor are passed over; a node with live primitives is
/// reconciled; otherwise it is materialized while the budget lasts and
/// counted as skipped after. Gives (steps as (node index, reconcile),
/// skipped, budget left).
pub open spec fn plan_primitives<P, D>(
    nodes: Seq<NodeEntry<P>>,
    pid: Seq<char>,
    descs: Map<Seq<char>, D>,
    prims: Seq<SpawnedMarker>,
    budget: int,
) -> (Seq<(int, bool)>, nat, int)
    decreases nodes.len(),
{
    if nodes.len() == 0 {
        (Seq::empty(), 0, budget)
    } else {
        let prev = plan_primitives(nodes.drop_last(), pid, descs, prims, budget);
        let n = nodes.last();
        let i: int = nodes.len() - 1;
        if n.asset_path is Some || !descs.contains_key(n.id@) {
            prev
        } else if entities_for(prims, n.id@, pid).len() > 0 {
            (prev.0.push((i, true)), prev.1, prev.2)
        } else if prev.2 <= 0 {
            (prev.0, prev.1 + 1, prev.2)
        } else {
            (prev.0.push((i, false)), prev.1, prev.2 - 1)
        }
    }
}

/// The steps match the planned (index, reconcile) pairs.
pub open spec fn steps_fit<P>(
    steps: Seq<PrimitiveStep>,
    planned: Seq<(int, bool)>,
    nodes: Seq<NodeEntry<P>>,
    pid: Seq<char>,
    prims: Seq<SpawnedMarker>,
    signs: Seq<SpawnedMarker>,
) -> bool {
    &&& steps.len() == planned.len()
    &&& forall|j: int|
        0 <= j < steps.len() ==> {
            &&& 0 <= planned[j].0 < nodes.len()
            &&& match #[trigger] steps[j] {
                PrimitiveStep::Reconcile { node_index, entities } => planned[j].1 && node_index == planned[j].0
                    && entities@ == entities_for(prims, nodes[planned[j].0].id@, pid),
                PrimitiveStep::Materialize { node_index, promote } => !planned[j].1 && node_index
                    == planned[j].0 && promote == first_entity_for(signs, nodes[planned[j].0].id@, pid),
            }
        }
}

proof fn lemma_primitive_indices<P, D>(
    nodes: Seq<NodeEntry<P>>,
    pid: Seq<char>,
    descs: Map<Seq<char>, D>,
    prims: Seq<SpawnedMarker>,
    budget: int,
)
    ensures
        forall|j: int|
            0 <= j < plan_primitives(nodes, pid, descs, prims, budget).0.len() ==> 0 <= (
            #[trigger] plan_primitives(nodes, pid, descs, prims, budget).0[j]).0 < nodes.len(),
        plan_primitives(nodes, pid, descs, prims, budget).1 <= nodes.len(),
    decreases nodes.len(),
{
    if nodes.len() > 0 {
        lemma_primitive_indices(nodes.drop_last(), pid, descs, prims, budget);
    }
}

fn marker_is_for(m: &SpawnedMarker, id: &str, pid: &str) -> (r: bool)
    ensures
        r == marker_for(*m, id@, pid@),
{
    str_eq(m.node_id.as_str(), id) && str_eq(m.petal_id.as_str(), pid)
}

/// Entities of the markers for node `id` in petal `pid`.
fn collect_entities_for(ms: &Vec<SpawnedMarker>, id: &str, pid: &str) -> (r: Vec<u64>)
    ensures
        r@ == entities_for(ms@, id@, pid@),
{
    let mut out: Vec<u64> = Vec::new();
    let mut k: usize = 0;
    while k < ms.len()
        invariant
            k <= ms@.len(),
            out@ == entities_for(ms@.take(k as int), id@, pid@),
        decreases ms@.len() - k,
    {
        proof {
            assert(ms@.take(k + 1).drop_last() =~= ms@.take(k as int));
            assert(ms@.take(k + 1).last() == ms@[k as int]);
        }
        if marker_is_for(&ms[k], id, pid) {
            out.push(ms[k].entity);
        }
        k = k + 1;
    }
    assert(ms@.take(ms@.len() as int) =~= ms@);
    out
}

/// Entity of the first marker for node `id` in petal `pid`.
fn find_entity_for(ms: &Vec<SpawnedMarker>, id: &str, pid: &str) -> (r: Option<u64>)
    ensures
        r == first_entity_for(ms@, id@, pid@),
{
    let mut k: usize = 0;
    while k < ms.len()
        invariant
            k <= ms@.len(),
            first_entity_for(ms@.take(k as int), id@, pid@) is None,
        decreases ms@.len() - k,
    {
        proof {
            assert(ms@.take(k + 1).drop_last() =~= ms@.take(k as int));
            assert(ms@.take(k + 1).last() == ms@[k as int]);
        }
        if marker_is_for(&ms[k], id, pid) {
            proof {
                lemma_first_entity_extends(ms@, (k + 1) as int, id@, pid@);
            }
            return Some(ms[k].entity);
        }
        k = k + 1;
    }
    assert(ms@.take(ms@.len() as int) =~= ms@);
    None
}

/// A first match in a prefix stays the first match of the whole list.
proof fn lemma_first_entity_extends(ms: Seq<SpawnedMarker>, k: int, id: Seq<char>, pid: Seq<char>)
    requires
        0 <= k <= ms.len(),
        first_entity_for(ms.take(k), id, pid) is Some,
    ensures
        first_entity_for(ms, id, pid) == first_entity_for(ms.take(k), id, pid),
    decreases ms.len() - k,
{
    if k < ms.len() {
        assert(ms.take(k + 1).drop_last() =~= ms.take(k));
        lemma_first_entity_extends(ms, k + 1, id, pid);
    } else {
        assert(ms.take(k) =~= ms);
    }
}

/// One pass of materializing cached primitives for the active petal, run
/// when the descriptor cache changed. Nothing happens without an active
/// petal present in the tree. The budget is nothing under the mesh-budget
/// gate, else the petal cap minus the live primitive entities and fallback
/// signs; reconciling never spends it.
pub fn materialize_cached_primitives<P, D>(
    cache_changed: bool,
    active_petal: &Option<String>,
    verse_mgr: &VerseManager<P>,
    cache: &PrimitiveDescriptorCache<D>,
    prims: &Vec<SpawnedMarker>,
    signs: &Vec<SpawnedMarker>,
    budget_exceeded: bool,
) -> (r: PrimitivePass)
    ensures
        ({
            let vs = verse_mgr.verses@;
            if active_petal matches Some(pid) && tree_has_petal(vs, pid@) && cache_changed {
                let pid = active_petal->0@;
                let nodes = petal_at(vs, first_petal(vs, pid)).nodes@;
                let live: nat = prims@.len() + signs@.len();
                let budget: int = if budget_exceeded {
                    0
                } else if live >= MAX_PETAL_NODES {
                    0
                } else {
                    MAX_PETAL_NODES - live
                };
                let planned = plan_primitives(nodes, pid, cache.descriptors_view(), prims@, budget);
                &&& steps_fit(r.steps@, planned.0, nodes, pid, prims@, signs@)
                &&& r.skipped == planned.1
            } else {
                &&& r.steps@.len() == 0
                &&& r.skipped == 0
            }
        }),
{
    let mut steps: Vec<PrimitiveStep> = Vec::new();
    if !cache_changed {
        return PrimitivePass { steps, skipped: 0 };
    }
    let pid = match active_petal {
        Some(p) => p,
        None => {
            return PrimitivePass { steps, skipped: 0 };
        },
    };
    let petal = match verse_mgr.find_petal(pid.as_str()) {
        Some(p) => p,
        None => {
            return PrimitivePass { steps, skipped: 0 };
        },
    };
    let ghost vs = verse_mgr.verses@;
    proof {
        let t = choose|t: crate::hierarchy::Slot|
            #[trigger] crate::hierarchy::first_petal_slot(vs, t, pid@) && *petal == petal_at(vs, t);
        assert(crate::hierarchy::petal_in_slot(vs, t, pid@));
        assert(crate::hierarchy::first_petal_slot(vs, first_petal(vs, pid@), pid@));
        lemma_first_petal_unique(vs, t, first_petal(vs, pid@), pid@);
    }
    let live: usize = if prims.len() <= usize::MAX - signs.len() {
        prims.len() + signs.len()
    } else {
        usize::MAX
    };
    let mut remaining: usize = if budget_exceeded {
        0
    } else {
        spawn_allowance(usize::MAX, live, MAX_PETAL_NODES)
    };
    let ghost budget = remaining as int;
    let ghost descs = cache.descriptors_view();
    let nodes = &petal.nodes;
    let mut skipped: usize = 0;
    let mut k: usize = 0;
    proof {
        lemma_primitive_indices(nodes@, pid@, descs, prims@, budget);
    }
    while k < nodes.len()
        invariant
            k <= nodes@.len(),
            descs == cache.descriptors_view(),
            steps_fit(steps@, plan_primitives(nodes@.take(k as int), pid@, descs, prims@, budget).0, nodes@, pid@, prims@, signs@),
            skipped == plan_primitives(nodes@.take(k as int), pid@, descs, prims@, budget).1,
            remaining == plan_primitives(nodes@.take(k as int), pid@, descs, prims@, budget).2,
        decreases nodes@.len() - k,
    {
        let node = &nodes[k];
        let ghost pre = nodes@.take(k as int);
        let ghost cur = nodes@.take(k + 1);
        proof {
            assert(cur.drop_last() =~= pre);
            assert(cur.last() == nodes@[k as int]);
            lemma_primitive_indices(pre, pid@, descs, prims@, budget);
        }
        if node.asset_path.is_none() {
            match cache.get(node.id.as_str()) {
                Some(_desc) => {
                    let entities = collect_entities_for(prims, node.id.as_str(), pid.as_str());
                    if entities.len() > 0 {
                        steps.push(PrimitiveStep::Reconcile { node_index: k, entities });
                    } else if remaining == 0 {
                        skipped = skipped + 1;
                    } else {
                        remaining = remaining - 1;
                        let promote = find_entity_for(signs, node.id.as_str(), pid.as_str());
                        steps.push(PrimitiveStep::Materialize { node_index: k, promote });
                    }
                },
                None => {},
            }
        }
        proof {
            let planned = plan_primitives(cur, pid@, descs, prims@, budget).0;
            assert forall|j: int| 0 <= j < steps@.len() implies {
                &&& 0 <= planned[j].0 < nodes@.len()
                &&& match #[trigger] steps@[j] {
                    PrimitiveStep::Reconcile { node_index, entities } => planned[j].1 && node_index == planned[j].0
                        && entities@ == entities_for(prims@, nodes@[planned[j].0].id@, pid@),
                    PrimitiveStep::Materialize { node_index, promote } => !planned[j].1 && node_index
                        == planned[j].0 && promote == first_entity_for(signs@, nodes@[planned[j].0].id@, pid@),
                }
            } by {}
        }
        k = k + 1;
    }
    assert(nodes@.take(nodes@.len() as int) =~= nodes@);
    PrimitivePass { steps, skipped }
}

/// What the selected node's freshly loaded primitive descriptor asks for.
pub enum SelectedPrimitiveStep {
    /// Nothing: no selection, no open petal, no valid descriptor, or no
    /// entity stands for the node yet.
    Idle,
    /// Reconcile these primitive entities of the node with the descriptor.
    Reconcile(Vec<u64>),
    /// Replace this fallback sign of the node with the primitive.
    Promote(u64),
}

/// The selection path of primitive materialization: with a node selected,
/// a petal open and a valid primitive descriptor in its properties, the
/// node's live primitives are reconciled; failing those, its first fallback
/// sign is promoted.
pub fn reconcile_selected_primitive(
    selected_node: &Option<String>,
    active_petal: &Option<String>,
    descriptor_valid: bool,
    prims: &Vec<SpawnedMarker>,
    signs: &Vec<SpawnedMarker>,
) -> (r: SelectedPrimitiveStep)
    ensures
        match (*selected_node, *active_petal) {
            (Some(n), Some(p)) => if !descriptor_valid {
                r is Idle
            } else if entities_for(prims@, n@, p@).len() > 0 {
                r matches SelectedPrimitiveStep::Reconcile(es) && es@ == entities_for(prims@, n@, p@)
            } else {
                match first_entity_for(signs@, n@, p@) {
                    Some(e) => r matches SelectedPrimitiveStep::Promote(x) && x == e,
                    None => r is Idle,
                }
            },
            _ => r is Idle,
        },
{
    let n = match selected_node {
        Some(n) => n,
        None => {
            return SelectedPrimitiveStep::Idle;
        },
    };
    let p = match active_petal {
        Some(p) => p,
        None => {
            return SelectedPrimitiveStep::Idle;
        },
    };
    if !descriptor_valid {
        return SelectedPrimitiveStep::Idle;
    }
    let live = collect_entities_for(prims, n.as_str(), p.as_str());
    if live.len() > 0 {
        return SelectedPrimitiveStep::Reconcile(live);
    }
    match find_entity_for(signs, n.as_str(), p.as_str()) {
        Some(e) => SelectedPrimitiveStep::Promote(e),
        None => SelectedPrimitiveStep::Idle,
    }
}

// ---------------------------------------------------------------------------
// Laws
// ---------------------------------------------------------------------------

/// Law: a petal respawn never spends more than its budget (each spawn takes
/// one unit, and what is left never goes below zero), and never spawns a
/// node that is already on screen.
pub proof fn law_respawn_within_budget<P, D>(
    nodes: Seq<NodeEntry<P>>,
    kept: Set<Seq<char>>,
    budget: int,
    descs: Map<Seq<char>, D>,
    req0: Set<Seq<char>>,
)
    requires
        budget >= 0,
    ensures
        ({
            let planned = plan_nodes(nodes, kept, budget, descs, req0);
            &&& planned.2 >= 0
            &&& planned.0.len() + planned.2 == budget
            &&& forall|j: int|
                0 <= j < planned.0.len() ==> 0 <= (#[trigger] planned.0[j]).0 < nodes.len() && !kept.contains(
                    nodes[planned.0[j].0].id@,
                )
        }),
    decreases nodes.len(),
{
    if nodes.len() > 0 {
        law_respawn_within_budget(nodes.drop_last(), kept, budget, descs, req0);
        let prev = plan_nodes(nodes.drop_last(), kept, budget, descs, req0);
        let planned = plan_nodes(nodes, kept, budget, descs, req0);
        assert forall|j: int| 0 <= j < planned.0.len() implies 0 <= (#[trigger] planned.0[j]).0 < nodes.len()
            && !kept.contains(nodes[planned.0[j].0].id@) by {
            if j < prev.0.len() {
                assert(planned.0[j] == prev.0[j]);
                assert(nodes.drop_last()[prev.0[j].0] == nodes[prev.0[j].0]);
            }
        }
    }
}

/// Law: a materialization pass never spawns more primitives than its
/// budget, and only reconciles nodes that already have primitive entities.
pub proof fn law_primitives_within_budget<P, D>(
    nodes: Seq<NodeEntry<P>>,
    pid: Seq<char>,
    descs: Map<Seq<char>, D>,
    prims: Seq<SpawnedMarker>,
    budget: int,
)
    requires
        budget >= 0,
    ensures
        ({
            let planned = plan_primitives(nodes, pid, descs, prims, budget);
            &&& planned.2 >= 0
            &&& planned.0.filter(|e: (int, bool)| !e.1).len() + planned.2 == budget
            &&& forall|j: int|
                0 <= j < planned.0.len() && (#[trigger] planned.0[j]).1 ==> 0 <= planned.0[j].0 < nodes.len()
                    && entities_for(prims, nodes[planned.0[j].0].id@, pid).len() > 0
        }),
    decreases nodes.len(),
{
    broadcast use Seq::lemma_filter_push;
    if nodes.len() > 0 {
        law_primitives_within_budget(nodes.drop_last(), pid, descs, prims, budget);
        let prev = plan_primitives(nodes.drop_last(), pid, descs, prims, budget);
        let planned = plan_primitives(nodes, pid, descs, prims, budget);
        assert forall|j: int| 0 <= j < planned.0.len() && (#[trigger] planned.0[j]).1 implies 0
            <= planned.0[j].0 < nodes.len() && entities_for(prims, nodes[planned.0[j].0].id@, pid).len() > 0 by {
            if j < prev.0.len() {
                assert(planned.0[j] == prev.0[j]);
                assert(nodes.drop_last()[prev.0[j].0] == nodes[prev.0[j].0]);
            }
        }
    } else {
        assert(Seq::<(int, bool)>::empty().filter(|e: (int, bool)| !e.1) =~= Seq::<(int, bool)>::empty());
    }
}

} // verus!
