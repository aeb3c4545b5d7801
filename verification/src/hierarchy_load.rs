//! A full hierarchy load: the store hands over every verse with its
//! fractals, petals and nodes. On the first load the navigation jumps to the
//! first verse and to the first petal that holds an asset; the in-memory tree
//! is then rebuilt from the data, and the nodes of the active petal that
//! carry an asset are returned as spawn requests for the scene.

use vstd::prelude::*;

use crate::hierarchy::{
    index_exact, slot_lt, FractalEntry, NodeEntry, PetalEntry, Slot, VerseEntry, VerseManager,
};
use crate::text::{clone_opt_text, opt_text_eq};
use crate::tree_events::NavLabels;
use vstd::hash_set::StringHashSet;

verus! {

/// A node as the store reports it.
pub struct NodeData<P> {
    pub id: String,
    pub name: String,
    pub petal_id: String,
    pub has_asset: bool,
    pub position: P,
    pub webpage_url: Option<String>,
    pub asset_path: Option<String>,
}

/// A petal as the store reports it.
pub struct PetalData<P> {
    pub id: String,
    pub name: String,
    pub nodes: Vec<NodeData<P>>,
}

/// A fractal as the store reports it.
pub struct FractalData<P> {
    pub id: String,
    pub name: String,
    pub petals: Vec<PetalData<P>>,
}

/// A verse as the store reports it.
pub struct VerseData<P> {
    pub id: String,
    pub name: String,
    pub namespace_id: Option<String>,
    pub fractals: Vec<FractalData<P>>,
}

/// A scene entity to spawn for a node of the active petal.
pub struct SpawnRequest<P> {
    pub node_id: String,
    pub petal_id: String,
    pub name: String,
    pub position: P,
    pub asset_path: String,
}

// ---------------------------------------------------------------------------
// The first petal that holds an asset
// ---------------------------------------------------------------------------

/// Some node of `p` has an asset path.
pub open spec fn petal_populated<P>(p: PetalData<P>) -> bool {
    exists|k: int| 0 <= k < p.nodes@.len() && (#[trigger] p.nodes@[k]).asset_path is Some
}

/// `t` names a petal of the loaded data.
pub open spec fn data_slot_ok<P>(vs: Seq<VerseData<P>>, t: Slot) -> bool {
    &&& t.0 < vs.len()
    &&& t.1 < vs[t.0 as int].fractals@.len()
    &&& t.2 < vs[t.0 as int].fractals@[t.1 as int].petals@.len()
}

/// The fractal of the loaded data at slot `t`.
pub open spec fn data_fractal_at<P>(vs: Seq<VerseData<P>>, t: Slot) -> FractalData<P> {
    vs[t.0 as int].fractals@[t.1 as int]
}

/// The petal of the loaded data at slot `t`.
pub open spec fn data_petal_at<P>(vs: Seq<VerseData<P>>, t: Slot) -> PetalData<P> {
    data_fractal_at(vs, t).petals@[t.2 as int]
}

/// Slot `t` exists and its petal holds an asset.
pub open spec fn populated_at<P>(vs: Seq<VerseData<P>>, t: Slot) -> bool {
    data_slot_ok(vs, t) && petal_populated(data_petal_at(vs, t))
}

/// `t` is the first populated slot in traversal order.
pub open spec fn first_populated<P>(vs: Seq<VerseData<P>>, t: Slot) -> bool {
    &&& populated_at(vs, t)
    &&& forall|s: Slot| #[trigger] populated_at(vs, s) ==> !slot_lt(s, t)
}

/// The first populated slot, if any petal holds an asset.
pub open spec fn first_populated_slot<P>(vs: Seq<VerseData<P>>) -> Option<Slot> {
    if exists|t: Slot| first_populated(vs, t) {
        Some(choose|t: Slot| first_populated(vs, t))
    } else {
        None
    }
}

/// At most one slot is the first populated one.
proof fn lemma_first_populated_unique<P>(vs: Seq<VerseData<P>>, a: Slot, b: Slot)
    requires
        first_populated(vs, a),
        first_populated(vs, b),
    ensures
        a == b,
{
    assert(!slot_lt(a, b));
    assert(!slot_lt(b, a));
}

/// Whether some node of `p` has an asset path.
fn petal_is_populated<P>(p: &PetalData<P>) -> (r: bool)
    ensures
        r == petal_populated(*p),
{
    let mut k: usize = 0;
    while k < p.nodes.len()
        invariant
            k <= p.nodes@.len(),
            forall|j: int| 0 <= j < k ==> (#[trigger] p.nodes@[j]).asset_path is None,
        decreases p.nodes@.len() - k,
    {
        if p.nodes[k].asset_path.is_some() {
            assert(p.nodes@[k as int].asset_path is Some);
            return true;
        }
        k = k + 1;
    }
    false
}

/// The first slot, in traversal order, whose petal holds an asset.
pub fn first_populated_petal<P>(vs: &Vec<VerseData<P>>) -> (r: Option<Slot>)
    ensures
        r == first_populated_slot(vs@),
        r is None <==> forall|s: Slot| !(#[trigger] populated_at(vs@, s)),
{
    let mut vi: usize = 0;
    while vi < vs.len()
        invariant
            vi <= vs@.len(),
            forall|s: Slot| #[trigger] populated_at(vs@, s) ==> s.0 >= vi,
        decreases vs@.len() - vi,
    {
        let v = &vs[vi];
        let mut fi: usize = 0;
        while fi < v.fractals.len()
            invariant
                vi < vs@.len(),
                *v == vs@[vi as int],
                fi <= v.fractals@.len(),
                forall|s: Slot| #[trigger] populated_at(vs@, s) ==> s.0 > vi || (s.0 == vi && s.1 >= fi),
            decreases v.fractals@.len() - fi,
        {
            let f = &v.fractals[fi];
            let mut pi: usize = 0;
            while pi < f.petals.len()
                invariant
                    vi < vs@.len(),
                    *v == vs@[vi as int],
                    fi < v.fractals@.len(),
                    *f == v.fractals@[fi as int],
                    pi <= f.petals@.len(),
                    forall|s: Slot| #[trigger] populated_at(vs@, s) ==> s.0 > vi || (s.0 == vi && s.1 > fi) || (
                    s.0 == vi && s.1 == fi && s.2 >= pi),
                decreases f.petals@.len() - pi,
            {
                if petal_is_populated(&f.petals[pi]) {
                    let t: Slot = (vi, fi, pi);
                    proof {
                        assert(populated_at(vs@, t));
                        assert(first_populated(vs@, t));
                        assert forall|b: Slot| first_populated(vs@, b) implies b == t by {
                            lemma_first_populated_unique(vs@, t, b);
                        }
                    }
                    return Some(t);
                }
                proof {
                    assert forall|s: Slot| #[trigger] populated_at(vs@, s) implies s.0 > vi || (s.0 == vi && s.1
                        > fi) || (s.0 == vi && s.1 == fi && s.2 >= pi + 1) by {
                        if s.0 == vi && s.1 == fi && s.2 == pi {
                            assert(data_petal_at(vs@, s) == f.petals@[pi as int]);
                        }
                    }
                }
                pi = pi + 1;
            }
            proof {
                assert forall|s: Slot| #[trigger] populated_at(vs@, s) implies s.0 > vi || (s.0 == vi && s.1 >= fi
                    + 1) by {
                    if s.0 == vi && s.1 == fi {
                        assert(s.2 < f.petals@.len());
                    }
                }
            }
            fi = fi + 1;
        }
        proof {
            assert forall|s: Slot| #[trigger] populated_at(vs@, s) implies s.0 >= vi + 1 by {
                if s.0 == vi {
                    assert(s.1 < v.fractals@.len());
                }
            }
        }
        vi = vi + 1;
    }
    proof {
        assert forall|s: Slot| !(#[trigger] populated_at(vs@, s)) by {
            if populated_at(vs@, s) {
                assert(s.0 < vs@.len());
            }
        }
        assert(!exists|t: Slot| first_populated(vs@, t));
    }
    None
}

// ---------------------------------------------------------------------------
// Navigation on the first load
// ---------------------------------------------------------------------------

/// `nav` with the active verse set to the first loaded verse, if any.
pub open spec fn with_first_verse<P>(nav: NavLabels, vs: Seq<VerseData<P>>) -> NavLabels {
    if vs.len() > 0 {
        NavLabels {
            active_verse_id: Some(vs[0].id),
            active_verse_name: vs[0].name,
            active_fractal_id: nav.active_fractal_id,
            active_fractal_name: nav.active_fractal_name,
            active_petal_id: nav.active_petal_id,
        }
    } else {
        nav
    }
}

/// `nav` pointing at the fractal and petal of slot `t`.
pub open spec fn with_petal_at<P>(nav: NavLabels, vs: Seq<VerseData<P>>, t: Slot) -> NavLabels {
    NavLabels {
        active_verse_id: nav.active_verse_id,
        active_verse_name: nav.active_verse_name,
        active_fractal_id: Some(data_fractal_at(vs, t).id),
        active_fractal_name: data_fractal_at(vs, t).name,
        active_petal_id: Some(data_petal_at(vs, t).id),
    }
}

/// The navigation after a load: untouched when a verse is already open;
/// otherwise the first verse becomes active and, when some petal holds an
/// asset, the first such petal and its fractal (which may belong to another
/// verse) are opened too.
pub open spec fn nav_after_load<P>(nav: NavLabels, vs: Seq<VerseData<P>>) -> NavLabels {
    if nav.active_verse_id is Some {
        nav
    } else {
        match first_populated_slot(vs) {
            Some(t) => with_petal_at(with_first_verse(nav, vs), vs, t),
            None => with_first_verse(nav, vs),
        }
    }
}

/// Moves the navigation on the first load (no verse open yet) to the first
/// verse and to the first petal that holds an asset.
pub fn first_load_navigation<P>(vs: &Vec<VerseData<P>>, nav: &mut NavLabels)
    ensures
        *final(nav) == nav_after_load(*old(nav), vs@),
{
    if nav.active_verse_id.is_some() {
        return;
    }
    if vs.len() > 0 {
        nav.active_verse_id = Some(vs[0].id.clone());
        nav.active_verse_name = vs[0].name.clone();
    }
    match first_populated_petal(vs) {
        Some(t) => {
            let f = &vs[t.0].fractals[t.1];
            nav.active_fractal_id = Some(f.id.clone());
            nav.active_fractal_name = f.name.clone();
            nav.active_petal_id = Some(f.petals[t.2].id.clone());
        },
        None => {},
    }
}

// ---------------------------------------------------------------------------
// Rebuilding the tree
// ---------------------------------------------------------------------------

/// `e` is the tree node built from `d`.
pub open spec fn node_built<P>(e: NodeEntry<P>, d: NodeData<P>) -> bool {
    &&& e.id == d.id
    &&& e.name == d.name
    &&& e.has_asset == d.has_asset
    &&& e.position == d.position
    &&& e.webpage_url == d.webpage_url
    &&& e.asset_path == d.asset_path
}

/// `e` is the expanded tree petal built from `d`.
pub open spec fn petal_built<P>(e: PetalEntry<P>, d: PetalData<P>) -> bool {
    &&& e.id == d.id
    &&& e.name == d.name
    &&& e.expanded
    &&& e.nodes@.len() == d.nodes@.len()
    &&& forall|k: int| 0 <= k < d.nodes@.len() ==> node_built(#[trigger] e.nodes@[k], d.nodes@[k])
}

/// `e` is the expanded tree fractal built from `d`.
pub open spec fn fractal_built<P>(e: FractalEntry<P>, d: FractalData<P>) -> bool {
    &&& e.id == d.id
    &&& e.name == d.name
    &&& e.expanded
    &&& e.petals@.len() == d.petals@.len()
    &&& forall|k: int| 0 <= k < d.petals@.len() ==> petal_built(#[trigger] e.petals@[k], d.petals@[k])
}

/// `e` is the expanded tree verse built from `d`.
pub open spec fn verse_built<P>(e: VerseEntry<P>, d: VerseData<P>) -> bool {
    &&& e.id == d.id
    &&& e.name == d.name
    &&& e.namespace_id == d.namespace_id
    &&& e.expanded
    &&& e.fractals@.len() == d.fractals@.len()
    &&& forall|k: int| 0 <= k < d.fractals@.len() ==> fractal_built(#[trigger] e.fractals@[k], d.fractals@[k])
}

/// The whole tree `es` is built from the loaded `ds`, entry for entry.
pub open spec fn tree_built<P>(es: Seq<VerseEntry<P>>, ds: Seq<VerseData<P>>) -> bool {
    &&& es.len() == ds.len()
    &&& forall|k: int| 0 <= k < ds.len() ==> verse_built(#[trigger] es[k], ds[k])
}

/// Node `n` gets a scene entity: it sits in the active petal and has an
/// asset path.
pub open spec fn spawn_wanted<P>(n: NodeData<P>, active_petal: Option<String>) -> bool {
    &&& active_petal matches Some(a) && a@ == n.petal_id@
    &&& n.asset_path is Some
}

/// The spawn request for node `n`.
pub open spec fn spawn_of<P>(n: NodeData<P>) -> SpawnRequest<P> {
    SpawnRequest {
        node_id: n.id,
        petal_id: n.petal_id,
        name: n.name,
        position: n.position,
        asset_path: n.asset_path->0,
    }
}

/// Spawn requests for `ns`, in order.
pub open spec fn node_spawns<P>(ns: Seq<NodeData<P>>, active_petal: Option<String>) -> Seq<SpawnRequest<P>>
    decreases ns.len(),
{
    if ns.len() == 0 {
        Seq::empty()
    } else {
        node_spawns(ns.drop_last(), active_petal) + if spawn_wanted(ns.last(), active_petal) {
            seq![spawn_of(ns.last())]
        } else {
            Seq::empty()
        }
    }
}

/// Spawn requests for the nodes of the petals `ps`, in order.
pub open spec fn petal_spawns<P>(ps: Seq<PetalData<P>>, active_petal: Option<String>) -> Seq<SpawnRequest<P>>
    decreases ps.len(),
{
    if ps.len() == 0 {
        Seq::empty()
    } else {
        petal_spawns(ps.drop_last(), active_petal) + node_spawns(ps.last().nodes@, active_petal)
    }
}

/// Spawn requests for the nodes under the fractals `fs`, in order.
pub open spec fn fractal_spawns<P>(fs: Seq<FractalData<P>>, active_petal: Option<String>) -> Seq<SpawnRequest<P>>
    decreases fs.len(),
{
    if fs.len() == 0 {
        Seq::empty()
    } else {
        fractal_spawns(fs.drop_last(), active_petal) + petal_spawns(fs.last().petals@, active_petal)
    }
}

/// Spawn requests for the nodes under the verses `vs`, in tree order.
pub open spec fn verse_spawns<P>(vs: Seq<VerseData<P>>, active_petal: Option<String>) -> Seq<SpawnRequest<P>>
    decreases vs.len(),
{
    if vs.len() == 0 {
        Seq::empty()
    } else {
        verse_spawns(vs.drop_last(), active_petal) + fractal_spawns(vs.last().fractals@, active_petal)
    }
}

fn build_nodes<P: Copy>(
    ns: &Vec<NodeData<P>>,
    active_petal: &Option<String>,
    spawns: &mut Vec<SpawnRequest<P>>,
) -> (r: Vec<NodeEntry<P>>)
    ensures
        r@.len() == ns@.len(),
        forall|k: int| 0 <= k < ns@.len() ==> node_built(#[trigger] r@[k], ns@[k]),
        final(spawns)@ == old(spawns)@ + node_spawns(ns@, *active_petal),
{
    let mut out: Vec<NodeEntry<P>> = Vec::new();
    let mut k: usize = 0;
    while k < ns.len()
        invariant
            k <= ns@.len(),
            out@.len() == k,
            forall|j: int| 0 <= j < k ==> node_built(#[trigger] out@[j], ns@[j]),
            spawns@ == old(spawns)@ + node_spawns(ns@.take(k as int), *active_petal),
        decreases ns@.len() - k,
    {
        let n = &ns[k];
        proof {
            assert(ns@.take(k + 1).drop_last() =~= ns@.take(k as int));
            assert(ns@.take(k + 1).last() == ns@[k as int]);
        }
        if opt_text_eq(active_petal, n.petal_id.as_str()) {
            match &n.asset_path {
                Some(ap) => {
                    spawns.push(SpawnRequest {
                        node_id: n.id.clone(),
                        petal_id: n.petal_id.clone(),
                        name: n.name.clone(),
                        position: n.position,
                        asset_path: ap.clone(),
                    });
                },
                None => {},
            }
        }
        out.push(NodeEntry {
            id: n.id.clone(),
            name: n.name.clone(),
            has_asset: n.has_asset,
            position: n.position,
            webpage_url: clone_opt_text(&n.webpage_url),
            asset_path: clone_opt_text(&n.asset_path),
        });
        k = k + 1;
    }
    assert(ns@.take(ns@.len() as int) =~= ns@);
    out
}

fn build_petals<P: Copy>(
    ps: &Vec<PetalData<P>>,
    active_petal: &Option<String>,
    spawns: &mut Vec<SpawnRequest<P>>,
) -> (r: Vec<PetalEntry<P>>)
    ensures
        r@.len() == ps@.len(),
        forall|k: int| 0 <= k < ps@.len() ==> petal_built(#[trigger] r@[k], ps@[k]),
        final(spawns)@ == old(spawns)@ + petal_spawns(ps@, *active_petal),
{
    let mut out: Vec<PetalEntry<P>> = Vec::new();
    let mut k: usize = 0;
    while k < ps.len()
        invariant
            k <= ps@.len(),
            out@.len() == k,
            forall|j: int| 0 <= j < k ==> petal_built(#[trigger] out@[j], ps@[j]),
            spawns@ == old(spawns)@ + petal_spawns(ps@.take(k as int), *active_petal),
        decreases ps@.len() - k,
    {
        let p = &ps[k];
        proof {
            assert(ps@.take(k + 1).drop_last() =~= ps@.take(k as int));
            assert(ps@.take(k + 1).last() == ps@[k as int]);
        }
        let nodes = build_nodes(&p.nodes, active_petal, spawns);
        out.push(PetalEntry { id: p.id.clone(), name: p.name.clone(), expanded: true, nodes });
        proof {
            assert(petal_built(out@[k as int], ps@[k as int]));
        }
        k = k + 1;
    }
    assert(ps@.take(ps@.len() as int) =~= ps@);
    out
}

fn build_fractals<P: Copy>(
    fs: &Vec<FractalData<P>>,
    active_petal: &Option<String>,
    spawns: &mut Vec<SpawnRequest<P>>,
) -> (r: Vec<FractalEntry<P>>)
    ensures
        r@.len() == fs@.len(),
        forall|k: int| 0 <= k < fs@.len() ==> fractal_built(#[trigger] r@[k], fs@[k]),
        final(spawns)@ == old(spawns)@ + fractal_spawns(fs@, *active_petal),
{
    let mut out: Vec<FractalEntry<P>> = Vec::new();
    let mut k: usize = 0;
    while k < fs.len()
        invariant
            k <= fs@.len(),
            out@.len() == k,
            forall|j: int| 0 <= j < k ==> fractal_built(#[trigger] out@[j], fs@[j]),
            spawns@ == old(spawns)@ + fractal_spawns(fs@.take(k as int), *active_petal),
        decreases fs@.len() - k,
    {
        let f = &fs[k];
        proof {
            assert(fs@.take(k + 1).drop_last() =~= fs@.take(k as int));
            assert(fs@.take(k + 1).last() == fs@[k as int]);
        }
        let petals = build_petals(&f.petals, active_petal, spawns);
        out.push(FractalEntry { id: f.id.clone(), name: f.name.clone(), expanded: true, petals });
        proof {
            assert(fractal_built(out@[k as int], fs@[k as int]));
        }
        k = k + 1;
    }
    assert(fs@.take(fs@.len() as int) =~= fs@);
    out
}

fn build_verses<P: Copy>(
    vs: &Vec<VerseData<P>>,
    active_petal: &Option<String>,
    spawns: &mut Vec<SpawnRequest<P>>,
) -> (r: Vec<VerseEntry<P>>)
    ensures
        tree_built(r@, vs@),
        final(spawns)@ == old(spawns)@ + verse_spawns(vs@, *active_petal),
{
    let mut out: Vec<VerseEntry<P>> = Vec::new();
    let mut k: usize = 0;
    while k < vs.len()
        invariant
            k <= vs@.len(),
            out@.len() == k,
            forall|j: int| 0 <= j < k ==> verse_built(#[trigger] out@[j], vs@[j]),
            spawns@ == old(spawns)@ + verse_spawns(vs@.take(k as int), *active_petal),
        decreases vs@.len() - k,
    {
        let v = &vs[k];
        proof {
            assert(vs@.take(k + 1).drop_last() =~= vs@.take(k as int));
            assert(vs@.take(k + 1).last() == vs@[k as int]);
        }
        let fractals = build_fractals(&v.fractals, active_petal, spawns);
        out.push(VerseEntry {
            id: v.id.clone(),
            name: v.name.clone(),
            namespace_id: clone_opt_text(&v.namespace_id),
            expanded: true,
            fractals,
        });
        proof {
            assert(verse_built(out@[k as int], vs@[k as int]));
        }
        k = k + 1;
    }
    assert(vs@.take(vs@.len() as int) =~= vs@);
    out
}

/// `HierarchyLoaded`: on the first load, open the first verse and the first
/// petal that holds an asset; rebuild the whole tree (everything expanded)
/// and its node index from the data; return, in tree order, a spawn request
/// for every node of the active petal that has an asset path and is not
/// already live (`already_spawned`, which gains every requested node), and
/// none at all while the mesh budget is exceeded. The caller spawns them and
/// hands the data to any pending API request.
pub fn handle_hierarchy_loaded<P: Copy>(
    vs: &Vec<VerseData<P>>,
    verse_mgr: &mut VerseManager<P>,
    nav: &mut NavLabels,
    already_spawned: &mut StringHashSet,
    mesh_budget_exceeded: bool,
) -> (r: Vec<SpawnRequest<P>>)
    ensures
        *final(nav) == nav_after_load(*old(nav), vs@),
        tree_built(final(verse_mgr).verses@, vs@),
        index_exact(final(verse_mgr).verses@, final(verse_mgr).node_index@),
        mesh_budget_exceeded ==> r@.len() == 0 && final(already_spawned)@ == old(already_spawned)@,
        !mesh_budget_exceeded ==> {
            &&& r@ == fresh_spawns(verse_spawns(vs@, final(nav).active_petal_id), old(already_spawned)@)
            &&& final(already_spawned)@ == old(already_spawned)@.union(
                spawned_ids(verse_spawns(vs@, final(nav).active_petal_id)),
            )
        },
{
    first_load_navigation(vs, nav);
    let active_petal = clone_opt_text(&nav.active_petal_id);
    let mut spawns: Vec<SpawnRequest<P>> = Vec::new();
    let verses = build_verses(vs, &active_petal, &mut spawns);
    verse_mgr.verses = verses;
    verse_mgr.rebuild_node_index();
    // A verse still closed after the tree is in place: open the first one.
    if nav.active_verse_id.is_none() {
        if verse_mgr.verses.len() > 0 {
            nav.active_verse_id = Some(verse_mgr.verses[0].id.clone());
            nav.active_verse_name = verse_mgr.verses[0].name.clone();
        }
    }
    assert(spawns@ =~= verse_spawns(vs@, nav.active_petal_id));
    gate_hierarchy_spawns(spawns, already_spawned, mesh_budget_exceeded)
}

// ---------------------------------------------------------------------------
// Spawn guard across loads
// ---------------------------------------------------------------------------

/// The requests kept from `rs` when the ids in `live` are already on screen:
/// each request whose node is neither live nor requested earlier in `rs`.
pub open spec fn fresh_spawns<P>(rs: Seq<SpawnRequest<P>>, live: Set<Seq<char>>) -> Seq<SpawnRequest<P>>
    decreases rs.len(),
{
    if rs.len() == 0 {
        Seq::empty()
    } else {
        let prev = fresh_spawns(rs.drop_last(), live);
        let id = rs.last().node_id@;
        if live.contains(id) || spawned_ids(rs.drop_last()).contains(id) {
            prev
        } else {
            prev.push(rs.last())
        }
    }
}

/// The node ids of `rs`.
pub open spec fn spawned_ids<P>(rs: Seq<SpawnRequest<P>>) -> Set<Seq<char>> {
    Set::new(|id: Seq<char>| exists|k: int| 0 <= k < rs.len() && (#[trigger] rs[k]).node_id@ == id)
}

/// Repeated hierarchy loads (API polls, joins) must not spawn a node twice:
/// under the mesh-budget gate nothing is spawned; otherwise a request is
/// kept only when its node is not already live (nor kept earlier in the same
/// batch), and every kept node joins the live set.
pub fn gate_hierarchy_spawns<P>(
    spawns: Vec<SpawnRequest<P>>,
    live: &mut StringHashSet,
    mesh_budget_exceeded: bool,
) -> (r: Vec<SpawnRequest<P>>)
    ensures
        mesh_budget_exceeded ==> r@.len() == 0 && final(live)@ == old(live)@,
        !mesh_budget_exceeded ==> {
            &&& r@ == fresh_spawns(spawns@, old(live)@)
            &&& final(live)@ == old(live)@.union(spawned_ids(spawns@))
        },
{
    if mesh_budget_exceeded {
        return Vec::new();
    }
    let ghost live0 = live@;
    let ghost all = spawns@;
    let mut kept: Vec<SpawnRequest<P>> = Vec::new();
    let mut rest = spawns;
    let total: usize = rest.len();
    let mut k: usize = 0;
    while rest.len() > 0
        invariant
            total == all.len(),
            k + rest@.len() == all.len(),
            rest@ == all.skip(k as int),
            kept@ == fresh_spawns(all.take(k as int), live0),
            live@ == live0.union(spawned_ids(all.take(k as int))),
        decreases rest@.len(),
    {
        let r = rest.remove(0);
        proof {
            assert(r == all[k as int]);
            assert(rest@ =~= all.skip(k + 1));
            assert(all.take(k + 1).drop_last() =~= all.take(k as int));
            assert(all.take(k + 1).last() == all[k as int]);
        }
        let ghost pre = all.take(k as int);
        let is_live = live.contains(r.node_id.as_str());
        proof {
            assert(is_live == (live0.contains(r.node_id@) || spawned_ids(pre).contains(r.node_id@)));
        }
        if !is_live {
            live.insert(r.node_id.clone());
            kept.push(r);
        }
        proof {
            let cur = all.take(k + 1);
            assert(live@ =~= live0.union(spawned_ids(cur))) by {
                assert forall|id: Seq<char>| spawned_ids(cur).contains(id) <==> (spawned_ids(pre).contains(id)
                    || id == all[k as int].node_id@) by {
                    if spawned_ids(cur).contains(id) {
                        let j = choose|j: int| 0 <= j < cur.len() && (#[trigger] cur[j]).node_id@ == id;
                        if j < k {
                            assert(pre[j] == cur[j]);
                        }
                    }
                    if spawned_ids(pre).contains(id) {
                        let j = choose|j: int| 0 <= j < pre.len() && (#[trigger] pre[j]).node_id@ == id;
                        assert(cur[j] == pre[j]);
                    }
                    if id == all[k as int].node_id@ {
                        assert(cur[k as int] == all[k as int]);
                    }
                }
            }
        }
        k = k + 1;
    }
    assert(all.take(all.len() as int) =~= all);
    kept
}

/// Law: no node is spawned twice by a batch of hierarchy loads — what one
/// gate keeps was not live before it, what it keeps is pairwise distinct, and
/// it is all live afterwards.
pub proof fn law_spawn_guard_no_duplicates<P>(rs: Seq<SpawnRequest<P>>, live: Set<Seq<char>>)
    ensures
        forall|j: int|
            0 <= j < fresh_spawns(rs, live).len() ==> !live.contains((#[trigger] fresh_spawns(rs, live)[j]).node_id@)
                && spawned_ids(rs).contains(fresh_spawns(rs, live)[j].node_id@),
        forall|i: int, j: int|
            0 <= i < j < fresh_spawns(rs, live).len() ==> (#[trigger] fresh_spawns(rs, live)[i]).node_id@
                != (#[trigger] fresh_spawns(rs, live)[j]).node_id@,
    decreases rs.len(),
{
    if rs.len() > 0 {
        let pre = rs.drop_last();
        law_spawn_guard_no_duplicates(pre, live);
        let prev = fresh_spawns(pre, live);
        let cur = fresh_spawns(rs, live);
        assert forall|j: int| 0 <= j < prev.len() implies spawned_ids(rs).contains(#[trigger] prev[j].node_id@) by {
            let id = prev[j].node_id@;
            assert(spawned_ids(pre).contains(id));
            let m = choose|m: int| 0 <= m < pre.len() && (#[trigger] pre[m]).node_id@ == id;
            assert(rs[m] == pre[m]);
        }
        assert forall|j: int| 0 <= j < cur.len() implies !live.contains((#[trigger] cur[j]).node_id@)
            && spawned_ids(rs).contains(cur[j].node_id@) by {
            if j < prev.len() {
                assert(cur[j] == prev[j]);
            } else {
                assert(cur[j] == rs.last());
                assert(rs[rs.len() - 1] == rs.last());
            }
        }
        assert forall|i: int, j: int| 0 <= i < j < cur.len() implies (#[trigger] cur[i]).node_id@
            != (#[trigger] cur[j]).node_id@ by {
            if j < prev.len() {
                assert(cur[i] == prev[i] && cur[j] == prev[j]);
            } else {
                assert(cur[i] == prev[i]);
                assert(spawned_ids(pre).contains(prev[i].node_id@));
            }
        }
    }
}

} // verus!
