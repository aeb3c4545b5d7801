//! The in-memory verse → fractal → petal → node tree and its node-id index.
//!
//! The index maps a node id to the (verse, fractal, petal) position that
//! holds it. It is a cache: structural edits made behind its back may leave it
//! stale, so every indexed lookup checks the hit and falls back to a full
//! walk, which repairs the entry.
//!
//! Node positions are carried as an opaque `P` (the application uses three
//! `f32` coordinates); nothing here inspects them.

use vstd::prelude::*;
use vstd::hash_map::StringHashMap;

use crate::keyed::Keyed;
use crate::text::str_eq;

verus! {

/// A node: an interactive object placed in a petal.
pub struct NodeEntry<P> {
    pub id: String,
    pub name: String,
    pub has_asset: bool,
    pub position: P,
    pub webpage_url: Option<String>,
    /// Path to the GLTF/GLB asset, if any.
    pub asset_path: Option<String>,
}

/// A petal: one 3D space and the nodes placed in it.
pub struct PetalEntry<P> {
    pub id: String,
    pub name: String,
    pub expanded: bool,
    pub nodes: Vec<NodeEntry<P>>,
}

/// A fractal: a group of petals under a verse.
pub struct FractalEntry<P> {
    pub id: String,
    pub name: String,
    pub expanded: bool,
    pub petals: Vec<PetalEntry<P>>,
}

/// A verse: the top-level namespace.
pub struct VerseEntry<P> {
    pub id: String,
    pub name: String,
    /// Replica namespace used to open the peer-to-peer document.
    pub namespace_id: Option<String>,
    pub expanded: bool,
    pub fractals: Vec<FractalEntry<P>>,
}

/// Position of a petal in the tree: (verse, fractal, petal) indices.
pub type Slot = (usize, usize, usize);

/// The whole tree plus the node-id index.
pub struct VerseManager<P> {
    pub verses: Vec<VerseEntry<P>>,
    /// node id → slot of the petal last seen holding it.
    pub node_index: StringHashMap<Slot>,
}

// ---------------------------------------------------------------------------
// Specification helpers
// ---------------------------------------------------------------------------

/// `t` names an existing petal of `vs`.
pub open spec fn slot_ok<P>(vs: Seq<VerseEntry<P>>, t: Slot) -> bool {
    &&& t.0 < vs.len()
    &&& t.1 < vs[t.0 as int].fractals@.len()
    &&& t.2 < vs[t.0 as int].fractals@[t.1 as int].petals@.len()
}

/// The petal at slot `t`.
pub open spec fn petal_at<P>(vs: Seq<VerseEntry<P>>, t: Slot) -> PetalEntry<P> {
    vs[t.0 as int].fractals@[t.1 as int].petals@[t.2 as int]
}

/// Whether petal `p` holds a node with id `id`.
pub open spec fn petal_holds<P>(p: PetalEntry<P>, id: Seq<char>) -> bool {
    exists|k: int| 0 <= k < p.nodes@.len() && (#[trigger] p.nodes@[k]).id@ == id
}

/// Whether slot `t` exists and its petal holds a node with id `id`.
pub open spec fn node_in_slot<P>(vs: Seq<VerseEntry<P>>, t: Slot, id: Seq<char>) -> bool {
    slot_ok(vs, t) && petal_holds(petal_at(vs, t), id)
}

/// Whether slot `t` exists and its petal has id `pid`.
pub open spec fn petal_in_slot<P>(vs: Seq<VerseEntry<P>>, t: Slot, pid: Seq<char>) -> bool {
    slot_ok(vs, t) && petal_at(vs, t).id@ == pid
}

/// Whether some petal of the tree holds a node with id `id`.
pub open spec fn tree_has_node<P>(vs: Seq<VerseEntry<P>>, id: Seq<char>) -> bool {
    exists|t: Slot| #[trigger] node_in_slot(vs, t, id)
}

/// Whether some petal of the tree has id `pid`.
pub open spec fn tree_has_petal<P>(vs: Seq<VerseEntry<P>>, pid: Seq<char>) -> bool {
    exists|t: Slot| #[trigger] petal_in_slot(vs, t, pid)
}

/// Traversal order of slots (verse first, then fractal, then petal).
pub open spec fn slot_lt(a: Slot, b: Slot) -> bool {
    ||| a.0 < b.0
    ||| a.0 == b.0 && a.1 < b.1
    ||| a.0 == b.0 && a.1 == b.1 && a.2 < b.2
}

/// `t` is the first slot, in traversal order, whose petal has id `pid`.
pub open spec fn first_petal_slot<P>(vs: Seq<VerseEntry<P>>, t: Slot, pid: Seq<char>) -> bool {
    &&& petal_in_slot(vs, t, pid)
    &&& forall|s: Slot| #[trigger] petal_in_slot(vs, s, pid) ==> !slot_lt(s, t)
}

/// `t` is the first slot, in traversal order, whose petal holds node `id`.
pub open spec fn first_node_slot<P>(vs: Seq<VerseEntry<P>>, t: Slot, id: Seq<char>) -> bool {
    &&& node_in_slot(vs, t, id)
    &&& forall|s: Slot| #[trigger] node_in_slot(vs, s, id) ==> !slot_lt(s, t)
}

/// Two trees have the same verses, fractals and petals (ids, names, flags and
/// counts), whatever the nodes in the petals.
pub open spec fn same_skeleton<P>(a: Seq<VerseEntry<P>>, b: Seq<VerseEntry<P>>) -> bool {
    &&& a.len() == b.len()
    &&& forall|vi: int|
        0 <= vi < a.len() ==> {
            &&& (#[trigger] a[vi]).id == b[vi].id
            &&& a[vi].name == b[vi].name
            &&& a[vi].namespace_id == b[vi].namespace_id
            &&& a[vi].expanded == b[vi].expanded
            &&& a[vi].fractals@.len() == b[vi].fractals@.len()
            &&& forall|fi: int|
                0 <= fi < a[vi].fractals@.len() ==> {
                    &&& (#[trigger] a[vi].fractals@[fi]).id == b[vi].fractals@[fi].id
                    &&& a[vi].fractals@[fi].name == b[vi].fractals@[fi].name
                    &&& a[vi].fractals@[fi].expanded == b[vi].fractals@[fi].expanded
                    &&& a[vi].fractals@[fi].petals@.len() == b[vi].fractals@[fi].petals@.len()
                    &&& forall|pi: int|
                        0 <= pi < a[vi].fractals@[fi].petals@.len() ==> {
                            &&& (#[trigger] a[vi].fractals@[fi].petals@[pi]).id
                                == b[vi].fractals@[fi].petals@[pi].id
                            &&& a[vi].fractals@[fi].petals@[pi].name
                                == b[vi].fractals@[fi].petals@[pi].name
                            &&& a[vi].fractals@[fi].petals@[pi].expanded
                                == b[vi].fractals@[fi].petals@[pi].expanded
                        }
                }
        }
}

/// Every petal other than the one at `t` has the same node list in `a` and `b`.
pub open spec fn nodes_same_except<P>(a: Seq<VerseEntry<P>>, b: Seq<VerseEntry<P>>, t: Slot) -> bool {
    forall|s: Slot| slot_ok(a, s) && s != t ==> #[trigger] petal_at(a, s).nodes@ == petal_at(b, s).nodes@
}


// ---------------------------------------------------------------------------
// Lookups
// ---------------------------------------------------------------------------

/// Whether petal `p` holds node `node_id`.
pub fn petal_has_node<P>(p: &PetalEntry<P>, node_id: &str) -> (r: bool)
    ensures
        r == petal_holds(*p, node_id@),
{
    let mut k: usize = 0;
    while k < p.nodes.len()
        invariant
            k <= p.nodes@.len(),
            forall|j: int| 0 <= j < k ==> (#[trigger] p.nodes@[j]).id@ != node_id@,
        decreases p.nodes@.len() - k,
    {
        if str_eq(p.nodes[k].id.as_str(), node_id) {
            return true;
        }
        k = k + 1;
    }
    false
}

/// Index of the first node of `p` with id `node_id`.
pub fn node_position_in_petal<P>(p: &PetalEntry<P>, node_id: &str) -> (r: Option<usize>)
    ensures
        r matches Some(k) ==> k < p.nodes@.len() && p.nodes@[k as int].id@ == node_id@ && forall|
            j: int,
        |
            0 <= j < k ==> (#[trigger] p.nodes@[j]).id@ != node_id@,
        r is None ==> !petal_holds(*p, node_id@),
{
    let mut k: usize = 0;
    while k < p.nodes.len()
        invariant
            k <= p.nodes@.len(),
            forall|j: int| 0 <= j < k ==> (#[trigger] p.nodes@[j]).id@ != node_id@,
        decreases p.nodes@.len() - k,
    {
        if str_eq(p.nodes[k].id.as_str(), node_id) {
            return Some(k);
        }
        k = k + 1;
    }
    None
}

impl<P> VerseManager<P> {
    /// An empty tree with an empty index.
    pub fn new() -> (r: Self)
        ensures
            r.verses@.len() == 0,
            r.node_index@ == Map::<Seq<char>, Slot>::empty(),
    {
        VerseManager { verses: Vec::new(), node_index: StringHashMap::new() }
    }

    /// Slot of the first petal, in traversal order, with id `petal_id`.
    pub fn petal_indices(&self, petal_id: &str) -> (r: Option<Slot>)
        ensures
            r matches Some(t) ==> first_petal_slot(self.verses@, t, petal_id@),
            r is None ==> !tree_has_petal(self.verses@, petal_id@),
    {
        let ghost vs = self.verses@;
        let ghost pid = petal_id@;
        let mut vi: usize = 0;
        while vi < self.verses.len()
            invariant
                vs == self.verses@,
                pid == petal_id@,
                vi <= vs.len(),
                forall|s: Slot| #[trigger] petal_in_slot(vs, s, pid) ==> s.0 >= vi,
            decreases vs.len() - vi,
        {
            let verse = &self.verses[vi];
            let mut fi: usize = 0;
            while fi < verse.fractals.len()
                invariant
                    vs == self.verses@,
                    pid == petal_id@,
                    vi < vs.len(),
                    *verse == vs[vi as int],
                    fi <= verse.fractals@.len(),
                    forall|s: Slot| #[trigger]
                        petal_in_slot(vs, s, pid) ==> s.0 > vi || (s.0 == vi && s.1 >= fi),
                decreases verse.fractals@.len() - fi,
            {
                let fractal = &verse.fractals[fi];
                let mut pi: usize = 0;
                while pi < fractal.petals.len()
                    invariant
                        vs == self.verses@,
                        pid == petal_id@,
                        vi < vs.len(),
                        *verse == vs[vi as int],
                        fi < verse.fractals@.len(),
                        *fractal == verse.fractals@[fi as int],
                        pi <= fractal.petals@.len(),
                        forall|s: Slot| #[trigger]
                            petal_in_slot(vs, s, pid) ==> s.0 > vi || (s.0 == vi && s.1 > fi) || (
                            s.0 == vi && s.1 == fi && s.2 >= pi),
                    decreases fractal.petals@.len() - pi,
                {
                    if str_eq(fractal.petals[pi].id.as_str(), petal_id) {
                        assert(petal_in_slot(vs, (vi, fi, pi), pid));
                        return Some((vi, fi, pi));
                    }
                    pi = pi + 1;
                }
                fi = fi + 1;
            }
            vi = vi + 1;
        }
        None
    }

    /// Slot of the first petal, in traversal order, that holds node `node_id`.
    pub fn walk_for_node(&self, node_id: &str) -> (r: Option<Slot>)
        ensures
            r matches Some(t) ==> first_node_slot(self.verses@, t, node_id@),
            r is None ==> !tree_has_node(self.verses@, node_id@),
    {
        let ghost vs = self.verses@;
        let ghost id = node_id@;
        let mut vi: usize = 0;
        while vi < self.verses.len()
            invariant
                vs == self.verses@,
                id == node_id@,
                vi <= vs.len(),
                forall|s: Slot| #[trigger] node_in_slot(vs, s, id) ==> s.0 >= vi,
            decreases vs.len() - vi,
        {
            let verse = &self.verses[vi];
            let mut fi: usize = 0;
            while fi < verse.fractals.len()
                invariant
                    vs == self.verses@,
                    id == node_id@,
                    vi < vs.len(),
                    *verse == vs[vi as int],
                    fi <= verse.fractals@.len(),
                    forall|s: Slot| #[trigger]
                        node_in_slot(vs, s, id) ==> s.0 > vi || (s.0 == vi && s.1 >= fi),
                decreases verse.fractals@.len() - fi,
            {
                let fractal = &verse.fractals[fi];
                let mut pi: usize = 0;
                while pi < fractal.petals.len()
                    invariant
                        vs == self.verses@,
                        id == node_id@,
                        vi < vs.len(),
                        *verse == vs[vi as int],
                        fi < verse.fractals@.len(),
                        *fractal == verse.fractals@[fi as int],
                        pi <= fractal.petals@.len(),
                        forall|s: Slot| #[trigger]
                            node_in_slot(vs, s, id) ==> s.0 > vi || (s.0 == vi && s.1 > fi) || (
                            s.0 == vi && s.1 == fi && s.2 >= pi),
                    decreases fractal.petals@.len() - pi,
                {
                    if petal_has_node(&fractal.petals[pi], node_id) {
                        assert(node_in_slot(vs, (vi, fi, pi), id));
                        return Some((vi, fi, pi));
                    }
                    pi = pi + 1;
                }
                fi = fi + 1;
            }
            vi = vi + 1;
        }
        None
    }

    /// The first petal, in traversal order, with id `petal_id`.
    pub fn find_petal(&self, petal_id: &str) -> (r: Option<&PetalEntry<P>>)
        ensures
            r matches Some(p) ==> exists|t: Slot|
                #[trigger] first_petal_slot(self.verses@, t, petal_id@) && *p == petal_at(
                    self.verses@,
                    t,
                ),
            r is None ==> !tree_has_petal(self.verses@, petal_id@),
    {
        match self.petal_indices(petal_id) {
            Some((vi, fi, pi)) => Some(&self.verses[vi].fractals[fi].petals[pi]),
            None => None,
        }
    }
}


/// `t` is the last slot, in traversal order, whose petal holds node `id`.
pub open spec fn last_node_slot<P>(vs: Seq<VerseEntry<P>>, t: Slot, id: Seq<char>) -> bool {
    &&& node_in_slot(vs, t, id)
    &&& forall|s: Slot| #[trigger] node_in_slot(vs, s, id) ==> !slot_lt(t, s)
}

/// A scan position: (verse, fractal, petal) as mathematical integers.
pub type Cursor = (int, int, int);

/// Slot `s` comes before scan position `c` in traversal order.
pub open spec fn before_cursor(s: Slot, c: Cursor) -> bool {
    ||| (s.0 as int) < c.0
    ||| s.0 as int == c.0 && (s.1 as int) < c.1
    ||| s.0 as int == c.0 && s.1 as int == c.1 && (s.2 as int) < c.2
}

/// Some slot before `cur` holds node `id`.
pub open spec fn seen_before<P>(vs: Seq<VerseEntry<P>>, cur: Cursor, id: Seq<char>) -> bool {
    exists|s: Slot| #[trigger] node_in_slot(vs, s, id) && before_cursor(s, cur)
}

/// The index built by scanning every slot before `cur`: it maps each node id
/// seen there to the last such slot.
pub open spec fn index_upto<P>(vs: Seq<VerseEntry<P>>, cur: Cursor, idx: Map<Seq<char>, Slot>) -> bool {
    &&& forall|id: Seq<char>| #[trigger] idx.contains_key(id) <==> seen_before(vs, cur, id)
    &&& forall|id: Seq<char>| #[trigger]
        idx.contains_key(id) ==> node_in_slot(vs, idx[id], id) && before_cursor(idx[id], cur)
    &&& forall|id: Seq<char>, s: Slot|
        idx.contains_key(id) && #[trigger] node_in_slot(vs, s, id) && before_cursor(s, cur) ==> !slot_lt(
            #[trigger] idx[id],
            s,
        )
}

/// The index maps every node id of the tree to the last slot holding it, and
/// holds nothing else.
pub open spec fn index_exact<P>(vs: Seq<VerseEntry<P>>, idx: Map<Seq<char>, Slot>) -> bool {
    &&& forall|id: Seq<char>| #[trigger] idx.contains_key(id) <==> tree_has_node(vs, id)
    &&& forall|id: Seq<char>| #[trigger] idx.contains_key(id) ==> last_node_slot(vs, idx[id], id)
}

/// Some of the first `k` nodes has id `id`.
pub open spec fn prefix_has_id<P>(nodes: Seq<NodeEntry<P>>, k: int, id: Seq<char>) -> bool {
    exists|j: int| 0 <= j < k && (#[trigger] nodes[j]).id@ == id
}

/// Points every node id of `p` at slot `t`, leaving other entries alone.
fn index_petal_nodes<P>(idx: &mut StringHashMap<Slot>, p: &PetalEntry<P>, t: Slot)
    ensures
        forall|id: Seq<char>| #[trigger]
            final(idx)@.contains_key(id) <==> old(idx)@.contains_key(id) || petal_holds(*p, id),
        forall|id: Seq<char>| #[trigger]
            final(idx)@.contains_key(id) ==> final(idx)@[id] == (if petal_holds(*p, id) {
                t
            } else {
                old(idx)@[id]
            }),
{
    let ghost start = idx@;
    let mut k: usize = 0;
    while k < p.nodes.len()
        invariant
            k <= p.nodes@.len(),
            forall|id: Seq<char>| #[trigger]
                idx@.contains_key(id) <==> start.contains_key(id) || prefix_has_id(p.nodes@, k as int, id),
            forall|id: Seq<char>| #[trigger]
                idx@.contains_key(id) ==> idx@[id] == (if prefix_has_id(p.nodes@, k as int, id) {
                    t
                } else {
                    start[id]
                }),
        decreases p.nodes@.len() - k,
    {
        let ghost nid = p.nodes@[k as int].id@;
        idx.insert(p.nodes[k].id.clone(), t);
        proof {
            assert forall|id: Seq<char>|
                #[trigger] prefix_has_id(p.nodes@, k + 1, id) <==> (prefix_has_id(p.nodes@, k as int, id) || id == nid) by {
                if id == nid {
                    assert(p.nodes@[k as int].id@ == id);
                }
                if prefix_has_id(p.nodes@, k + 1, id) {
                    let j = choose|j: int| 0 <= j < k + 1 && (#[trigger] p.nodes@[j]).id@ == id;
                    if j < k {
                        assert(prefix_has_id(p.nodes@, k as int, id));
                    }
                }
                if prefix_has_id(p.nodes@, k as int, id) {
                    let j = choose|j: int| 0 <= j < k && (#[trigger] p.nodes@[j]).id@ == id;
                    assert(0 <= j < k + 1);
                }
            }
        }
        k = k + 1;
    }
    proof {
        assert forall|id: Seq<char>| #[trigger] petal_holds(*p, id) <==> prefix_has_id(p.nodes@, p.nodes@.len() as int, id) by {}
    }
}

impl<P> VerseManager<P> {
    /// Rebuild the node-id index from scratch by walking the whole tree.
    pub fn rebuild_node_index(&mut self)
        ensures
            final(self).verses@ == old(self).verses@,
            index_exact(final(self).verses@, final(self).node_index@),
    {
        self.node_index.clear();
        let ghost vs = self.verses@;
        let mut vi: usize = 0;
        while vi < self.verses.len()
            invariant
                vs == self.verses@,
                vi <= vs.len(),
                index_upto(vs, (vi as int, 0, 0), self.node_index@),
            decreases vs.len() - vi,
        {
            let mut fi: usize = 0;
            while fi < self.verses[vi].fractals.len()
                invariant
                    vs == self.verses@,
                    vi < vs.len(),
                    fi <= vs[vi as int].fractals@.len(),
                    index_upto(vs, (vi as int, fi as int, 0), self.node_index@),
                decreases vs[vi as int].fractals@.len() - fi,
            {
                let mut pi: usize = 0;
                while pi < self.verses[vi].fractals[fi].petals.len()
                    invariant
                        vs == self.verses@,
                        vi < vs.len(),
                        fi < vs[vi as int].fractals@.len(),
                        pi <= vs[vi as int].fractals@[fi as int].petals@.len(),
                        index_upto(vs, (vi as int, fi as int, pi as int), self.node_index@),
                    decreases vs[vi as int].fractals@[fi as int].petals@.len() - pi,
                {
                    let ghost before = self.node_index@;
                    let ghost t: Slot = (vi, fi, pi);
                    index_petal_nodes(&mut self.node_index, &self.verses[vi].fractals[fi].petals[pi], (vi, fi, pi));
                    proof {
                        lemma_index_step(vs, t, before, self.node_index@);
                    }
                    pi = pi + 1;
                }
                proof {
                    lemma_index_next_fractal(vs, vi as int, fi as int, self.node_index@);
                }
                fi = fi + 1;
            }
            proof {
                lemma_index_next_verse(vs, vi as int, self.node_index@);
            }
            vi = vi + 1;
        }
        proof {
            lemma_index_complete(vs, self.node_index@);
        }
    }
}

/// Scanning the petal at `t` extends an index built up to `t` to one built up
/// to the next petal slot.
proof fn lemma_index_step<P>(vs: Seq<VerseEntry<P>>, t: Slot, before: Map<Seq<char>, Slot>, after: Map<Seq<char>, Slot>)
    requires
        slot_ok(vs, t),
        index_upto(vs, (t.0 as int, t.1 as int, t.2 as int), before),
        forall|id: Seq<char>| #[trigger]
            after.contains_key(id) <==> before.contains_key(id) || petal_holds(petal_at(vs, t), id),
        forall|id: Seq<char>| #[trigger]
            after.contains_key(id) ==> after[id] == (if petal_holds(petal_at(vs, t), id) {
                t
            } else {
                before[id]
            }),
    ensures
        index_upto(vs, (t.0 as int, t.1 as int, t.2 + 1), after),
{
    let cur: Cursor = (t.0 as int, t.1 as int, t.2 as int);
    let nxt: Cursor = (t.0 as int, t.1 as int, t.2 + 1);
    assert forall|id: Seq<char>| #[trigger] after.contains_key(id) <==> seen_before(vs, nxt, id) by {
        if after.contains_key(id) {
            if petal_holds(petal_at(vs, t), id) {
                assert(node_in_slot(vs, t, id) && before_cursor(t, nxt));
            } else {
                assert(seen_before(vs, cur, id));
                let s = choose|s: Slot| #[trigger] node_in_slot(vs, s, id) && before_cursor(s, cur);
                assert(node_in_slot(vs, s, id) && before_cursor(s, nxt));
            }
        }
        if seen_before(vs, nxt, id) {
            let s = choose|s: Slot| #[trigger] node_in_slot(vs, s, id) && before_cursor(s, nxt);
            if s == t {
            } else {
                assert(before_cursor(s, cur));
                assert(seen_before(vs, cur, id));
            }
        }
    }
    assert forall|id: Seq<char>| #[trigger]
        after.contains_key(id) implies node_in_slot(vs, after[id], id) && before_cursor(after[id], nxt) by {
    }
    assert forall|id: Seq<char>, s: Slot|
        after.contains_key(id) && #[trigger] node_in_slot(vs, s, id) && before_cursor(s, nxt) implies !slot_lt(
        #[trigger] after[id],
        s,
    ) by {
        if petal_holds(petal_at(vs, t), id) {
        } else {
            if s == t {
            } else {
                assert(before_cursor(s, cur));
            }
        }
    }
}

/// Finishing every petal of fractal `fi` is the same as reaching the first
/// petal of fractal `fi + 1`.
proof fn lemma_index_next_fractal<P>(vs: Seq<VerseEntry<P>>, vi: int, fi: int, idx: Map<Seq<char>, Slot>)
    requires
        0 <= vi < vs.len(),
        0 <= fi < vs[vi].fractals@.len(),
        index_upto(vs, (vi, fi, vs[vi].fractals@[fi].petals@.len() as int), idx),
    ensures
        index_upto(vs, (vi, fi + 1, 0), idx),
{
    let a: Cursor = (vi, fi, vs[vi].fractals@[fi].petals@.len() as int);
    let b: Cursor = (vi, fi + 1, 0);
    assert forall|s: Slot| #[trigger] slot_ok(vs, s) implies (before_cursor(s, a) <==> before_cursor(s, b)) by {}
    assert forall|id: Seq<char>| seen_before(vs, a, id) <==> #[trigger] seen_before(vs, b, id) by {
        if seen_before(vs, a, id) {
            let s = choose|s: Slot| #[trigger] node_in_slot(vs, s, id) && before_cursor(s, a);
            assert(slot_ok(vs, s));
            assert(node_in_slot(vs, s, id) && before_cursor(s, b));
        }
        if seen_before(vs, b, id) {
            let s = choose|s: Slot| #[trigger] node_in_slot(vs, s, id) && before_cursor(s, b);
            assert(slot_ok(vs, s));
            assert(node_in_slot(vs, s, id) && before_cursor(s, a));
        }
    }
}

/// Finishing every fractal of verse `vi` is the same as reaching verse `vi + 1`.
proof fn lemma_index_next_verse<P>(vs: Seq<VerseEntry<P>>, vi: int, idx: Map<Seq<char>, Slot>)
    requires
        0 <= vi < vs.len(),
        index_upto(vs, (vi, vs[vi].fractals@.len() as int, 0), idx),
    ensures
        index_upto(vs, (vi + 1, 0, 0), idx),
{
    let a: Cursor = (vi, vs[vi].fractals@.len() as int, 0);
    let b: Cursor = (vi + 1, 0, 0);
    assert forall|s: Slot| #[trigger] slot_ok(vs, s) implies (before_cursor(s, a) <==> before_cursor(s, b)) by {}
    assert forall|id: Seq<char>| seen_before(vs, a, id) <==> #[trigger] seen_before(vs, b, id) by {
        if seen_before(vs, a, id) {
            let s = choose|s: Slot| #[trigger] node_in_slot(vs, s, id) && before_cursor(s, a);
            assert(slot_ok(vs, s));
            assert(node_in_slot(vs, s, id) && before_cursor(s, b));
        }
        if seen_before(vs, b, id) {
            let s = choose|s: Slot| #[trigger] node_in_slot(vs, s, id) && before_cursor(s, b);
            assert(slot_ok(vs, s));
            assert(node_in_slot(vs, s, id) && before_cursor(s, a));
        }
    }
}

/// An index built past the last verse is exact.
proof fn lemma_index_complete<P>(vs: Seq<VerseEntry<P>>, idx: Map<Seq<char>, Slot>)
    requires
        index_upto(vs, (vs.len() as int, 0, 0), idx),
    ensures
        index_exact(vs, idx),
{
    let end: Cursor = (vs.len() as int, 0, 0);
    assert forall|id: Seq<char>| #[trigger] idx.contains_key(id) <==> tree_has_node(vs, id) by {
        if tree_has_node(vs, id) {
            let s = choose|s: Slot| #[trigger] node_in_slot(vs, s, id);
            assert(before_cursor(s, end));
            assert(seen_before(vs, end, id));
        }
        if idx.contains_key(id) {
            assert(node_in_slot(vs, idx[id], id));
        }
    }
    assert forall|id: Seq<char>| #[trigger] idx.contains_key(id) implies last_node_slot(vs, idx[id], id) by {
        assert forall|s: Slot| #[trigger] node_in_slot(vs, s, id) implies !slot_lt(idx[id], s) by {
            assert(before_cursor(s, end));
        }
    }
}

// ---------------------------------------------------------------------------
// Index-backed lookup and edits
// ---------------------------------------------------------------------------

/// The first slot holding node `id` (meaningful when the tree holds it).
pub open spec fn first_node<P>(vs: Seq<VerseEntry<P>>, id: Seq<char>) -> Slot {
    choose|t: Slot| first_node_slot(vs, t, id)
}

/// The first slot whose petal has id `pid` (meaningful when one exists).
pub open spec fn first_petal<P>(vs: Seq<VerseEntry<P>>, pid: Seq<char>) -> Slot {
    choose|t: Slot| first_petal_slot(vs, t, pid)
}

/// The slot an indexed lookup of `id` settles on: the indexed slot when it
/// really holds the node, otherwise the first slot holding it.
pub open spec fn lookup_slot<P>(vs: Seq<VerseEntry<P>>, idx: Map<Seq<char>, Slot>, id: Seq<char>) -> Slot {
    if idx.contains_key(id) && node_in_slot(vs, idx[id], id) {
        idx[id]
    } else {
        first_node(vs, id)
    }
}

/// Index of the first node with id `id` in `nodes`.
pub open spec fn first_node_index<P>(nodes: Seq<NodeEntry<P>>, id: Seq<char>) -> int {
    choose|k: int|
        0 <= k < nodes.len() && (#[trigger] nodes[k]).id@ == id && forall|j: int|
            0 <= j < k ==> (#[trigger] nodes[j]).id@ != id
}

/// `nodes` with every node whose id is `id` left out, order kept.
pub open spec fn without_id<P>(nodes: Seq<NodeEntry<P>>, id: Seq<char>) -> Seq<NodeEntry<P>>
    decreases nodes.len(),
{
    if nodes.len() == 0 {
        nodes
    } else {
        let rest = without_id(nodes.drop_last(), id);
        if nodes.last().id@ == id {
            rest
        } else {
            rest.push(nodes.last())
        }
    }
}

/// There is only one first slot holding a node.
proof fn lemma_first_node_unique<P>(vs: Seq<VerseEntry<P>>, a: Slot, b: Slot, id: Seq<char>)
    requires
        first_node_slot(vs, a, id),
        first_node_slot(vs, b, id),
    ensures
        a == b,
{
    if a != b {
        assert(slot_lt(a, b) || slot_lt(b, a));
    }
}

/// There is only one first slot with a given petal id.
pub proof fn lemma_first_petal_unique<P>(vs: Seq<VerseEntry<P>>, a: Slot, b: Slot, pid: Seq<char>)
    requires
        first_petal_slot(vs, a, pid),
        first_petal_slot(vs, b, pid),
    ensures
        a == b,
{
    if a != b {
        assert(slot_lt(a, b) || slot_lt(b, a));
    }
}

/// The node edit that `update_node_with` performs: `new` is `old` where the
/// first node with `id` in the petal at `t` became `n`.
pub open spec fn tree_node_replaced<P>(
    old: Seq<VerseEntry<P>>,
    new: Seq<VerseEntry<P>>,
    t: Slot,
    id: Seq<char>,
    n: NodeEntry<P>,
) -> bool {
    &&& same_skeleton(old, new)
    &&& nodes_same_except(old, new, t)
    &&& petal_at(new, t).nodes@ == petal_at(old, t).nodes@.update(
        first_node_index(petal_at(old, t).nodes@, id),
        n,
    )
}

impl<P> VerseManager<P> {
    /// A manager over `verses` with the node index built.
    pub fn from_verses(verses: Vec<VerseEntry<P>>) -> (r: Self)
        ensures
            r.verses@ == verses@,
            index_exact(r.verses@, r.node_index@),
    {
        let mut mgr = VerseManager { verses, node_index: StringHashMap::new() };
        mgr.rebuild_node_index();
        mgr
    }

    /// Slot of the petal holding node `node_id`: the indexed slot when it is
    /// still right, else the first slot found by a full walk, which is then
    /// written back into the index.
    pub fn locate_node(&mut self, node_id: &str) -> (r: Option<Slot>)
        ensures
            final(self).verses@ == old(self).verses@,
            tree_has_node(old(self).verses@, node_id@) ==> r == Some(
                lookup_slot(old(self).verses@, old(self).node_index@, node_id@),
            ) && final(self).node_index@ == old(self).node_index@.insert(
                node_id@,
                lookup_slot(old(self).verses@, old(self).node_index@, node_id@),
            ),
            !tree_has_node(old(self).verses@, node_id@) ==> r is None && final(self).node_index@
                == old(self).node_index@,
            r matches Some(t) ==> node_in_slot(old(self).verses@, t, node_id@),
    {
        let ghost vs = self.verses@;
        if let Some(t) = self.node_index.get(node_id) {
            let (vi, fi, pi) = *t;
            if vi < self.verses.len() && fi < self.verses[vi].fractals.len() && pi
                < self.verses[vi].fractals[fi].petals.len() {
                if petal_has_node(&self.verses[vi].fractals[fi].petals[pi], node_id) {
                    proof {
                        assert(node_in_slot(vs, (vi, fi, pi), node_id@));
                        assert(self.node_index@.insert(node_id@, (vi, fi, pi)) =~= self.node_index@);
                    }
                    return Some((vi, fi, pi));
                }
            }
        }
        match self.walk_for_node(node_id) {
            Some(t) => {
                proof {
                    lemma_first_node_unique(vs, t, first_node(vs, node_id@), node_id@);
                }
                self.node_index.insert(node_id.to_string(), t);
                Some(t)
            },
            None => None,
        }
    }

    /// The id of the petal that holds node `node_id`: the indexed petal when
    /// it still holds the node, else the first one found by a full walk;
    /// `None` when no petal holds it. The index is not touched.
    pub fn petal_id_of(&self, node_id: &str) -> (r: Option<&str>)
        ensures
            tree_has_node(self.verses@, node_id@) ==> (r matches Some(p) && p@ == petal_at(
                self.verses@,
                lookup_slot(self.verses@, self.node_index@, node_id@),
            ).id@),
            !tree_has_node(self.verses@, node_id@) ==> r is None,
    {
        let ghost vs = self.verses@;
        if let Some(t) = self.node_index.get(node_id) {
            let (vi, fi, pi) = *t;
            if vi < self.verses.len() && fi < self.verses[vi].fractals.len() && pi
                < self.verses[vi].fractals[fi].petals.len() {
                if petal_has_node(&self.verses[vi].fractals[fi].petals[pi], node_id) {
                    proof {
                        assert(node_in_slot(vs, (vi, fi, pi), node_id@));
                    }
                    return Some(self.verses[vi].fractals[fi].petals[pi].id.as_str());
                }
            }
        }
        match self.walk_for_node(node_id) {
            Some(t) => {
                proof {
                    lemma_first_node_unique(vs, t, first_node(vs, node_id@), node_id@);
                }
                let (vi, fi, pi) = t;
                Some(self.verses[vi].fractals[fi].petals[pi].id.as_str())
            },
            None => None,
        }
    }

    /// Replace the first node with id `node_id` in the petal the lookup
    /// settles on with `f` applied to it; no-op when no petal holds it.
    fn update_node_with(&mut self, node_id: &str, position: Option<P>, url: Option<Option<String>>)
        ensures
            tree_has_node(old(self).verses@, node_id@) ==> {
                let t = lookup_slot(old(self).verses@, old(self).node_index@, node_id@);
                let n0 = petal_at(old(self).verses@, t).nodes@[first_node_index(
                    petal_at(old(self).verses@, t).nodes@,
                    node_id@,
                )];
                let n1 = NodeEntry {
                    position: match position {
                        Some(p) => p,
                        None => n0.position,
                    },
                    webpage_url: match url {
                        Some(u) => u,
                        None => n0.webpage_url,
                    },
                    ..n0
                };
                &&& tree_node_replaced(old(self).verses@, final(self).verses@, t, node_id@, n1)
                &&& final(self).node_index@ == old(self).node_index@.insert(node_id@, t)
            },
            !tree_has_node(old(self).verses@, node_id@) ==> final(self).verses@ == old(
                self,
            ).verses@ && final(self).node_index@ == old(self).node_index@,
    {
        let ghost vs = self.verses@;
        if let Some((vi, fi, pi)) = self.locate_node(node_id) {
            let ghost t: Slot = (vi, fi, pi);
            let k_opt = node_position_in_petal(&self.verses[vi].fractals[fi].petals[pi], node_id);
            if let Some(k) = k_opt {
                proof {
                    let nodes = petal_at(vs, t).nodes@;
                    assert(nodes[k as int].id@ == node_id@);
                    let k2 = first_node_index(nodes, node_id@);
                    assert(0 <= k2 < nodes.len() && nodes[k2].id@ == node_id@ && forall|j: int|
                        0 <= j < k2 ==> (#[trigger] nodes[j]).id@ != node_id@);
                    if k2 < k {
                    } else if k < k2 {
                        assert(nodes[k as int].id@ != node_id@);
                    }
                    assert(k2 == k);
                }
                match position {
                    Some(p) => {
                        self.verses[vi].fractals[fi].petals[pi].nodes[k].position = p;
                    },
                    None => {},
                }
                match url {
                    Some(u) => {
                        self.verses[vi].fractals[fi].petals[pi].nodes[k].webpage_url = u;
                    },
                    None => {},
                }
                proof {
                    assert(same_skeleton(vs, self.verses@));
                    assert forall|s: Slot| slot_ok(vs, s) && s != t implies #[trigger] petal_at(vs, s).nodes@
                        == petal_at(self.verses@, s).nodes@ by {
                        if s.0 != t.0 {
                        } else if s.1 != t.1 {
                        } else {
                        }
                    }
                    assert(petal_at(self.verses@, t).nodes@ =~= petal_at(vs, t).nodes@.update(
                        k as int,
                        petal_at(self.verses@, t).nodes@[k as int],
                    ));
                }
            }
        }
    }

    /// Set the position of node `node_id` (found through the index, which
    /// heals itself when stale); no-op when no petal holds it.
    pub fn update_node_position(&mut self, node_id: &str, position: P)
        ensures
            tree_has_node(old(self).verses@, node_id@) ==> {
                let t = lookup_slot(old(self).verses@, old(self).node_index@, node_id@);
                let n0 = petal_at(old(self).verses@, t).nodes@[first_node_index(
                    petal_at(old(self).verses@, t).nodes@,
                    node_id@,
                )];
                &&& tree_node_replaced(
                    old(self).verses@,
                    final(self).verses@,
                    t,
                    node_id@,
                    NodeEntry { position, ..n0 },
                )
                &&& final(self).node_index@ == old(self).node_index@.insert(node_id@, t)
            },
            !tree_has_node(old(self).verses@, node_id@) ==> final(self).verses@ == old(
                self,
            ).verses@ && final(self).node_index@ == old(self).node_index@,
    {
        self.update_node_with(node_id, Some(position), None);
    }

    /// Set (or clear) the webpage URL of node `node_id`; no-op when no petal
    /// holds it.
    pub fn update_node_url(&mut self, node_id: &str, url: Option<String>)
        ensures
            tree_has_node(old(self).verses@, node_id@) ==> {
                let t = lookup_slot(old(self).verses@, old(self).node_index@, node_id@);
                let n0 = petal_at(old(self).verses@, t).nodes@[first_node_index(
                    petal_at(old(self).verses@, t).nodes@,
                    node_id@,
                )];
                &&& tree_node_replaced(
                    old(self).verses@,
                    final(self).verses@,
                    t,
                    node_id@,
                    NodeEntry { webpage_url: url, ..n0 },
                )
                &&& final(self).node_index@ == old(self).node_index@.insert(node_id@, t)
            },
            !tree_has_node(old(self).verses@, node_id@) ==> final(self).verses@ == old(
                self,
            ).verses@ && final(self).node_index@ == old(self).node_index@,
    {
        self.update_node_with(node_id, None, Some(url));
    }
}

/// `new` is `old` with only the node list of the petal at `t` changed, to `nodes`.
pub open spec fn tree_petal_nodes_set<P>(
    old: Seq<VerseEntry<P>>,
    new: Seq<VerseEntry<P>>,
    t: Slot,
    nodes: Seq<NodeEntry<P>>,
) -> bool {
    &&& same_skeleton(old, new)
    &&& nodes_same_except(old, new, t)
    &&& petal_at(new, t).nodes@ == nodes
}

/// Removes from `nodes` every node whose id is `node_id`, keeping order.
fn remove_nodes_with_id<P>(nodes: &mut Vec<NodeEntry<P>>, node_id: &str)
    ensures
        final(nodes)@ == without_id(old(nodes)@, node_id@),
{
    let ghost orig = nodes@;
    let mut k: usize = 0;
    let ghost mut j: int = 0;
    while k < nodes.len()
        invariant
            0 <= j <= orig.len(),
            nodes@ == without_id(orig.take(j), node_id@) + orig.skip(j),
            k == without_id(orig.take(j), node_id@).len(),
        decreases orig.len() - j,
    {
        proof {
            assert(orig.take(j + 1).drop_last() =~= orig.take(j));
            assert(orig.take(j + 1).last() == orig[j]);
            assert(nodes@[k as int] == orig[j]);
        }
        if str_eq(nodes[k].id.as_str(), node_id) {
            nodes.remove(k);
            proof {
                assert(nodes@ =~= without_id(orig.take(j + 1), node_id@) + orig.skip(j + 1));
                j = j + 1;
            }
        } else {
            proof {
                assert(without_id(orig.take(j + 1), node_id@) =~= without_id(orig.take(j), node_id@).push(orig[j]));
                assert(nodes@ =~= without_id(orig.take(j + 1), node_id@) + orig.skip(j + 1));
                j = j + 1;
            }
            k = k + 1;
        }
    }
    proof {
        if j < orig.len() {
            assert(nodes@.len() > k);
        }
        assert(orig.take(j) =~= orig);
        assert(nodes@ =~= without_id(orig, node_id@));
    }
}

impl<P> VerseManager<P> {
    /// Push `node` into the first petal with id `petal_id` and index it;
    /// `false` (and nothing changed) when no petal has that id.
    pub fn add_node(&mut self, petal_id: &str, node: NodeEntry<P>) -> (r: bool)
        ensures
            r == tree_has_petal(old(self).verses@, petal_id@),
            r ==> {
                let t = first_petal(old(self).verses@, petal_id@);
                &&& tree_petal_nodes_set(
                    old(self).verses@,
                    final(self).verses@,
                    t,
                    petal_at(old(self).verses@, t).nodes@.push(node),
                )
                &&& final(self).node_index@ == old(self).node_index@.insert(node.id@, t)
            },
            !r ==> final(self).verses@ == old(self).verses@ && final(self).node_index@ == old(
                self,
            ).node_index@,
    {
        let ghost vs = self.verses@;
        match self.petal_indices(petal_id) {
            None => false,
            Some((vi, fi, pi)) => {
                proof {
                    lemma_first_petal_unique(vs, (vi, fi, pi), first_petal(vs, petal_id@), petal_id@);
                }
                self.node_index.insert(node.id.clone(), (vi, fi, pi));
                self.verses[vi].fractals[fi].petals[pi].nodes.push(node);
                proof {
                    let t: Slot = (vi, fi, pi);
                    assert(same_skeleton(vs, self.verses@));
                    assert forall|s: Slot| slot_ok(vs, s) && s != t implies #[trigger] petal_at(vs, s).nodes@
                        == petal_at(self.verses@, s).nodes@ by {
                        if s.0 != t.0 {
                        } else if s.1 != t.1 {
                        } else {
                        }
                    }
                }
                true
            },
        }
    }

    /// Drop every node with id `node_id` from the first petal with id
    /// `petal_id` (no tree change when no such petal), and drop the node's
    /// index entry in any case.
    pub fn remove_node(&mut self, petal_id: &str, node_id: &str)
        ensures
            tree_has_petal(old(self).verses@, petal_id@) ==> {
                let t = first_petal(old(self).verses@, petal_id@);
                tree_petal_nodes_set(
                    old(self).verses@,
                    final(self).verses@,
                    t,
                    without_id(petal_at(old(self).verses@, t).nodes@, node_id@),
                )
            },
            !tree_has_petal(old(self).verses@, petal_id@) ==> final(self).verses@ == old(
                self,
            ).verses@,
            final(self).node_index@ == old(self).node_index@.remove(node_id@),
    {
        let ghost vs = self.verses@;
        if let Some((vi, fi, pi)) = self.petal_indices(petal_id) {
            proof {
                lemma_first_petal_unique(vs, (vi, fi, pi), first_petal(vs, petal_id@), petal_id@);
            }
            remove_nodes_with_id(&mut self.verses[vi].fractals[fi].petals[pi].nodes, node_id);
            proof {
                let t: Slot = (vi, fi, pi);
                assert(same_skeleton(vs, self.verses@));
                assert forall|s: Slot| slot_ok(vs, s) && s != t implies #[trigger] petal_at(vs, s).nodes@
                    == petal_at(self.verses@, s).nodes@ by {
                    if s.0 != t.0 {
                    } else if s.1 != t.1 {
                    } else {
                    }
                }
            }
        }
        self.node_index.remove(node_id);
    }

    /// Index of the first verse with id `id`.
    pub fn verse_index(&self, id: &str) -> (r: Option<usize>)
        ensures
            r matches Some(i) ==> i < self.verses@.len() && self.verses@[i as int].id@ == id@
                && forall|j: int| 0 <= j < i ==> (#[trigger] self.verses@[j]).id@ != id@,
            r is None ==> forall|j: int|
                0 <= j < self.verses@.len() ==> (#[trigger] self.verses@[j]).id@ != id@,
    {
        let mut i: usize = 0;
        while i < self.verses.len()
            invariant
                i <= self.verses@.len(),
                forall|j: int| 0 <= j < i ==> (#[trigger] self.verses@[j]).id@ != id@,
            decreases self.verses@.len() - i,
        {
            if str_eq(self.verses[i].id.as_str(), id) {
                return Some(i);
            }
            i = i + 1;
        }
        None
    }

    /// The first verse with id `id`, for in-place edits.
    pub fn find_verse_mut(&mut self, id: &str) -> (r: Option<&mut VerseEntry<P>>)
        ensures
            match r {
                Some(v) => exists|i: int|
                    0 <= i < old(self).verses@.len() && (#[trigger] old(self).verses@[i]).id@ == id@
                        && (forall|j: int|
                        0 <= j < i ==> (#[trigger] old(self).verses@[j]).id@ != id@) && *v == old(
                        self,
                    ).verses@[i] && final(self).verses@ == old(self).verses@.update(i, *final(v)),
                None => forall|j: int|
                    0 <= j < old(self).verses@.len() ==> (#[trigger] old(self).verses@[j]).id@
                        != id@,
            },
            final(self).node_index@ == old(self).node_index@,
    {
        let mut i: usize = 0;
        while i < self.verses.len()
            invariant
                self.verses@ == old(self).verses@,
                self.node_index@ == old(self).node_index@,
                i <= self.verses@.len(),
                forall|j: int| 0 <= j < i ==> (#[trigger] self.verses@[j]).id@ != id@,
            decreases self.verses@.len() - i,
        {
            if str_eq(self.verses[i].id.as_str(), id) {
                return Some(&mut self.verses[i]);
            }
            i = i + 1;
        }
        None
    }
}

// ---------------------------------------------------------------------------
// Traversal
// ---------------------------------------------------------------------------

/// The nodes of `ps`, petal after petal.
pub open spec fn petals_nodes<P>(ps: Seq<PetalEntry<P>>) -> Seq<NodeEntry<P>>
    decreases ps.len(),
{
    if ps.len() == 0 {
        Seq::empty()
    } else {
        petals_nodes(ps.drop_last()) + ps.last().nodes@
    }
}

/// The nodes of `fs`, fractal after fractal.
pub open spec fn fractals_nodes<P>(fs: Seq<FractalEntry<P>>) -> Seq<NodeEntry<P>>
    decreases fs.len(),
{
    if fs.len() == 0 {
        Seq::empty()
    } else {
        fractals_nodes(fs.drop_last()) + petals_nodes(fs.last().petals@)
    }
}

/// Every node of the tree in traversal order.
pub open spec fn tree_nodes<P>(vs: Seq<VerseEntry<P>>) -> Seq<NodeEntry<P>>
    decreases vs.len(),
{
    if vs.len() == 0 {
        Seq::empty()
    } else {
        tree_nodes(vs.drop_last()) + fractals_nodes(vs.last().fractals@)
    }
}

/// `refs` points, in order, at exactly the nodes of `nodes`.
pub open spec fn refs_are<P>(refs: Seq<&NodeEntry<P>>, nodes: Seq<NodeEntry<P>>) -> bool {
    refs.len() == nodes.len() && forall|i: int| 0 <= i < refs.len() ==> *(#[trigger] refs[i]) == nodes[i]
}

impl<P> VerseManager<P> {
    /// Every node of every petal of every fractal of every verse, in
    /// traversal order.
    pub fn all_nodes(&self) -> (r: Vec<&NodeEntry<P>>)
        ensures
            refs_are(r@, tree_nodes(self.verses@)),
    {
        let ghost vs = self.verses@;
        let mut out: Vec<&NodeEntry<P>> = Vec::new();
        let mut vi: usize = 0;
        while vi < self.verses.len()
            invariant
                vs == self.verses@,
                vi <= vs.len(),
                refs_are(out@, tree_nodes(vs.take(vi as int))),
            decreases vs.len() - vi,
        {
            let verse = &self.verses[vi];
            let ghost base_v = tree_nodes(vs.take(vi as int));
            let mut fi: usize = 0;
            while fi < verse.fractals.len()
                invariant
                    vs == self.verses@,
                    vi < vs.len(),
                    *verse == vs[vi as int],
                    base_v == tree_nodes(vs.take(vi as int)),
                    fi <= verse.fractals@.len(),
                    refs_are(out@, base_v + fractals_nodes(verse.fractals@.take(fi as int))),
                decreases verse.fractals@.len() - fi,
            {
                let fractal = &verse.fractals[fi];
                let ghost base_f = base_v + fractals_nodes(verse.fractals@.take(fi as int));
                let mut pi: usize = 0;
                while pi < fractal.petals.len()
                    invariant
                        vs == self.verses@,
                        vi < vs.len(),
                        *verse == vs[vi as int],
                        fi < verse.fractals@.len(),
                        *fractal == verse.fractals@[fi as int],
                        base_f == base_v + fractals_nodes(verse.fractals@.take(fi as int)),
                        pi <= fractal.petals@.len(),
                        refs_are(out@, base_f + petals_nodes(fractal.petals@.take(pi as int))),
                    decreases fractal.petals@.len() - pi,
                {
                    let petal = &fractal.petals[pi];
                    let ghost base_p = base_f + petals_nodes(fractal.petals@.take(pi as int));
                    let mut k: usize = 0;
                    while k < petal.nodes.len()
                        invariant
                            *petal == fractal.petals@[pi as int],
                            k <= petal.nodes@.len(),
                            refs_are(out@, base_p + petal.nodes@.take(k as int)),
                        decreases petal.nodes@.len() - k,
                    {
                        out.push(&petal.nodes[k]);
                        proof {
                            assert(base_p + petal.nodes@.take(k + 1) =~= (base_p + petal.nodes@.take(
                                k as int,
                            )).push(petal.nodes@[k as int]));
                        }
                        k = k + 1;
                    }
                    proof {
                        assert(petal.nodes@.take(k as int) =~= petal.nodes@);
                        assert(fractal.petals@.take(pi + 1).drop_last() =~= fractal.petals@.take(
                            pi as int,
                        ));
                        assert(base_f + petals_nodes(fractal.petals@.take(pi + 1)) =~= base_p
                            + petal.nodes@);
                    }
                    pi = pi + 1;
                }
                proof {
                    assert(fractal.petals@.take(pi as int) =~= fractal.petals@);
                    assert(verse.fractals@.take(fi + 1).drop_last() =~= verse.fractals@.take(
                        fi as int,
                    ));
                    assert(base_v + fractals_nodes(verse.fractals@.take(fi + 1)) =~= base_f
                        + petals_nodes(fractal.petals@));
                }
                fi = fi + 1;
            }
            proof {
                assert(verse.fractals@.take(fi as int) =~= verse.fractals@);
                assert(vs.take(vi + 1).drop_last() =~= vs.take(vi as int));
                assert(tree_nodes(vs.take(vi + 1)) =~= base_v + fractals_nodes(verse.fractals@));
            }
            vi = vi + 1;
        }
        proof {
            assert(vs.take(vi as int) =~= vs);
        }
        out
    }
}

/// The display name of the first petal with id `petal_id`, or `"Unknown"`.
pub fn find_petal_name<P>(hierarchy: &VerseManager<P>, petal_id: &str) -> (r: String)
    ensures
        tree_has_petal(hierarchy.verses@, petal_id@) ==> r@ == petal_at(
            hierarchy.verses@,
            first_petal(hierarchy.verses@, petal_id@),
        ).name@,
        !tree_has_petal(hierarchy.verses@, petal_id@) ==> r@ == "Unknown"@,
{
    match hierarchy.petal_indices(petal_id) {
        Some((vi, fi, pi)) => {
            proof {
                lemma_first_petal_unique(
                    hierarchy.verses@,
                    (vi, fi, pi),
                    first_petal(hierarchy.verses@, petal_id@),
                    petal_id@,
                );
            }
            hierarchy.verses[vi].fractals[fi].petals[pi].name.clone()
        },
        None => "Unknown".to_string(),
    }
}

impl<P> Keyed for NodeEntry<P> {
    open spec fn key(&self) -> Seq<char> {
        self.id@
    }

    fn key_str(&self) -> (r: &str) {
        self.id.as_str()
    }
}

impl<P> Keyed for PetalEntry<P> {
    open spec fn key(&self) -> Seq<char> {
        self.id@
    }

    fn key_str(&self) -> (r: &str) {
        self.id.as_str()
    }
}

impl<P> Keyed for FractalEntry<P> {
    open spec fn key(&self) -> Seq<char> {
        self.id@
    }

    fn key_str(&self) -> (r: &str) {
        self.id.as_str()
    }
}

impl<P> Keyed for VerseEntry<P> {
    open spec fn key(&self) -> Seq<char> {
        self.id@
    }

    fn key_str(&self) -> (r: &str) {
        self.id.as_str()
    }
}

// ---------------------------------------------------------------------------
// Laws
// ---------------------------------------------------------------------------

/// `without_id` keeps no node with that id.
proof fn lemma_without_id_drops<P>(nodes: Seq<NodeEntry<P>>, id: Seq<char>)
    ensures
        forall|k: int| 0 <= k < without_id(nodes, id).len() ==> (#[trigger] without_id(nodes, id)[k]).id@ != id,
    decreases nodes.len(),
{
    if nodes.len() > 0 {
        lemma_without_id_drops(nodes.drop_last(), id);
    }
}

/// Law: a node added to a petal (as `add_node` leaves the tree and index)
/// is found by an indexed lookup in exactly that petal.
pub proof fn law_added_node_is_located<P>(
    old_vs: Seq<VerseEntry<P>>,
    new_vs: Seq<VerseEntry<P>>,
    idx: Map<Seq<char>, Slot>,
    t: Slot,
    node: NodeEntry<P>,
)
    requires
        slot_ok(old_vs, t),
        tree_petal_nodes_set(old_vs, new_vs, t, petal_at(old_vs, t).nodes@.push(node)),
    ensures
        lookup_slot(new_vs, idx.insert(node.id@, t), node.id@) == t,
        node_in_slot(new_vs, t, node.id@),
{
    let nodes = petal_at(new_vs, t).nodes@;
    assert(nodes[nodes.len() - 1] == node);
    assert(petal_holds(petal_at(new_vs, t), node.id@));
}

/// Law: after a node is removed from a petal (as `remove_node` leaves the
/// tree and index), that petal holds no node with its id and the index has
/// no entry for it.
pub proof fn law_removed_node_is_gone<P>(
    old_vs: Seq<VerseEntry<P>>,
    new_vs: Seq<VerseEntry<P>>,
    idx: Map<Seq<char>, Slot>,
    t: Slot,
    id: Seq<char>,
)
    requires
        slot_ok(old_vs, t),
        tree_petal_nodes_set(old_vs, new_vs, t, without_id(petal_at(old_vs, t).nodes@, id)),
    ensures
        !node_in_slot(new_vs, t, id),
        !idx.remove(id).contains_key(id),
{
    lemma_without_id_drops(petal_at(old_vs, t).nodes@, id);
}

} // verus!
