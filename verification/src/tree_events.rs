//! How database results about verses, fractals and petals change the
//! in-memory tree and the active-navigation labels.
//!
//! Effects that belong to the windowing side (re-sending the hierarchy
//! query, backing navigation out of a deleted scope, closing a dialog) are
//! returned as values for the caller to carry out.

use vstd::prelude::*;

use crate::hierarchy::{index_exact, FractalEntry, PetalEntry, VerseEntry, VerseManager};
use crate::keyed::{first_with_key, position_of_key, remove_with_key, without_key};
use crate::text::{opt_text_eq, opt_text_is, str_eq};

verus! {

/// The kind of tree entity a rename or delete names.
#[derive(Clone, Copy, Debug, PartialEq, Eq, Structural)]
pub enum EntityType {
    Verse,
    Fractal,
    Petal,
}

/// The part of the navigation state that tree events read or relabel.
pub struct NavLabels {
    pub active_verse_id: Option<String>,
    pub active_verse_name: String,
    pub active_fractal_id: Option<String>,
    pub active_fractal_name: String,
    pub active_petal_id: Option<String>,
}

/// Which navigation scope must be left after a delete.
#[derive(Clone, Copy, Debug, PartialEq, Eq, Structural)]
pub enum NavBackout {
    Stay,
    FromVerse,
    FromFractal,
    FromPetal,
}

/// `v` is a freshly created, empty, expanded verse with these id and name.
pub open spec fn fresh_verse<P>(v: VerseEntry<P>, id: Seq<char>, name: Seq<char>) -> bool {
    v.id@ == id && v.name@ == name && v.namespace_id is None && v.expanded && v.fractals@.len() == 0
}

/// `f` is a freshly created, empty, expanded fractal with these id and name.
pub open spec fn fresh_fractal<P>(f: FractalEntry<P>, id: Seq<char>, name: Seq<char>) -> bool {
    f.id@ == id && f.name@ == name && f.expanded && f.petals@.len() == 0
}

/// `p` is a freshly created, empty, expanded petal with these id and name.
pub open spec fn fresh_petal<P>(p: PetalEntry<P>, id: Seq<char>, name: Seq<char>) -> bool {
    p.id@ == id && p.name@ == name && p.expanded && p.nodes@.len() == 0
}

/// `VerseCreated`: append an empty verse.
pub fn handle_verse_created<P>(id: &str, name: &str, verse_mgr: &mut VerseManager<P>)
    ensures
        final(verse_mgr).verses@.len() == old(verse_mgr).verses@.len() + 1,
        final(verse_mgr).verses@.drop_last() == old(verse_mgr).verses@,
        fresh_verse(final(verse_mgr).verses@.last(), id@, name@),
        final(verse_mgr).node_index@ == old(verse_mgr).node_index@,
{
    verse_mgr.verses.push(
        VerseEntry {
            id: id.to_string(),
            name: name.to_string(),
            namespace_id: None,
            expanded: true,
            fractals: Vec::new(),
        },
    );
    assert(verse_mgr.verses@.drop_last() =~= old(verse_mgr).verses@);
}

/// `FractalCreated`: append an empty fractal under the first verse with id
/// `verse_id`; nothing happens when there is none.
pub fn handle_fractal_created<P>(id: &str, verse_id: &str, name: &str, verse_mgr: &mut VerseManager<P>)
    ensures
        final(verse_mgr).node_index@ == old(verse_mgr).node_index@,
        final(verse_mgr).verses@.len() == old(verse_mgr).verses@.len(),
        (forall|j: int|
            0 <= j < old(verse_mgr).verses@.len() ==> (#[trigger] old(verse_mgr).verses@[j]).id@
                != verse_id@) ==> final(verse_mgr).verses@ == old(verse_mgr).verses@,
        forall|i: int|
            0 <= i < old(verse_mgr).verses@.len() && (#[trigger] old(verse_mgr).verses@[i]).id@
                == verse_id@ && (forall|j: int|
                0 <= j < i ==> (#[trigger] old(verse_mgr).verses@[j]).id@ != verse_id@) ==> {
                let v0 = old(verse_mgr).verses@[i];
                let v1 = final(verse_mgr).verses@[i];
                &&& final(verse_mgr).verses@ == old(verse_mgr).verses@.update(i, v1)
                &&& v1.id == v0.id && v1.name == v0.name && v1.namespace_id == v0.namespace_id
                    && v1.expanded == v0.expanded
                &&& v1.fractals@.drop_last() == v0.fractals@
                &&& v1.fractals@.len() == v0.fractals@.len() + 1
                &&& fresh_fractal(v1.fractals@.last(), id@, name@)
            },
{
    match verse_mgr.verse_index(verse_id) {
        Some(i) => {
            let ghost v0 = verse_mgr.verses@[i as int];
            verse_mgr.verses[i].fractals.push(
                FractalEntry {
                    id: id.to_string(),
                    name: name.to_string(),
                    expanded: true,
                    petals: Vec::new(),
                },
            );
            assert(verse_mgr.verses@[i as int].fractals@.drop_last() =~= v0.fractals@);
            assert(verse_mgr.verses@ =~= old(verse_mgr).verses@.update(i as int, verse_mgr.verses@[i as int]));
        },
        None => {},
    }
}

/// `a` and `b` are the same verse apart from its fractal list.
pub open spec fn verse_meta_same<P>(a: VerseEntry<P>, b: VerseEntry<P>) -> bool {
    a.id == b.id && a.name == b.name && a.namespace_id == b.namespace_id && a.expanded == b.expanded
}

/// `a` and `b` are the same fractal apart from its petal list.
pub open spec fn fractal_meta_same<P>(a: FractalEntry<P>, b: FractalEntry<P>) -> bool {
    a.id == b.id && a.name == b.name && a.expanded == b.expanded
}

/// `a` and `b` are the same petal apart from its name.
pub open spec fn petal_same_but_name<P>(a: PetalEntry<P>, b: PetalEntry<P>) -> bool {
    a.id == b.id && a.expanded == b.expanded && a.nodes == b.nodes
}

/// The petal list `new` is `old` with a fresh petal appended.
pub open spec fn petals_appended<P>(old: Seq<PetalEntry<P>>, new: Seq<PetalEntry<P>>, id: Seq<char>, name: Seq<char>) -> bool {
    new.len() == old.len() + 1 && new.drop_last() == old && fresh_petal(new.last(), id, name)
}

/// `PetalCreated`: in every verse, the first fractal with id `fractal_id`
/// gets an empty petal appended.
pub fn handle_petal_created<P>(id: &str, fractal_id: &str, name: &str, verse_mgr: &mut VerseManager<P>)
    ensures
        final(verse_mgr).node_index@ == old(verse_mgr).node_index@,
        final(verse_mgr).verses@.len() == old(verse_mgr).verses@.len(),
        forall|vi: int|
            0 <= vi < old(verse_mgr).verses@.len() ==> {
                let v0 = #[trigger] old(verse_mgr).verses@[vi];
                let v1 = final(verse_mgr).verses@[vi];
                let target = first_with_key(v0.fractals@, fractal_id@);
                &&& verse_meta_same(v0, v1)
                &&& v1.fractals@.len() == v0.fractals@.len()
                &&& forall|fi: int|
                    0 <= fi < v0.fractals@.len() ==> {
                        &&& fractal_meta_same(#[trigger] v0.fractals@[fi], v1.fractals@[fi])
                        &&& if fi == target {
                            petals_appended(v0.fractals@[fi].petals@, v1.fractals@[fi].petals@, id@, name@)
                        } else {
                            v1.fractals@[fi].petals == v0.fractals@[fi].petals
                        }
                    }
            },
{
    let ghost old_vs = verse_mgr.verses@;
    let mut vi: usize = 0;
    while vi < verse_mgr.verses.len()
        invariant
            verse_mgr.node_index@ == old(verse_mgr).node_index@,
            old_vs == old(verse_mgr).verses@,
            verse_mgr.verses@.len() == old_vs.len(),
            vi <= old_vs.len(),
            forall|j: int| vi <= j < old_vs.len() ==> verse_mgr.verses@[j] == #[trigger] old_vs[j],
            forall|j: int|
                0 <= j < vi ==> {
                    let v0 = #[trigger] old_vs[j];
                    let v1 = verse_mgr.verses@[j];
                    let target = first_with_key(v0.fractals@, fractal_id@);
                    &&& verse_meta_same(v0, v1)
                    &&& v1.fractals@.len() == v0.fractals@.len()
                    &&& forall|fi: int|
                        0 <= fi < v0.fractals@.len() ==> {
                            &&& fractal_meta_same(#[trigger] v0.fractals@[fi], v1.fractals@[fi])
                            &&& if fi == target {
                                petals_appended(v0.fractals@[fi].petals@, v1.fractals@[fi].petals@, id@, name@)
                            } else {
                                v1.fractals@[fi].petals == v0.fractals@[fi].petals
                            }
                        }
                },
        decreases old_vs.len() - vi,
    {
        let found = position_of_key(&verse_mgr.verses[vi].fractals, fractal_id);
        let ghost before = verse_mgr.verses@;
        if let Some(fi) = found {
            let ghost p0 = verse_mgr.verses@[vi as int].fractals@[fi as int].petals@;
            verse_mgr.verses[vi].fractals[fi].petals.push(
                PetalEntry { id: id.to_string(), name: name.to_string(), expanded: true, nodes: Vec::new() },
            );
            assert(verse_mgr.verses@[vi as int].fractals@[fi as int].petals@.drop_last() =~= p0);
        }
        proof {
            assert forall|j: int| vi < j < old_vs.len() implies verse_mgr.verses@[j] == #[trigger] old_vs[j] by {
                assert(verse_mgr.verses@[j] == before[j]);
            }
        }
        vi = vi + 1;
    }
}

/// `EntityRenamed`: rename the entity in the tree (the first verse with the
/// id; in every verse the first fractal with the id; in every fractal the
/// first petal with the id) and keep the active-navigation label in step.
pub fn handle_entity_renamed<P>(
    entity_type: EntityType,
    entity_id: &str,
    new_name: &str,
    verse_mgr: &mut VerseManager<P>,
    nav: &mut NavLabels,
)
    ensures
        final(verse_mgr).node_index@ == old(verse_mgr).node_index@,
        final(verse_mgr).verses@.len() == old(verse_mgr).verses@.len(),
        final(nav).active_verse_id == old(nav).active_verse_id,
        final(nav).active_fractal_id == old(nav).active_fractal_id,
        final(nav).active_petal_id == old(nav).active_petal_id,
        entity_type == EntityType::Verse ==> {
            let target = first_with_key(old(verse_mgr).verses@, entity_id@);
            &&& forall|vi: int|
                0 <= vi < old(verse_mgr).verses@.len() ==> if vi == target {
                    let v0 = old(verse_mgr).verses@[vi];
                    let v1 = final(verse_mgr).verses@[vi];
                    v1.id == v0.id && v1.name@ == new_name@ && v1.namespace_id == v0.namespace_id
                        && v1.expanded == v0.expanded && v1.fractals == v0.fractals
                } else {
                    final(verse_mgr).verses@[vi] == #[trigger] old(verse_mgr).verses@[vi]
                }
            &&& if opt_text_is(old(nav).active_verse_id, entity_id@) {
                final(nav).active_verse_name@ == new_name@
            } else {
                final(nav).active_verse_name == old(nav).active_verse_name
            }
            &&& final(nav).active_fractal_name == old(nav).active_fractal_name
        },
        entity_type == EntityType::Fractal ==> {
            &&& forall|vi: int|
                0 <= vi < old(verse_mgr).verses@.len() ==> {
                    let v0 = #[trigger] old(verse_mgr).verses@[vi];
                    let v1 = final(verse_mgr).verses@[vi];
                    let target = first_with_key(v0.fractals@, entity_id@);
                    &&& verse_meta_same(v0, v1)
                    &&& v1.fractals@.len() == v0.fractals@.len()
                    &&& forall|fi: int|
                        0 <= fi < v0.fractals@.len() ==> if fi == target {
                            let f0 = v0.fractals@[fi];
                            let f1 = v1.fractals@[fi];
                            f1.id == f0.id && f1.name@ == new_name@ && f1.expanded == f0.expanded
                                && f1.petals == f0.petals
                        } else {
                            v1.fractals@[fi] == #[trigger] v0.fractals@[fi]
                        }
                }
            &&& if opt_text_is(old(nav).active_fractal_id, entity_id@) {
                final(nav).active_fractal_name@ == new_name@
            } else {
                final(nav).active_fractal_name == old(nav).active_fractal_name
            }
            &&& final(nav).active_verse_name == old(nav).active_verse_name
        },
        entity_type == EntityType::Petal ==> {
            &&& forall|vi: int|
                0 <= vi < old(verse_mgr).verses@.len() ==> verse_petal_renamed(
                    #[trigger] old(verse_mgr).verses@[vi],
                    final(verse_mgr).verses@[vi],
                    entity_id@,
                    new_name@,
                )
            &&& final(nav).active_verse_name == old(nav).active_verse_name
            &&& final(nav).active_fractal_name == old(nav).active_fractal_name
        },
{
    match entity_type {
        EntityType::Verse => {
            if let Some(i) = position_of_key(&verse_mgr.verses, entity_id) {
                verse_mgr.verses[i].name = new_name.to_string();
            }
            if opt_text_eq(&nav.active_verse_id, entity_id) {
                nav.active_verse_name = new_name.to_string();
            }
        },
        EntityType::Fractal => {
            rename_fractals(entity_id, new_name, verse_mgr);
            if opt_text_eq(&nav.active_fractal_id, entity_id) {
                nav.active_fractal_name = new_name.to_string();
            }
        },
        EntityType::Petal => {
            rename_petals(entity_id, new_name, verse_mgr);
        },
    }
}

fn rename_fractals<P>(entity_id: &str, new_name: &str, verse_mgr: &mut VerseManager<P>)
    ensures
        final(verse_mgr).node_index@ == old(verse_mgr).node_index@,
        final(verse_mgr).verses@.len() == old(verse_mgr).verses@.len(),
        forall|vi: int|
            0 <= vi < old(verse_mgr).verses@.len() ==> {
                let v0 = #[trigger] old(verse_mgr).verses@[vi];
                let v1 = final(verse_mgr).verses@[vi];
                let target = first_with_key(v0.fractals@, entity_id@);
                &&& verse_meta_same(v0, v1)
                &&& v1.fractals@.len() == v0.fractals@.len()
                &&& forall|fi: int|
                    0 <= fi < v0.fractals@.len() ==> if fi == target {
                        let f0 = v0.fractals@[fi];
                        let f1 = v1.fractals@[fi];
                        f1.id == f0.id && f1.name@ == new_name@ && f1.expanded == f0.expanded
                            && f1.petals == f0.petals
                    } else {
                        v1.fractals@[fi] == #[trigger] v0.fractals@[fi]
                    }
            },
{
    let ghost old_vs = verse_mgr.verses@;
    let mut vi: usize = 0;
    while vi < verse_mgr.verses.len()
        invariant
            verse_mgr.node_index@ == old(verse_mgr).node_index@,
            old_vs == old(verse_mgr).verses@,
            verse_mgr.verses@.len() == old_vs.len(),
            vi <= old_vs.len(),
            forall|j: int| vi <= j < old_vs.len() ==> verse_mgr.verses@[j] == #[trigger] old_vs[j],
            forall|j: int|
                0 <= j < vi ==> {
                    let v0 = #[trigger] old_vs[j];
                    let v1 = verse_mgr.verses@[j];
                    let target = first_with_key(v0.fractals@, entity_id@);
                    &&& verse_meta_same(v0, v1)
                    &&& v1.fractals@.len() == v0.fractals@.len()
                    &&& forall|fi: int|
                        0 <= fi < v0.fractals@.len() ==> if fi == target {
                            let f0 = v0.fractals@[fi];
                            let f1 = v1.fractals@[fi];
                            f1.id == f0.id && f1.name@ == new_name@ && f1.expanded == f0.expanded
                                && f1.petals == f0.petals
                        } else {
                            v1.fractals@[fi] == #[trigger] v0.fractals@[fi]
                        }
                },
        decreases old_vs.len() - vi,
    {
        let found = position_of_key(&verse_mgr.verses[vi].fractals, entity_id);
        let ghost before = verse_mgr.verses@;
        if let Some(fi) = found {
            verse_mgr.verses[vi].fractals[fi].name = new_name.to_string();
        }
        proof {
            assert forall|j: int| vi < j < old_vs.len() implies verse_mgr.verses@[j] == #[trigger] old_vs[j] by {
                assert(verse_mgr.verses@[j] == before[j]);
            }
        }
        vi = vi + 1;
    }
}

/// `f1` is `f0` with its first petal of id `id` renamed to `name`.
pub open spec fn fractal_petal_renamed<P>(f0: FractalEntry<P>, f1: FractalEntry<P>, id: Seq<char>, name: Seq<char>) -> bool {
    let target = first_with_key(f0.petals@, id);
    &&& fractal_meta_same(f0, f1)
    &&& f1.petals@.len() == f0.petals@.len()
    &&& forall|pi: int|
        0 <= pi < f0.petals@.len() ==> if pi == target {
            petal_same_but_name(f0.petals@[pi], f1.petals@[pi]) && f1.petals@[pi].name@ == name
        } else {
            f1.petals@[pi] == #[trigger] f0.petals@[pi]
        }
}

/// `v1` is `v0` with, in each fractal, the first petal of id `id` renamed.
pub open spec fn verse_petal_renamed<P>(v0: VerseEntry<P>, v1: VerseEntry<P>, id: Seq<char>, name: Seq<char>) -> bool {
    &&& verse_meta_same(v0, v1)
    &&& v1.fractals@.len() == v0.fractals@.len()
    &&& forall|fi: int|
        0 <= fi < v0.fractals@.len() ==> fractal_petal_renamed(
            #[trigger] v0.fractals@[fi],
            v1.fractals@[fi],
            id,
            name,
        )
}

fn rename_petal_in_fractal<P>(fractal: &mut FractalEntry<P>, entity_id: &str, new_name: &str)
    ensures
        fractal_petal_renamed(*old(fractal), *final(fractal), entity_id@, new_name@),
{
    if let Some(pi) = position_of_key(&fractal.petals, entity_id) {
        fractal.petals[pi].name = new_name.to_string();
    }
}

fn rename_petal_in_verse<P>(verse: &mut VerseEntry<P>, entity_id: &str, new_name: &str)
    ensures
        verse_petal_renamed(*old(verse), *final(verse), entity_id@, new_name@),
{
    let ghost v0 = *verse;
    let mut fi: usize = 0;
    while fi < verse.fractals.len()
        invariant
            verse_meta_same(v0, *verse),
            verse.fractals@.len() == v0.fractals@.len(),
            fi <= v0.fractals@.len(),
            forall|gi: int| fi <= gi < v0.fractals@.len() ==> verse.fractals@[gi] == #[trigger] v0.fractals@[gi],
            forall|gi: int|
                0 <= gi < fi ==> fractal_petal_renamed(#[trigger] v0.fractals@[gi], verse.fractals@[gi], entity_id@, new_name@),
        decreases v0.fractals@.len() - fi,
    {
        let ghost before = verse.fractals@;
        rename_petal_in_fractal(&mut verse.fractals[fi], entity_id, new_name);
        proof {
            assert forall|gi: int| fi < gi < v0.fractals@.len() implies verse.fractals@[gi] == #[trigger] v0.fractals@[gi] by {
                assert(verse.fractals@[gi] == before[gi]);
            }
            assert forall|gi: int| 0 <= gi < fi + 1 implies fractal_petal_renamed(#[trigger] v0.fractals@[gi], verse.fractals@[gi], entity_id@, new_name@) by {
                if gi < fi {
                    assert(verse.fractals@[gi] == before[gi]);
                }
            }
        }
        fi = fi + 1;
    }
}

fn rename_petals<P>(entity_id: &str, new_name: &str, verse_mgr: &mut VerseManager<P>)
    ensures
        final(verse_mgr).node_index@ == old(verse_mgr).node_index@,
        final(verse_mgr).verses@.len() == old(verse_mgr).verses@.len(),
        forall|vi: int|
            0 <= vi < old(verse_mgr).verses@.len() ==> verse_petal_renamed(
                #[trigger] old(verse_mgr).verses@[vi],
                final(verse_mgr).verses@[vi],
                entity_id@,
                new_name@,
            ),
{
    let ghost old_vs = verse_mgr.verses@;
    let mut vi: usize = 0;
    while vi < verse_mgr.verses.len()
        invariant
            verse_mgr.node_index@ == old(verse_mgr).node_index@,
            old_vs == old(verse_mgr).verses@,
            verse_mgr.verses@.len() == old_vs.len(),
            vi <= old_vs.len(),
            forall|j: int| vi <= j < old_vs.len() ==> verse_mgr.verses@[j] == #[trigger] old_vs[j],
            forall|j: int|
                0 <= j < vi ==> verse_petal_renamed(#[trigger] old_vs[j], verse_mgr.verses@[j], entity_id@, new_name@),
        decreases old_vs.len() - vi,
    {
        let ghost before = verse_mgr.verses@;
        rename_petal_in_verse(&mut verse_mgr.verses[vi], entity_id, new_name);
        proof {
            assert forall|j: int| vi < j < old_vs.len() implies verse_mgr.verses@[j] == #[trigger] old_vs[j] by {
                assert(verse_mgr.verses@[j] == before[j]);
            }
            assert forall|j: int| 0 <= j < vi + 1 implies verse_petal_renamed(#[trigger] old_vs[j], verse_mgr.verses@[j], entity_id@, new_name@) by {
                if j < vi {
                    assert(verse_mgr.verses@[j] == before[j]);
                }
            }
        }
        vi = vi + 1;
    }
}

/// `f1` is `f0` with every petal of id `id` removed.
pub open spec fn fractal_petal_removed<P>(f0: FractalEntry<P>, f1: FractalEntry<P>, id: Seq<char>) -> bool {
    fractal_meta_same(f0, f1) && f1.petals@ == without_key(f0.petals@, id)
}

/// `v1` is `v0` with, in each fractal, every petal of id `id` removed.
pub open spec fn verse_petal_removed<P>(v0: VerseEntry<P>, v1: VerseEntry<P>, id: Seq<char>) -> bool {
    &&& verse_meta_same(v0, v1)
    &&& v1.fractals@.len() == v0.fractals@.len()
    &&& forall|fi: int|
        0 <= fi < v0.fractals@.len() ==> fractal_petal_removed(#[trigger] v0.fractals@[fi], v1.fractals@[fi], id)
}

/// `v1` is `v0` with every fractal of id `id` removed.
pub open spec fn verse_fractal_removed<P>(v0: VerseEntry<P>, v1: VerseEntry<P>, id: Seq<char>) -> bool {
    verse_meta_same(v0, v1) && v1.fractals@ == without_key(v0.fractals@, id)
}

/// The navigation scope a delete of `(entity_type, id)` leaves, given the
/// active ids.
pub open spec fn backout_for(entity_type: EntityType, id: Seq<char>, nav: NavLabels) -> NavBackout {
    match entity_type {
        EntityType::Verse => if opt_text_is(nav.active_verse_id, id) { NavBackout::FromVerse } else { NavBackout::Stay },
        EntityType::Fractal => if opt_text_is(nav.active_fractal_id, id) { NavBackout::FromFractal } else { NavBackout::Stay },
        EntityType::Petal => if opt_text_is(nav.active_petal_id, id) { NavBackout::FromPetal } else { NavBackout::Stay },
    }
}

/// Law: deleting the open verse, fractal or petal leaves exactly that
/// scope, and deleting anything that is not open leaves navigation where
/// it is.
pub proof fn law_delete_backs_out_of_the_deleted_scope(entity_type: EntityType, id: Seq<char>, nav: NavLabels)
    ensures
        entity_type == EntityType::Verse ==> (backout_for(entity_type, id, nav) == NavBackout::FromVerse <==> (
        nav.active_verse_id matches Some(v) && v@ == id)),
        entity_type == EntityType::Fractal ==> (backout_for(entity_type, id, nav) == NavBackout::FromFractal <==> (
        nav.active_fractal_id matches Some(f) && f@ == id)),
        entity_type == EntityType::Petal ==> (backout_for(entity_type, id, nav) == NavBackout::FromPetal <==> (
        nav.active_petal_id matches Some(p) && p@ == id)),
        backout_for(entity_type, id, nav) == NavBackout::Stay || backout_for(entity_type, id, nav) == match entity_type {
            EntityType::Verse => NavBackout::FromVerse,
            EntityType::Fractal => NavBackout::FromFractal,
            EntityType::Petal => NavBackout::FromPetal,
        },
{
}

fn remove_petals_in_verse<P>(verse: &mut VerseEntry<P>, entity_id: &str)
    ensures
        verse_petal_removed(*old(verse), *final(verse), entity_id@),
{
    let ghost v0 = *verse;
    let mut fi: usize = 0;
    while fi < verse.fractals.len()
        invariant
            verse_meta_same(v0, *verse),
            verse.fractals@.len() == v0.fractals@.len(),
            fi <= v0.fractals@.len(),
            forall|gi: int| fi <= gi < v0.fractals@.len() ==> verse.fractals@[gi] == #[trigger] v0.fractals@[gi],
            forall|gi: int|
                0 <= gi < fi ==> fractal_petal_removed(#[trigger] v0.fractals@[gi], verse.fractals@[gi], entity_id@),
        decreases v0.fractals@.len() - fi,
    {
        let ghost before = verse.fractals@;
        remove_with_key(&mut verse.fractals[fi].petals, entity_id);
        proof {
            assert forall|gi: int| fi < gi < v0.fractals@.len() implies verse.fractals@[gi] == #[trigger] v0.fractals@[gi] by {
                assert(verse.fractals@[gi] == before[gi]);
            }
            assert forall|gi: int| 0 <= gi < fi + 1 implies fractal_petal_removed(#[trigger] v0.fractals@[gi], verse.fractals@[gi], entity_id@) by {
                if gi < fi {
                    assert(verse.fractals@[gi] == before[gi]);
                }
            }
        }
        fi = fi + 1;
    }
}

fn remove_from_verses<P>(entity_type: EntityType, entity_id: &str, verses: &mut Vec<VerseEntry<P>>)
    requires
        entity_type != EntityType::Verse,
    ensures
        final(verses)@.len() == old(verses)@.len(),
        entity_type == EntityType::Fractal ==> forall|vi: int|
            0 <= vi < old(verses)@.len() ==> verse_fractal_removed(#[trigger] old(verses)@[vi], final(verses)@[vi], entity_id@),
        entity_type == EntityType::Petal ==> forall|vi: int|
            0 <= vi < old(verses)@.len() ==> verse_petal_removed(#[trigger] old(verses)@[vi], final(verses)@[vi], entity_id@),
{
    let ghost old_vs = verses@;
    let mut vi: usize = 0;
    while vi < verses.len()
        invariant
            entity_type != EntityType::Verse,
            verses@.len() == old_vs.len(),
            vi <= old_vs.len(),
            forall|j: int| vi <= j < old_vs.len() ==> verses@[j] == #[trigger] old_vs[j],
            entity_type == EntityType::Fractal ==> forall|j: int|
                0 <= j < vi ==> verse_fractal_removed(#[trigger] old_vs[j], verses@[j], entity_id@),
            entity_type == EntityType::Petal ==> forall|j: int|
                0 <= j < vi ==> verse_petal_removed(#[trigger] old_vs[j], verses@[j], entity_id@),
        decreases old_vs.len() - vi,
    {
        let ghost before = verses@;
        if entity_type == EntityType::Fractal {
            remove_with_key(&mut verses[vi].fractals, entity_id);
        } else {
            remove_petals_in_verse(&mut verses[vi], entity_id);
        }
        proof {
            assert forall|j: int| vi < j < old_vs.len() implies verses@[j] == #[trigger] old_vs[j] by {
                assert(verses@[j] == before[j]);
            }
            if entity_type == EntityType::Fractal {
                assert forall|j: int| 0 <= j < vi + 1 implies verse_fractal_removed(#[trigger] old_vs[j], verses@[j], entity_id@) by {
                    if j < vi {
                        assert(verses@[j] == before[j]);
                    }
                }
            } else {
                assert forall|j: int| 0 <= j < vi + 1 implies verse_petal_removed(#[trigger] old_vs[j], verses@[j], entity_id@) by {
                    if j < vi {
                        assert(verses@[j] == before[j]);
                    }
                }
            }
        }
        vi = vi + 1;
    }
}

/// `EntityDeleted`: remove every entity of that type with that id from the
/// tree, rebuild the node index (structural deletes shift slots), close
/// whatever dialog is open, and say which navigation scope must be left.
pub fn handle_entity_deleted<P, D>(
    entity_type: EntityType,
    entity_id: &str,
    verse_mgr: &mut VerseManager<P>,
    nav: &NavLabels,
    active_dialog: &mut Option<D>,
) -> (r: NavBackout)
    ensures
        *final(active_dialog) == None::<D>,
        r == backout_for(entity_type, entity_id@, *nav),
        index_exact(final(verse_mgr).verses@, final(verse_mgr).node_index@),
        entity_type == EntityType::Verse ==> final(verse_mgr).verses@ == without_key(old(verse_mgr).verses@, entity_id@),
        entity_type == EntityType::Fractal ==> {
            &&& final(verse_mgr).verses@.len() == old(verse_mgr).verses@.len()
            &&& forall|vi: int|
                0 <= vi < old(verse_mgr).verses@.len() ==> verse_fractal_removed(
                    #[trigger] old(verse_mgr).verses@[vi],
                    final(verse_mgr).verses@[vi],
                    entity_id@,
                )
        },
        entity_type == EntityType::Petal ==> {
            &&& final(verse_mgr).verses@.len() == old(verse_mgr).verses@.len()
            &&& forall|vi: int|
                0 <= vi < old(verse_mgr).verses@.len() ==> verse_petal_removed(
                    #[trigger] old(verse_mgr).verses@[vi],
                    final(verse_mgr).verses@[vi],
                    entity_id@,
                )
        },
{
    let r = match entity_type {
        EntityType::Verse => {
            remove_with_key(&mut verse_mgr.verses, entity_id);
            if opt_text_eq(&nav.active_verse_id, entity_id) { NavBackout::FromVerse } else { NavBackout::Stay }
        },
        EntityType::Fractal => {
            remove_from_verses(entity_type, entity_id, &mut verse_mgr.verses);
            if opt_text_eq(&nav.active_fractal_id, entity_id) { NavBackout::FromFractal } else { NavBackout::Stay }
        },
        EntityType::Petal => {
            remove_from_verses(entity_type, entity_id, &mut verse_mgr.verses);
            if opt_text_eq(&nav.active_petal_id, entity_id) { NavBackout::FromPetal } else { NavBackout::Stay }
        },
    };
    verse_mgr.rebuild_node_index();
    *active_dialog = None;
    r
}

/// What a tree result asks of the database next.
#[derive(Debug, Clone, Copy, PartialEq, Eq, Structural)]
pub enum TreeRequest {
    /// Load the whole hierarchy again.
    LoadHierarchy,
}

/// `DatabaseReset`: empty the tree and its index, and ask for the hierarchy
/// again.
pub fn handle_database_reset<P>(verse_mgr: &mut VerseManager<P>) -> (r: TreeRequest)
    ensures
        r == TreeRequest::LoadHierarchy,
        final(verse_mgr).verses@.len() == 0,
        final(verse_mgr).node_index@ == Map::<Seq<char>, (usize, usize, usize)>::empty(),
{
    verse_mgr.verses.clear();
    verse_mgr.rebuild_node_index();
    proof {
        assert(verse_mgr.node_index@ =~= Map::<Seq<char>, (usize, usize, usize)>::empty()) by {
            assert forall|id: Seq<char>| !verse_mgr.node_index@.contains_key(id) by {
                if verse_mgr.node_index@.contains_key(id) {
                    assert(crate::hierarchy::tree_has_node(verse_mgr.verses@, id));
                }
            }
        }
    }
    TreeRequest::LoadHierarchy
}

} // verus!
