use fractalengine::hierarchy::{FractalEntry, NodeEntry, PetalEntry, VerseEntry, VerseManager};
use fractalengine::petal_respawn::{
    materialize_cached_primitives, reconcile_selected_primitive, respawn_on_petal_change, PetalWatch,
    PrimitiveStep, SelectedPrimitiveStep, SpawnedMarker,
};
use fractalengine::primitives::{PrimitiveDescriptorCache, SpawnBranch};
use fractalengine::stamps::{PathAssetApplied, PathAssetDescriptor, SpacingMode};

type Pos = [f32; 3];

fn node(id: &str, asset: Option<&str>) -> NodeEntry<Pos> {
    NodeEntry {
        id: id.into(),
        name: id.into(),
        has_asset: asset.is_some(),
        position: [0.0, 0.0, 0.0],
        webpage_url: None,
        asset_path: asset.map(str::to_string),
    }
}

fn tree() -> VerseManager<Pos> {
    VerseManager::from_verses(vec![VerseEntry {
        id: "v1".into(),
        name: "V".into(),
        namespace_id: None,
        expanded: true,
        fractals: vec![FractalEntry {
            id: "f1".into(),
            name: "F".into(),
            expanded: true,
            petals: vec![
                PetalEntry {
                    id: "p1".into(),
                    name: "P1".into(),
                    expanded: true,
                    nodes: vec![node("a", Some("models/a.glb"))],
                },
                PetalEntry {
                    id: "p2".into(),
                    name: "P2".into(),
                    expanded: true,
                    nodes: vec![node("b", Some("models/b.glb")), node("c", None), node("d", None), node("e", None)],
                },
            ],
        }],
    }])
}

fn marker(entity: u64, node_id: &str, petal_id: &str) -> SpawnedMarker {
    SpawnedMarker { entity, node_id: node_id.into(), petal_id: petal_id.into() }
}

fn desc() -> PathAssetDescriptor {
    PathAssetDescriptor {
        asset_path: "blob://x.glb".into(),
        spacing_mode: SpacingMode::FixedCount,
        spacing_value_bits: 0,
        count: 4,
        tangent_align: false,
    }
}

#[test]
fn first_frame_only_records_the_petal() {
    let mgr = tree();
    let mut watch = PetalWatch::new();
    let mut cache: PrimitiveDescriptorCache<u32> = PrimitiveDescriptorCache::new();
    let mut applied = PathAssetApplied::new();
    let plan = respawn_on_petal_change(&mut watch, &Some("p1".into()), &vec![], &mgr, &mut cache, &mut applied, false);
    assert!(plan.is_none());
    assert!(watch.initialized);
    assert_eq!(watch.last.as_deref(), Some("p1"));
    // Same petal next frame: nothing to do.
    let again = respawn_on_petal_change(&mut watch, &Some("p1".into()), &vec![], &mgr, &mut cache, &mut applied, false);
    assert!(again.is_none());
}

#[test]
fn petal_change_despawns_others_and_spawns_new_nodes_by_branch() {
    let mgr = tree();
    let mut watch = PetalWatch::new();
    let mut cache: PrimitiveDescriptorCache<u32> = PrimitiveDescriptorCache::new();
    cache.note_properties("c", Some(7));
    let mut applied = PathAssetApplied::new();
    applied.remember("track-1", desc(), 1, 2, 3);
    respawn_on_petal_change(&mut watch, &Some("p1".into()), &vec![], &mgr, &mut cache, &mut applied, false);

    let spawned = vec![marker(10, "a", "p1"), marker(11, "b", "p2")];
    let plan = respawn_on_petal_change(&mut watch, &Some("p2".into()), &spawned, &mgr, &mut cache, &mut applied, false)
        .expect("petal changed");
    assert_eq!(plan.despawn, vec![10]);
    // "b" is already on screen; "c" has a cached primitive; "d" and "e" fall back.
    let indices: Vec<usize> = plan.spawns.iter().map(|o| o.node_index).collect();
    assert_eq!(indices, vec![1, 2, 3]);
    assert!(matches!(plan.spawns[0].branch, SpawnBranch::Primitive(7)));
    assert!(!plan.spawns[0].fetch_properties);
    assert!(matches!(plan.spawns[1].branch, SpawnBranch::Fallback));
    assert!(plan.spawns[1].fetch_properties);
    assert!(plan.spawns[2].fetch_properties);
    assert_eq!(plan.skipped, 0);
    assert!(cache.is_requested("d"));
    // The applied gate is cleared so the new petal's tracks restamp.
    assert!(!applied.matches("track-1", &desc(), 1, 2, 3));
    assert_eq!(watch.last.as_deref(), Some("p2"));
}

#[test]
fn fallback_fetch_is_sent_once() {
    let mgr = tree();
    let mut watch = PetalWatch::new();
    let mut cache: PrimitiveDescriptorCache<u32> = PrimitiveDescriptorCache::new();
    let mut applied = PathAssetApplied::new();
    respawn_on_petal_change(&mut watch, &None, &vec![], &mgr, &mut cache, &mut applied, false);
    let first = respawn_on_petal_change(&mut watch, &Some("p2".into()), &vec![], &mgr, &mut cache, &mut applied, false)
        .unwrap();
    assert!(first.spawns.iter().filter(|o| o.node_index == 1).all(|o| o.fetch_properties));
    respawn_on_petal_change(&mut watch, &Some("p1".into()), &vec![], &mgr, &mut cache, &mut applied, false);
    let second = respawn_on_petal_change(&mut watch, &Some("p2".into()), &vec![], &mgr, &mut cache, &mut applied, false)
        .unwrap();
    assert_eq!(second.spawns.len(), 4);
    assert!(second.spawns.iter().all(|o| !o.fetch_properties));
}

#[test]
fn mesh_budget_gate_skips_every_new_node() {
    let mgr = tree();
    let mut watch = PetalWatch::new();
    let mut cache: PrimitiveDescriptorCache<u32> = PrimitiveDescriptorCache::new();
    let mut applied = PathAssetApplied::new();
    respawn_on_petal_change(&mut watch, &Some("p1".into()), &vec![], &mgr, &mut cache, &mut applied, true);
    let plan = respawn_on_petal_change(&mut watch, &Some("p2".into()), &vec![], &mgr, &mut cache, &mut applied, true)
        .unwrap();
    assert!(plan.spawns.is_empty());
    assert_eq!(plan.skipped, 4);
}

#[test]
fn leaving_every_petal_despawns_everything() {
    let mgr = tree();
    let mut watch = PetalWatch::new();
    let mut cache: PrimitiveDescriptorCache<u32> = PrimitiveDescriptorCache::new();
    let mut applied = PathAssetApplied::new();
    respawn_on_petal_change(&mut watch, &Some("p1".into()), &vec![], &mgr, &mut cache, &mut applied, false);
    let plan = respawn_on_petal_change(&mut watch, &None, &vec![marker(1, "a", "p1")], &mgr, &mut cache, &mut applied, false)
        .unwrap();
    assert_eq!(plan.despawn, vec![1]);
    assert!(plan.spawns.is_empty());
    assert_eq!(watch.last, None);
}

#[test]
fn cached_primitives_reconcile_or_materialize() {
    let mgr = tree();
    let mut cache: PrimitiveDescriptorCache<u32> = PrimitiveDescriptorCache::new();
    cache.note_properties("b", Some(1));
    cache.note_properties("c", Some(2));
    cache.note_properties("d", Some(3));
    let prims = vec![marker(20, "c", "p2"), marker(21, "c", "p2")];
    let signs = vec![marker(30, "d", "p2")];
    let pass = materialize_cached_primitives(true, &Some("p2".into()), &mgr, &cache, &prims, &signs, false);
    // "b" has an asset; "c" is live (two entities); "d" promotes its sign.
    assert_eq!(pass.steps.len(), 2);
    match &pass.steps[0] {
        PrimitiveStep::Reconcile { node_index, entities } => {
            assert_eq!(*node_index, 1);
            assert_eq!(entities, &vec![20, 21]);
        },
        _ => panic!("expected a reconcile step"),
    }
    match &pass.steps[1] {
        PrimitiveStep::Materialize { node_index, promote } => {
            assert_eq!(*node_index, 2);
            assert_eq!(*promote, Some(30));
        },
        _ => panic!("expected a materialize step"),
    }
    assert_eq!(pass.skipped, 0);
}

#[test]
fn primitive_pass_does_nothing_without_a_cache_change() {
    let mgr = tree();
    let mut cache: PrimitiveDescriptorCache<u32> = PrimitiveDescriptorCache::new();
    cache.note_properties("c", Some(2));
    let pass = materialize_cached_primitives(false, &Some("p2".into()), &mgr, &cache, &vec![], &vec![], false);
    assert!(pass.steps.is_empty());
    let pass = materialize_cached_primitives(true, &Some("nope".into()), &mgr, &cache, &vec![], &vec![], false);
    assert!(pass.steps.is_empty());
    let gated = materialize_cached_primitives(true, &Some("p2".into()), &mgr, &cache, &vec![], &vec![], true);
    assert!(gated.steps.is_empty());
    assert_eq!(gated.skipped, 1);
}

#[test]
fn selected_primitive_reconciles_live_entities_first() {
    let prims = vec![marker(1, "n1", "p1"), marker(2, "n2", "p1"), marker(3, "n1", "p1")];
    let signs = vec![marker(9, "n1", "p1")];
    match reconcile_selected_primitive(&Some("n1".into()), &Some("p1".into()), true, &prims, &signs) {
        SelectedPrimitiveStep::Reconcile(es) => assert_eq!(es, vec![1, 3]),
        _ => panic!("expected reconcile"),
    }
}

#[test]
fn selected_primitive_promotes_its_fallback_sign() {
    let signs = vec![marker(8, "n1", "p2"), marker(9, "n1", "p1")];
    match reconcile_selected_primitive(&Some("n1".into()), &Some("p1".into()), true, &vec![], &signs) {
        SelectedPrimitiveStep::Promote(e) => assert_eq!(e, 9),
        _ => panic!("expected promote"),
    }
}

#[test]
fn selected_primitive_needs_selection_petal_and_descriptor() {
    let signs = vec![marker(9, "n1", "p1")];
    assert!(matches!(
        reconcile_selected_primitive(&None, &Some("p1".into()), true, &vec![], &signs),
        SelectedPrimitiveStep::Idle
    ));
    assert!(matches!(
        reconcile_selected_primitive(&Some("n1".into()), &None, true, &vec![], &signs),
        SelectedPrimitiveStep::Idle
    ));
    assert!(matches!(
        reconcile_selected_primitive(&Some("n1".into()), &Some("p1".into()), false, &vec![], &signs),
        SelectedPrimitiveStep::Idle
    ));
    assert!(matches!(
        reconcile_selected_primitive(&Some("n7".into()), &Some("p1".into()), true, &vec![], &signs),
        SelectedPrimitiveStep::Idle
    ));
}
