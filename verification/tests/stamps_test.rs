use fractalengine::primitives::{spawn_branch, PrimitiveDescriptorCache, SpawnBranch};
use fractalengine::hierarchy::NodeEntry;
use fractalengine::strmap::StrMap;
use fractalengine::stamps::{
    apply_path_reflow, plan_path_asset_pass, reconcile_path_asset, overrides_fingerprint, parse_stamp_marker_id, points_fingerprint, scene_asset_path,
    spawn_allowance, stamp_is_orphaned, stamp_marker_id, take_stamp_budget, PathAssetApplied,
    PathAssetCache, PathAssetDescriptor, PathAssetInstance, SpacingMode, StampOverrideBits,
    MAX_PETAL_NODES, MAX_STAMPS_PER_PETAL,
};

fn sample_desc() -> PathAssetDescriptor {
    PathAssetDescriptor {
        asset_path: "blob://x.glb".to_string(),
        spacing_mode: SpacingMode::FixedSpacing,
        spacing_value_bits: 5.0f32.to_bits(),
        count: 0,
        tangent_align: true,
    }
}

fn tree_desc() -> PathAssetDescriptor {
    PathAssetDescriptor { asset_path: "blob://tree.glb".to_string(), ..sample_desc() }
}

fn bits(points: &[[f32; 3]]) -> Vec<[u32; 3]> {
    points.iter().map(|p| [p[0].to_bits(), p[1].to_bits(), p[2].to_bits()]).collect()
}

#[test]
fn stamp_marker_id_round_trips_through_parse() {
    let id = stamp_marker_id("track-1", 42);
    assert_eq!(id, "track-1::stamp::42");
    assert_eq!(parse_stamp_marker_id(&id), Some(("track-1", 42)));
    let nested = stamp_marker_id("a::stamp::b", 3);
    assert_eq!(parse_stamp_marker_id(&nested), Some(("a::stamp::b", 3)));
}

#[test]
fn parse_stamp_marker_id_rejects_non_stamp_ids() {
    assert_eq!(parse_stamp_marker_id("plain-node"), None);
    assert_eq!(parse_stamp_marker_id("t::stamp::"), None);
    assert_eq!(parse_stamp_marker_id("t::stamp::x"), None);
    assert_eq!(parse_stamp_marker_id("::stamp::3"), None);
}

#[test]
fn parse_stamp_marker_id_follows_usize_parsing() {
    assert_eq!(parse_stamp_marker_id("t::stamp::+7"), Some(("t", 7)));
    assert_eq!(parse_stamp_marker_id("t::stamp::007"), Some(("t", 7)));
    assert_eq!(parse_stamp_marker_id("t::stamp::-1"), None);
    assert_eq!(parse_stamp_marker_id("t::stamp::+"), None);
    assert_eq!(parse_stamp_marker_id("t::stamp::99999999999999999999999"), None);
    assert_eq!(stamp_marker_id("t", 0), "t::stamp::0");
}

#[test]
fn note_properties_caches_track_with_path_asset_and_points() {
    let mut cache: PathAssetCache<[f32; 3]> = PathAssetCache::new();
    let points = vec![[0.0, 0.0, 0.0], [10.0, 0.0, 0.0]];
    let fp = points_fingerprint(&bits(&points));
    cache.note_properties("t1", Some("petal-1"), Some(tree_desc()), Some((points, fp)));
    let entry = cache.get("t1").expect("track cached");
    assert_eq!(entry.petal_id, "petal-1");
    assert_eq!(entry.descriptor.asset_path, "blob://tree.glb");
    assert_eq!(entry.points.len(), 2);
    assert_eq!(entry.points[0], [0.0, 0.0, 0.0]);
    assert_eq!(entry.points[1], [10.0, 0.0, 0.0]);
}

#[test]
fn note_properties_skips_without_path_asset_or_points() {
    let mut cache: PathAssetCache<[f32; 3]> = PathAssetCache::new();
    cache.note_properties("t1", Some("p1"), None, Some((vec![[0.0; 3]], 1)));
    assert!(cache.get("t1").is_none());
    cache.note_properties("t2", Some("p1"), Some(sample_desc()), None);
    assert!(cache.get("t2").is_none());
}

#[test]
fn note_properties_requires_a_known_petal() {
    let mut cache: PathAssetCache<[f32; 3]> = PathAssetCache::new();
    cache.note_properties("t1", None, Some(tree_desc()), Some((vec![[0.0; 3], [1.0, 0.0, 0.0]], 3)));
    assert!(cache.get("t1").is_none());
}

#[test]
fn note_properties_evicts_stale_entry_when_path_asset_removed() {
    let mut cache: PathAssetCache<[f32; 3]> = PathAssetCache::new();
    cache.note_properties("t1", Some("p1"), Some(tree_desc()), Some((vec![[0.0; 3], [1.0, 0.0, 0.0]], 3)));
    assert!(cache.get("t1").is_some());
    cache.note_properties("t1", Some("p1"), None, Some((vec![[0.0; 3]], 1)));
    assert!(cache.get("t1").is_none());
}

#[test]
fn upsert_then_get_roundtrips_and_invalidate_clears() {
    let mut cache: PathAssetCache<[f32; 3]> = PathAssetCache::new();
    cache.upsert("t1", "p1", sample_desc(), vec![[0.0; 3], [1.0, 0.0, 0.0]], 42);
    assert_eq!(cache.get("t1").unwrap().fingerprint, 42);
    cache.invalidate("t1");
    assert!(cache.get("t1").is_none());
    cache.upsert("t2", "p1", sample_desc(), vec![[0.0; 3]], 1);
    cache.clear();
    assert!(cache.get("t2").is_none());
}

#[test]
fn cache_walk_lists_each_track_once() {
    let mut cache: PathAssetCache<[f32; 3]> = PathAssetCache::new();
    cache.upsert("t1", "p1", sample_desc(), vec![], 1);
    cache.upsert("t2", "p1", sample_desc(), vec![], 2);
    cache.upsert("t1", "p2", sample_desc(), vec![], 3);
    let walk = cache.iter();
    assert_eq!(walk.len(), 2);
    assert_eq!(cache.get("t1").unwrap().petal_id, "p2");
    assert_eq!(cache.get("t1").unwrap().fingerprint, 3);
}

#[test]
fn deleted_track_cascades_to_stamps_and_is_idempotent() {
    let mut cache: PathAssetCache<[f32; 3]> = PathAssetCache::new();
    cache.upsert("t1", "p1", sample_desc(), vec![[0.0; 3], [1.0, 0.0, 0.0]], 1);
    let live = PathAssetInstance { source_track_id: "t1".to_string(), petal_id: "p1".to_string() };
    assert!(!stamp_is_orphaned(&live, "p1", &cache));
    cache.invalidate("t1");
    assert!(stamp_is_orphaned(&live, "p1", &cache));
    cache.invalidate("t1");
    assert!(stamp_is_orphaned(&live, "p1", &cache));
    cache.invalidate("never-stamped");
    let other_petal = PathAssetInstance { source_track_id: "t1".to_string(), petal_id: "p2".to_string() };
    assert!(!stamp_is_orphaned(&other_petal, "p1", &cache));
}

#[test]
fn stamp_budget_grants_up_to_remaining() {
    let mut remaining = 10;
    assert_eq!(take_stamp_budget(&mut remaining, 4), 4);
    assert_eq!(remaining, 6);
    assert_eq!(take_stamp_budget(&mut remaining, 6), 6);
    assert_eq!(remaining, 0);
}

#[test]
fn stamp_budget_saturates_and_stays_zero() {
    let mut remaining = 5;
    assert_eq!(take_stamp_budget(&mut remaining, 100), 5);
    assert_eq!(remaining, 0);
    assert_eq!(take_stamp_budget(&mut remaining, 100), 0);
}

#[test]
fn stamp_budget_zero_request_is_noop() {
    let mut remaining = MAX_STAMPS_PER_PETAL;
    assert_eq!(take_stamp_budget(&mut remaining, 0), 0);
    assert_eq!(remaining, MAX_STAMPS_PER_PETAL);
}

#[test]
fn stamp_budget_petal_cap_bounds_many_max_stamp_tracks() {
    let mut remaining = MAX_STAMPS_PER_PETAL;
    let total: usize = (0..32).map(|_| take_stamp_budget(&mut remaining, 4096)).sum();
    assert_eq!(total, MAX_STAMPS_PER_PETAL);
}

#[test]
fn applied_gate_is_per_track_and_input_sensitive() {
    let d = sample_desc();
    let fp = 12345u64;
    let one = 1.0f32.to_bits();
    let mut applied = PathAssetApplied::new();
    assert!(!applied.matches("t1", &d, fp, one, 0), "empty gate never matches");
    applied.remember("t1", d.clone(), fp, one, 0);
    assert!(applied.matches("t1", &d, fp, one, 0), "identical inputs match");
    assert!(!applied.matches("t2", &d, fp, one, 0), "different track re-stamps");
    assert!(!applied.matches("t1", &d, fp ^ 1, one, 0), "changed points re-stamp");
    let mut d2 = d.clone();
    d2.spacing_value_bits = 6.0f32.to_bits();
    assert!(!applied.matches("t1", &d2, fp, one, 0), "changed descriptor re-stamps");
    assert!(!applied.matches("t1", &d, fp, 0.5f32.to_bits(), 0), "changed world_scale re-stamps");
    assert!(!applied.matches("t1", &d, fp, one, 42), "changed overrides re-stamp");
}

#[test]
fn applied_gate_invalidate_is_per_track_and_clear_drops_all() {
    let d = sample_desc();
    let one = 1.0f32.to_bits();
    let mut applied = PathAssetApplied::new();
    applied.remember("t1", d.clone(), 1, one, 0);
    applied.remember("t2", d.clone(), 2, one, 0);
    applied.invalidate("t1");
    assert!(!applied.matches("t1", &d, 1, one, 0), "invalidated track re-stamps");
    assert!(applied.matches("t2", &d, 2, one, 0), "sibling survives invalidate");
    applied.clear();
    assert!(!applied.matches("t2", &d, 2, one, 0), "clear drops everything");
}

#[test]
fn descriptor_spacing_compares_as_f32() {
    let mut a = sample_desc();
    let mut b = sample_desc();
    a.spacing_value_bits = 0.0f32.to_bits();
    b.spacing_value_bits = (-0.0f32).to_bits();
    assert!(a.same_as(&b), "+0 and -0 are equal");
    a.spacing_value_bits = f32::NAN.to_bits();
    b.spacing_value_bits = f32::NAN.to_bits();
    assert!(!a.same_as(&b), "NaN equals nothing");
}

#[test]
fn fingerprint_changes_with_points() {
    let straight = bits(&[[0.0, 0.0, 0.0], [10.0, 0.0, 0.0], [20.0, 0.0, 0.0]]);
    let l_shaped = bits(&[[0.0, 0.0, 0.0], [10.0, 0.0, 0.0], [10.0, 0.0, 10.0]]);
    let a = points_fingerprint(&straight);
    assert_ne!(a, points_fingerprint(&l_shaped));
    assert_eq!(a, points_fingerprint(&straight));
}

#[test]
fn fingerprint_sensitive_to_order() {
    let straight = bits(&[[0.0, 0.0, 0.0], [10.0, 0.0, 0.0], [20.0, 0.0, 0.0]]);
    let mut reversed = straight.clone();
    reversed.reverse();
    assert_ne!(points_fingerprint(&straight), points_fingerprint(&reversed));
}

#[test]
fn empty_fingerprint_is_the_fnv_offset() {
    assert_eq!(points_fingerprint(&Vec::new()), 1469598103934665603u64);
}

#[test]
fn overrides_fingerprint_tracks_every_field_and_sparseness() {
    let none = StampOverrideBits { scale: None, rotation: None, arc_offset_m: None };
    let base = overrides_fingerprint(&vec![(0, none)]);
    assert_ne!(base, overrides_fingerprint(&Vec::new()), "presence of an entry counts");
    assert_ne!(base, overrides_fingerprint(&vec![(1, none)]), "index counts");
    let scaled = StampOverrideBits { scale: Some([2.0f32.to_bits(); 3]), ..none };
    assert_ne!(base, overrides_fingerprint(&vec![(0, scaled)]));
    let rotated = StampOverrideBits { rotation: Some([0, 0, 0, 1.0f32.to_bits()]), ..none };
    assert_ne!(overrides_fingerprint(&vec![(0, scaled)]), overrides_fingerprint(&vec![(0, rotated)]));
    let offset = StampOverrideBits { arc_offset_m: Some(3.0f32.to_bits()), ..none };
    assert_ne!(base, overrides_fingerprint(&vec![(0, offset)]));
    assert_eq!(overrides_fingerprint(&vec![(0, offset)]), overrides_fingerprint(&vec![(0, offset)]));
}

#[test]
fn spawn_allowance_passes_through_under_cap() {
    assert_eq!(spawn_allowance(5, 0, 10), 5);
    assert_eq!(spawn_allowance(10, 0, 10), 10);
}

#[test]
fn spawn_allowance_saturates_at_cap() {
    assert_eq!(spawn_allowance(100, 0, 10), 10);
    assert_eq!(spawn_allowance(100, 7, 10), 3);
}

#[test]
fn spawn_allowance_zero_when_cap_reached_or_overshot() {
    assert_eq!(spawn_allowance(100, 10, 10), 0);
    assert_eq!(spawn_allowance(100, 999, 10), 0);
}

#[test]
fn spawn_allowance_degenerate_inputs() {
    assert_eq!(spawn_allowance(0, 0, 10), 0);
    assert_eq!(spawn_allowance(usize::MAX, 0, MAX_PETAL_NODES), MAX_PETAL_NODES);
}

#[test]
fn scene_asset_path_labels_only_unlabelled_gltf() {
    assert_eq!(scene_asset_path("models/a.glb"), "models/a.glb#Scene0");
    assert_eq!(scene_asset_path("models/a.gltf"), "models/a.gltf#Scene0");
    assert_eq!(scene_asset_path("models/a.glb#Scene1"), "models/a.glb#Scene1");
    assert_eq!(scene_asset_path("models/a.png"), "models/a.png");
}

// --- primitive descriptor cache ---

#[derive(Debug, Clone, PartialEq)]
struct Prim {
    kind: &'static str,
    dims: Vec<f32>,
}

fn cube() -> Prim {
    Prim { kind: "cube", dims: vec![1.0, 2.0, 3.0] }
}

fn node(id: &str, asset_path: Option<&str>) -> NodeEntry<[f32; 3]> {
    NodeEntry {
        id: id.to_string(),
        name: id.to_string(),
        has_asset: asset_path.is_some(),
        position: [1.0, 2.0, 3.0],
        webpage_url: None,
        asset_path: asset_path.map(str::to_string),
    }
}

#[test]
fn note_properties_caches_descriptor_and_clears_request_mark() {
    let mut cache: PrimitiveDescriptorCache<Prim> = PrimitiveDescriptorCache::new();
    assert!(cache.mark_requested("n1"), "first request must send");
    cache.note_properties("n1", Some(cube()));
    let desc = cache.get("n1").expect("descriptor cached");
    assert_eq!(desc.kind, "cube");
    assert_eq!(desc.dims, vec![1.0, 2.0, 3.0]);
    assert!(!cache.is_requested("n1"), "request mark cleared on load");
}

#[test]
fn note_properties_drops_entry_when_key_absent_or_invalid() {
    let mut cache: PrimitiveDescriptorCache<Prim> = PrimitiveDescriptorCache::new();
    cache.note_properties("n1", Some(cube()));
    cache.note_properties("n1", None);
    assert!(cache.get("n1").is_none(), "absent key must evict");
}

#[test]
fn mark_requested_dedupes_and_skips_cached_nodes() {
    let mut cache: PrimitiveDescriptorCache<Prim> = PrimitiveDescriptorCache::new();
    assert!(cache.mark_requested("n1"));
    assert!(!cache.mark_requested("n1"), "in-flight request must not re-send");
    cache.note_properties("n2", Some(cube()));
    assert!(!cache.mark_requested("n2"), "cached node needs no fetch");
}

#[test]
fn invalidate_clears_descriptor_and_request_mark() {
    let mut cache: PrimitiveDescriptorCache<Prim> = PrimitiveDescriptorCache::new();
    cache.note_properties("n1", Some(cube()));
    cache.mark_requested("n2");
    cache.invalidate("n1");
    cache.invalidate("n2");
    assert!(cache.get("n1").is_none());
    assert!(cache.mark_requested("n2"), "invalidated request mark must re-arm");
}

#[test]
fn spawn_branch_materializes_primitive_without_selection() {
    let mut cache: PrimitiveDescriptorCache<Prim> = PrimitiveDescriptorCache::new();
    cache.note_properties("n1", Some(cube()));
    match spawn_branch(&node("n1", None), &cache) {
        SpawnBranch::Primitive(desc) => assert_eq!(desc.kind, "cube"),
        other => panic!("expected Primitive branch, got {other:?}"),
    }
}

#[test]
fn spawn_branch_leaves_non_primitive_nodes_unaffected() {
    let mut cache: PrimitiveDescriptorCache<Prim> = PrimitiveDescriptorCache::new();
    cache.note_properties("n1", Some(cube()));
    assert!(matches!(
        spawn_branch(&node("n1", Some("models/cube.glb")), &cache),
        SpawnBranch::Gltf(ref p) if p == "models/cube.glb"
    ));
    assert!(matches!(spawn_branch(&node("n9", None), &cache), SpawnBranch::Fallback));
}

#[test]
fn clear_drops_descriptors_and_marks() {
    let mut cache: PrimitiveDescriptorCache<Prim> = PrimitiveDescriptorCache::new();
    cache.note_properties("n1", Some(cube()));
    cache.mark_requested("n2");
    cache.clear();
    assert!(cache.get("n1").is_none());
    assert!(!cache.is_requested("n2"));
}

#[test]
fn path_reflow_evicts_the_track_and_names_the_deleted_stamp() {
    let mut cache: PathAssetCache<[f32; 3]> = PathAssetCache::new();
    cache.upsert("path-1", "p1", sample_desc(), vec![[0.0; 3], [10.0, 0.0, 0.0]], 7);
    cache.upsert("path-2", "p1", sample_desc(), vec![[0.0; 3]], 1);
    let mut applied = PathAssetApplied::new();
    applied.remember("path-1", sample_desc(), 7, 1, 0);
    let shifted = apply_path_reflow("path-1", Some(1), &mut cache, &mut applied);
    assert_eq!(shifted, Some(1));
    assert!(cache.get("path-1").is_none(), "stale entry must be evicted");
    assert!(cache.get("path-2").is_some(), "other tracks keep their entries");
    assert!(!applied.matches("path-1", &sample_desc(), 7, 1, 0), "the track restamps");
}

#[test]
fn path_reflow_without_index_still_evicts() {
    let mut cache: PathAssetCache<[f32; 3]> = PathAssetCache::new();
    cache.upsert("path-1", "p1", sample_desc(), vec![[0.0; 3]], 1);
    let mut applied = PathAssetApplied::new();
    assert_eq!(apply_path_reflow("path-1", None, &mut cache, &mut applied), None);
    assert!(cache.get("path-1").is_none());
}

#[test]
fn path_reflow_on_unknown_track_is_a_noop() {
    let mut cache: PathAssetCache<[f32; 3]> = PathAssetCache::new();
    let mut applied = PathAssetApplied::new();
    // Never-stamped track: nothing to drop, nothing to shift, no panic.
    apply_path_reflow("ghost", Some(0), &mut cache, &mut applied);
    assert!(cache.get("ghost").is_none());
}

fn live(entity: u64, track: &str, petal: &str) -> (u64, PathAssetInstance) {
    (entity, PathAssetInstance { source_track_id: track.into(), petal_id: petal.into() })
}

#[test]
fn path_asset_pass_is_gated_on_changes() {
    let cache: PathAssetCache<[f32; 3]> = PathAssetCache::new();
    let mut applied = PathAssetApplied::new();
    let mut last = Some("p1".to_string());
    let ovs = StrMap::new();
    let pass = plan_path_asset_pass(false, &mut last, &Some("p1".into()), &cache, &mut applied, &vec![], 0, &ovs);
    assert!(pass.is_none());
    let pass = plan_path_asset_pass(false, &mut last, &Some("p2".into()), &cache, &mut applied, &vec![], 0, &ovs)
        .expect("petal change runs the pass");
    assert!(pass.clear_render_index);
    assert_eq!(last.as_deref(), Some("p2"));
}

#[test]
fn path_asset_pass_despawns_orphans_and_restamps_changed_tracks() {
    let mut cache: PathAssetCache<[f32; 3]> = PathAssetCache::new();
    cache.upsert("t1", "p1", sample_desc(), vec![[0.0; 3]], 1);
    cache.upsert("t2", "p1", sample_desc(), vec![[0.0; 3]], 2);
    cache.upsert("t3", "p2", sample_desc(), vec![[0.0; 3]], 3);
    let mut applied = PathAssetApplied::new();
    let no_overrides = overrides_fingerprint(&vec![]);
    applied.remember("t1", sample_desc(), 1, 9, no_overrides);
    applied.remember("gone", sample_desc(), 5, 9, no_overrides);
    let existing = vec![live(100, "t2", "p1"), live(101, "gone", "p1"), live(102, "t2", "p1"), live(103, "t3", "p2")];
    let mut last = Some("p1".to_string());
    let ovs = StrMap::new();
    let pass = plan_path_asset_pass(true, &mut last, &Some("p1".into()), &cache, &mut applied, &existing, 9, &ovs)
        .expect("inputs changed");
    assert!(!pass.clear_render_index);
    assert_eq!(pass.orphans, vec![101]);
    assert!(!applied.matches("gone", &sample_desc(), 5, 9, no_overrides));
    // t1 is unchanged; t2 was never stamped; t3 is in another petal.
    assert_eq!(pass.restamp.len(), 1);
    assert_eq!(cache.iter()[pass.restamp[0].walk_index].0, "t2");
    assert_eq!(pass.restamp[0].group, vec![100, 102]);
}

#[test]
fn path_asset_pass_restamps_when_world_scale_or_overrides_change() {
    let mut cache: PathAssetCache<[f32; 3]> = PathAssetCache::new();
    cache.upsert("t1", "p1", sample_desc(), vec![[0.0; 3]], 1);
    let mut applied = PathAssetApplied::new();
    let no_overrides = overrides_fingerprint(&vec![]);
    applied.remember("t1", sample_desc(), 1, 9, no_overrides);
    let mut last = Some("p1".to_string());
    let mut ovs = StrMap::new();
    let pass = plan_path_asset_pass(true, &mut last, &Some("p1".into()), &cache, &mut applied, &vec![], 10, &ovs).unwrap();
    assert_eq!(pass.restamp.len(), 1, "world scale changed");
    let pass = plan_path_asset_pass(true, &mut last, &Some("p1".into()), &cache, &mut applied, &vec![], 9, &ovs).unwrap();
    assert!(pass.restamp.is_empty(), "same inputs");
    ovs.insert("t1".to_string(), 77);
    let pass = plan_path_asset_pass(true, &mut last, &Some("p1".into()), &cache, &mut applied, &vec![], 9, &ovs).unwrap();
    assert_eq!(pass.restamp.len(), 1, "overrides changed");
}

#[test]
fn reconcile_path_asset_writes_only_on_change() {
    let mut cache: PathAssetCache<[f32; 3]> = PathAssetCache::new();
    let petal = Some("p1".to_string());
    let track = Some("t1".to_string());
    let pts = vec![[0.0f32, 0.0, 0.0], [10.0, 0.0, 0.0]];
    let pb = bits(&pts);
    let fp = points_fingerprint(&pb);
    // No petal, no track or no descriptor: nothing happens.
    assert!(!reconcile_path_asset(&None, &track, Some(sample_desc()), pts.clone(), &pb, &mut cache));
    assert!(!reconcile_path_asset(&petal, &None, Some(sample_desc()), pts.clone(), &pb, &mut cache));
    assert!(!reconcile_path_asset(&petal, &track, None, pts.clone(), &pb, &mut cache));
    assert!(cache.get("t1").is_none());
    // First sight writes the entry.
    assert!(reconcile_path_asset(&petal, &track, Some(sample_desc()), pts.clone(), &pb, &mut cache));
    let e = cache.get("t1").expect("cached");
    assert_eq!(e.petal_id, "p1");
    assert_eq!(e.fingerprint, fp);
    assert_eq!(e.points, pts);
    // Same inputs: no write.
    assert!(!reconcile_path_asset(&petal, &track, Some(sample_desc()), pts.clone(), &pb, &mut cache));
    // Moved point, other descriptor, other petal: each rewrites.
    let moved = vec![[0.0f32, 0.0, 0.0], [10.0, 0.0, 5.0]];
    let mb = bits(&moved);
    assert!(reconcile_path_asset(&petal, &track, Some(sample_desc()), moved.clone(), &mb, &mut cache));
    assert_eq!(cache.get("t1").unwrap().points, moved);
    assert!(reconcile_path_asset(&petal, &track, Some(tree_desc()), moved.clone(), &mb, &mut cache));
    assert!(reconcile_path_asset(&Some("p2".to_string()), &track, Some(tree_desc()), moved.clone(), &mb, &mut cache));
    assert_eq!(cache.get("t1").unwrap().petal_id, "p2");
}
