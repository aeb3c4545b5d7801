use fractalengine::db_routing::{
    annotation_field_for_key, deliver_to_pending_api, handle_error, handle_node_created, handle_node_deleted,
    handle_node_properties_loaded, handle_node_property_deleted, handle_node_property_set,
    handle_query_result, handle_verse_invite_generated, is_for_selected_node, AnnotationField,
    GisPanelState, InspectorFormState, NodeManager, PathEditorState, PendingPenCreate, PenFlush, PropValue,
    PropertyBag,
    QueryClaim,
};
use fractalengine::hierarchy::{FractalEntry, NodeEntry, PetalEntry, VerseEntry, VerseManager};
use fractalengine::primitives::PrimitiveDescriptorCache;
use fractalengine::stamps::{PathAssetApplied, PathAssetCache, PathAssetDescriptor, SpacingMode};

#[derive(Debug, Clone, Copy, PartialEq)]
enum CornerKind {
    Corner,
    Smooth,
    Symmetric,
}

type Pen = PendingPenCreate<[f32; 3], CornerKind>;

fn mgr_selected(node_id: &str) -> NodeManager {
    let mut m = NodeManager::new();
    m.select(1, node_id);
    m
}

fn gis() -> GisPanelState {
    GisPanelState { query_pending: false, last_error: None }
}

fn bag(pairs: &[(&str, &str)]) -> PropertyBag {
    PropertyBag {
        entries: pairs.iter().map(|(k, v)| (k.to_string(), PropValue::Str(v.to_string()))).collect(),
    }
}

fn tree() -> VerseManager<[f32; 3]> {
    VerseManager::from_verses(vec![VerseEntry {
        id: "v1".into(),
        name: "Verse".into(),
        namespace_id: None,
        expanded: true,
        fractals: vec![FractalEntry {
            id: "f1".into(),
            name: "Fractal".into(),
            expanded: true,
            petals: vec![PetalEntry {
                id: "p1".into(),
                name: "Petal".into(),
                expanded: true,
                nodes: vec![NodeEntry {
                    id: "n1".into(),
                    name: "Node".into(),
                    has_asset: false,
                    position: [0.0; 3],
                    webpage_url: None,
                    asset_path: None,
                }],
            }],
        }],
    }])
}

#[test]
fn db_results_is_for_selected_node_true_when_matching() {
    assert!(is_for_selected_node(&mgr_selected("node-1"), "node-1"));
}

#[test]
fn db_results_is_for_selected_node_false_when_different_node() {
    assert!(!is_for_selected_node(&mgr_selected("node-1"), "node-2"));
}

#[test]
fn db_results_is_for_selected_node_false_when_nothing_selected() {
    assert!(!is_for_selected_node(&NodeManager::new(), "node-1"));
}

#[test]
fn mod_is_for_selected_node_true_when_matching() {
    assert!(is_for_selected_node(&mgr_selected("node-1"), "node-1"));
}

#[test]
fn mod_is_for_selected_node_false_when_different_node() {
    assert!(!is_for_selected_node(&mgr_selected("node-1"), "node-2"));
}

#[test]
fn mod_is_for_selected_node_false_when_nothing_selected() {
    assert!(!is_for_selected_node(&NodeManager::new(), "node-1"));
}

#[test]
fn verse_invite_generated_opens_invite_dialog() {
    let d = handle_verse_invite_generated("fractal://invite");
    assert_eq!(d.invite_string, "fractal://invite");
    assert!(!d.include_write_cap);
    assert_eq!(d.expiry_hours, 24);
}

#[test]
fn error_routes_by_claim_priority() {
    let (mut g, mut path, mut ins) = (gis(), PathEditorState::<Pen>::new(), InspectorFormState::new());
    g.query_pending = true;
    handle_error("boom", &mut g, &mut path, &mut ins);
    assert_eq!(g.last_error.as_deref(), Some("boom"));
    assert!(!g.query_pending);
    let (mut g, mut path, mut ins) = (gis(), PathEditorState::<Pen>::new(), InspectorFormState::new());
    path.tracks_pending = true;
    handle_error("boom", &mut g, &mut path, &mut ins);
    assert_eq!(path.last_error.as_deref(), Some("boom"));
    let (mut g, mut path, mut ins) = (gis(), PathEditorState::<Pen>::new(), InspectorFormState::new());
    ins.query_loading = true;
    handle_error("boom", &mut g, &mut path, &mut ins);
    assert_eq!(ins.query_result.as_deref(), Some("Error: boom"));
    assert!(!ins.query_loading);
}

#[test]
fn error_clears_a_pending_pen_create() {
    let (mut g, mut path, mut ins) = (gis(), PathEditorState::<Pen>::new(), InspectorFormState::new());
    path.pending_pen_create = Some(pen_stash("pen-1"));
    let r = handle_error("boom", &mut g, &mut path, &mut ins);
    assert!(r.pen_create_cleared);
    assert_eq!(r.claim, QueryClaim::Nobody);
    assert!(path.pending_pen_create.is_none());
}

#[test]
fn query_result_falls_back_to_inspector_buffer() {
    let (mut g, mut path, mut ins) = (gis(), PathEditorState::<Pen>::new(), InspectorFormState::new());
    ins.query_loading = true;
    let claim = handle_query_result("[\n  {\n    \"a\": 1\n  }\n]".to_string(), &mut g, &mut path, &mut ins);
    assert_eq!(claim, QueryClaim::QueryTab);
    assert!(ins.query_result.as_deref().is_some_and(|s| s.contains("\"a\": 1")));
    assert!(!ins.query_loading);
}

fn stamp_desc() -> PathAssetDescriptor {
    PathAssetDescriptor {
        asset_path: "blob://tree.glb".into(),
        spacing_mode: SpacingMode::FixedSpacing,
        spacing_value_bits: 5.0f32.to_bits(),
        count: 0,
        tangent_align: false,
    }
}

#[test]
fn properties_loaded_skips_delivery_when_not_selected() {
    let mut path_state = PathEditorState::<Pen>::new();
    let mut ins = InspectorFormState::new();
    let mut cache: PrimitiveDescriptorCache<String> = PrimitiveDescriptorCache::new();
    let mut pa: PathAssetCache<[f32; 3]> = PathAssetCache::new();
    let r = handle_node_properties_loaded(
        "n1", None, &PropertyBag::new(), None, None, None, &mut path_state, &NodeManager::new(), &mut ins, &mut cache, &mut pa,
    );
    assert!(!r.delivered, "unselected result must continue (skip try_deliver)");
}

#[test]
fn properties_loaded_feeds_primitive_cache_even_when_unselected() {
    let mut path_state = PathEditorState::<Pen>::new();
    let mut ins = InspectorFormState::new();
    let mut cache: PrimitiveDescriptorCache<String> = PrimitiveDescriptorCache::new();
    let mut pa: PathAssetCache<[f32; 3]> = PathAssetCache::new();
    let r = handle_node_properties_loaded(
        "n1", None, &PropertyBag::new(), Some("cube".to_string()), None, None, &mut path_state, &NodeManager::new(), &mut ins, &mut cache, &mut pa,
    );
    assert!(!r.delivered, "selection gate unchanged");
    assert!(cache.get("n1").is_some(), "cache fed without selection");
}

#[test]
fn properties_loaded_feeds_path_asset_cache_when_track_has_stamp() {
    let mut path_state = PathEditorState::<Pen>::new();
    let mut ins = InspectorFormState::new();
    let mut prim: PrimitiveDescriptorCache<String> = PrimitiveDescriptorCache::new();
    let mut pa: PathAssetCache<[f32; 3]> = PathAssetCache::new();
    let r = handle_node_properties_loaded(
        "t1",
        Some("p1"),
        &PropertyBag::new(),
        None,
        Some(stamp_desc()),
        Some((vec![[0.0; 3], [10.0, 0.0, 0.0]], 9)),
        &mut path_state,
        &NodeManager::new(),
        &mut ins,
        &mut prim,
        &mut pa,
    );
    assert!(!r.delivered, "selection gate unchanged");
    assert!(pa.get("t1").is_some(), "path-asset cache fed without selection");
}

#[test]
fn properties_loaded_populates_inspector_for_selected_node() {
    let mut path_state = PathEditorState::<Pen>::new();
    let mut ins = InspectorFormState::new();
    let props = bag(&[("gis.annotation.title", "T"), ("gis.annotation.body", "B")]);
    let mut cache: PrimitiveDescriptorCache<String> = PrimitiveDescriptorCache::new();
    let mut pa: PathAssetCache<[f32; 3]> = PathAssetCache::new();
    let r = handle_node_properties_loaded(
        "n1", None, &props, None, None, None, &mut path_state, &mgr_selected("n1"), &mut ins, &mut cache, &mut pa,
    );
    assert!(r.delivered);
    assert_eq!(ins.node_properties.entries.len(), 2);
    assert!(!ins.node_properties_loading);
    assert_eq!(ins.annotation_title_buf, "T");
    assert_eq!(ins.annotation_body_buf, "B");
    assert_eq!(ins.annotation_color_buf, "");
}

#[test]
fn properties_loaded_claims_the_paths_read_back() {
    let mut path_state = PathEditorState::<Pen>::new();
    path_state.editing_track_id = Some("t1".into());
    path_state.points_pending = true;
    let mut ins = InspectorFormState::new();
    let mut cache: PrimitiveDescriptorCache<String> = PrimitiveDescriptorCache::new();
    let mut pa: PathAssetCache<[f32; 3]> = PathAssetCache::new();
    let r = handle_node_properties_loaded(
        "t1", None, &PropertyBag::new(), None, None, None, &mut path_state, &NodeManager::new(), &mut ins, &mut cache, &mut pa,
    );
    assert!(r.path_readback);
    assert!(!path_state.points_pending);
}

#[test]
fn primitive_property_set_invalidates_cache_and_issues_readback_unselected() {
    let mut path_state = PathEditorState::<Pen>::new();
    let mut ins = InspectorFormState::new();
    let mut cache: PrimitiveDescriptorCache<String> = PrimitiveDescriptorCache::new();
    cache.note_properties("n1", Some("sphere".to_string()));
    let r = handle_node_property_set("n1", "primitive", &None, &mut path_state, &NodeManager::new(), &mut ins, &mut cache);
    assert!(!r.for_selected);
    assert!(cache.get("n1").is_none(), "stale descriptor must be evicted");
    assert!(r.send_read, "primitive write must re-fetch even when unselected");
}

#[test]
fn primitive_property_deleted_evicts_cache_even_when_unselected() {
    let mut ins = InspectorFormState::new();
    let mut cache: PrimitiveDescriptorCache<String> = PrimitiveDescriptorCache::new();
    cache.note_properties("n1", Some("sphere".to_string()));
    let mut pa: PathAssetCache<[f32; 3]> = PathAssetCache::new();
    let delivered = handle_node_property_deleted("n1", "primitive", &NodeManager::new(), &mut ins, &mut cache, &mut pa);
    assert!(!delivered);
    assert!(cache.get("n1").is_none(), "delete must evict before the selection gate");
}

#[test]
fn property_set_issues_readback_for_selected_node() {
    let mut path_state = PathEditorState::<Pen>::new();
    let mut ins = InspectorFormState::new();
    let mut cache: PrimitiveDescriptorCache<String> = PrimitiveDescriptorCache::new();
    let r = handle_node_property_set("n1", "some.key", &None, &mut path_state, &mgr_selected("n1"), &mut ins, &mut cache);
    assert!(r.for_selected);
    assert!(ins.node_properties_loading);
    assert!(r.send_read);
}

#[test]
fn property_set_unselected_skips_readback_and_delivery() {
    let mut path_state = PathEditorState::<Pen>::new();
    let mut ins = InspectorFormState::new();
    let mut cache: PrimitiveDescriptorCache<String> = PrimitiveDescriptorCache::new();
    let r = handle_node_property_set("n1", "some.key", &None, &mut path_state, &NodeManager::new(), &mut ins, &mut cache);
    assert!(!r.for_selected);
    assert!(!r.send_read);
}

#[test]
fn track_name_write_requeries_the_active_petal() {
    let mut path_state = PathEditorState::<Pen>::new();
    let mut ins = InspectorFormState::new();
    let mut cache: PrimitiveDescriptorCache<String> = PrimitiveDescriptorCache::new();
    let r = handle_node_property_set("n1", "gis.track.name", &Some("p1".into()), &mut path_state, &NodeManager::new(), &mut ins, &mut cache);
    assert_eq!(r.query_tracks_petal.as_deref(), Some("p1"));
}

#[test]
fn property_deleted_clears_only_the_touched_buffer() {
    let mut ins = InspectorFormState::new();
    ins.node_properties = bag(&[("gis.annotation.title", "T"), ("gis.annotation.body", "B")]);
    ins.annotation_title_buf = "T".into();
    ins.annotation_body_buf = "B".into();
    let mut cache: PrimitiveDescriptorCache<String> = PrimitiveDescriptorCache::new();
    let mut pa: PathAssetCache<[f32; 3]> = PathAssetCache::new();
    let delivered = handle_node_property_deleted("n1", "gis.annotation.title", &mgr_selected("n1"), &mut ins, &mut cache, &mut pa);
    assert!(delivered);
    assert!(ins.annotation_title_buf.is_empty());
    assert_eq!(ins.annotation_body_buf, "B", "sibling buffer must survive");
    assert!(!ins.node_properties.contains_key("gis.annotation.title"));
    assert_eq!(annotation_field_for_key("gis.annotation.color"), Some(AnnotationField::Color));
}

#[test]
fn node_created_adds_node_and_indexes_it() {
    let mut mgr = tree();
    let node = NodeEntry { id: "n2".into(), name: "New".into(), has_asset: false, position: [0.0; 3], webpage_url: None, asset_path: None };
    let mut path_state = PathEditorState::<Pen>::new();
    let r = handle_node_created(node, "p1", None, &None, &mut mgr, &mut path_state);
    assert!(mgr.all_nodes().iter().any(|n| n.id == "n2"));
    assert!(mgr.node_index.contains_key("n2"));
    assert!(r.change.tree_changed);
    assert!(!r.change.in_active_petal, "inactive petal must not re-query tracks");
    assert!(r.pen_flush.is_none());
}

#[test]
fn node_created_in_active_petal_reruns_paths_query() {
    let mut mgr = tree();
    let node = NodeEntry { id: "n2".into(), name: "New".into(), has_asset: false, position: [0.0; 3], webpage_url: None, asset_path: None };
    let mut path_state = PathEditorState::<Pen>::new();
    let r = handle_node_created(node, "p1", None, &Some("p1".into()), &mut mgr, &mut path_state);
    assert!(r.change.in_active_petal, "active-petal create must re-run the Paths query");
}

#[test]
fn node_deleted_prunes_node_and_stops_editing_it() {
    let mut mgr = tree();
    let mut path_state = PathEditorState::<Pen>::new();
    path_state.editing_track_id = Some("n1".into());
    let mut pa: PathAssetCache<[f32; 3]> = PathAssetCache::new();
    pa.upsert("n1", "p1", stamp_desc(), vec![], 0);
    let mut applied = PathAssetApplied::new();
    applied.remember("n1", stamp_desc(), 0, 0, 0);
    handle_node_deleted("n1", "p1", &None, &mut mgr, &mut path_state, &mut pa, &mut applied);
    assert!(!applied.matches("n1", &stamp_desc(), 0, 0, 0), "applied record cascades away");
    assert!(mgr.all_nodes().iter().all(|n| n.id != "n1"));
    assert!(!mgr.node_index.contains_key("n1"));
    assert!(path_state.editing_track_id.is_none());
    assert!(pa.get("n1").is_none());
}

fn pen_stash(cid: &str) -> Pen {
    PendingPenCreate {
        correlation_id: cid.into(),
        first_point: [1.0, 2.0, 3.0],
        handle_in: None,
        handle_out: None,
        corner: CornerKind::Corner,
        smoothness_bits: 0.0f32.to_bits(),
    }
}

fn track_node(id: &str, name: &str) -> NodeEntry<[f32; 3]> {
    NodeEntry { id: id.into(), name: name.into(), has_asset: false, position: [0.0; 3], webpage_url: None, asset_path: None }
}

#[test]
fn pen_flush_with_handles_appends_smooth_point_with_all_fields() {
    let mut mgr = tree();
    let mut path_state = PathEditorState::<Pen>::new();
    path_state.pending_pen_create = Some(PendingPenCreate {
        handle_in: Some([-4.0, 0.5, -5.0]),
        handle_out: Some([4.0, -0.5, 5.0]),
        corner: CornerKind::Symmetric,
        smoothness_bits: 0.42f32.to_bits(),
        ..pen_stash("pen-track:t1")
    });
    let r = handle_node_created(track_node("n2", "Track"), "p1", Some("pen-track:t1"), &None, &mut mgr, &mut path_state);
    assert_eq!(path_state.editing_track_id.as_deref(), Some("n2"));
    assert!(path_state.pending_pen_create.is_none(), "flush must consume the stash");
    match r.pen_flush {
        Some(PenFlush::AppendSmoothPoint { track_node_id, position, handle_in, handle_out, corner, smoothness_bits }) => {
            assert_eq!(track_node_id, "n2", "flushes onto the echoed node id");
            assert_eq!(position, [1.0, 2.0, 3.0], "raw petal-local meters");
            assert_eq!(handle_in, Some([-4.0, 0.5, -5.0]));
            assert_eq!(handle_out, Some([4.0, -0.5, 5.0]));
            assert_eq!(corner, CornerKind::Symmetric);
            assert_eq!(f32::from_bits(smoothness_bits), 0.42);
        },
        other => panic!("expected AppendSmoothPoint, got {other:?}"),
    }
}

#[test]
fn pen_flush_with_one_sided_handle_still_takes_smooth_branch() {
    let mut mgr = tree();
    let mut path_state = PathEditorState::<Pen>::new();
    path_state.pending_pen_create = Some(PendingPenCreate {
        handle_out: Some([2.0, 0.0, 2.0]),
        corner: CornerKind::Smooth,
        smoothness_bits: 1.0f32.to_bits(),
        ..pen_stash("pen-track:t2")
    });
    let r = handle_node_created(track_node("n2", "Track"), "p1", Some("pen-track:t2"), &None, &mut mgr, &mut path_state);
    match r.pen_flush {
        Some(PenFlush::AppendSmoothPoint { handle_in, handle_out, corner, smoothness_bits, .. }) => {
            assert_eq!(handle_in, None, "absent side must stay absent");
            assert_eq!(handle_out, Some([2.0, 0.0, 2.0]));
            assert_eq!(corner, CornerKind::Smooth);
            assert_eq!(f32::from_bits(smoothness_bits), 1.0);
        },
        other => panic!("expected AppendSmoothPoint, got {other:?}"),
    }
}

#[test]
fn pen_flush_without_handles_appends_plain_point() {
    let mut mgr = tree();
    let mut path_state = PathEditorState::<Pen>::new();
    path_state.pending_pen_create = Some(pen_stash("pen-track:t3"));
    let r = handle_node_created(track_node("n2", "Track"), "p1", Some("pen-track:t3"), &None, &mut mgr, &mut path_state);
    assert_eq!(path_state.editing_track_id.as_deref(), Some("n2"));
    assert!(path_state.pending_pen_create.is_none());
    match r.pen_flush {
        Some(PenFlush::AppendPoint { track_node_id, position }) => {
            assert_eq!(track_node_id, "n2");
            assert_eq!(position, [1.0, 2.0, 3.0]);
        },
        other => panic!("expected AppendPoint, got {other:?}"),
    }
}

#[test]
fn pen_flush_skipped_on_correlation_mismatch() {
    let mut mgr = tree();
    let mut path_state = PathEditorState::<Pen>::new();
    path_state.pending_pen_create = Some(PendingPenCreate { handle_out: Some([1.0, 0.0, 0.0]), ..pen_stash("pen-track:t4") });
    let r = handle_node_created(track_node("n2", "Foreign"), "p1", Some("authored-track:9"), &None, &mut mgr, &mut path_state);
    assert!(r.pen_flush.is_none(), "foreign echo must not flush the pen point");
    assert!(path_state.pending_pen_create.is_some(), "stash must survive for the real echo");
    assert!(path_state.editing_track_id.is_none());
}

#[test]
fn pen_flush_skipped_when_echo_has_no_correlation_id() {
    let mut mgr = tree();
    let mut path_state = PathEditorState::<Pen>::new();
    path_state.pending_pen_create = Some(pen_stash("pen-track:t5"));
    let r = handle_node_created(track_node("n2", "Imported"), "p1", None, &None, &mut mgr, &mut path_state);
    assert!(r.pen_flush.is_none(), "id-less echo must not flush");
    assert!(path_state.pending_pen_create.is_some());
    assert!(path_state.editing_track_id.is_none());
}

#[test]
fn refused_property_results_skip_pending_api_delivery() {
    assert!(deliver_to_pending_api(None));
    assert!(deliver_to_pending_api(Some(true)));
    assert!(!deliver_to_pending_api(Some(false)));
}
