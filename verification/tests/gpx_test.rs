use fractalengine::gpx::{
    first_seen, materialization_kind, reconcile_track_render, track_style_reread, ImportStep, MaterializationKind,
    PendingGpxImports, PendingTrackImport, PendingWaypointImport, TrackRender, WaypointDraft,
};
use fractalengine::db_routing::PropValue;
use fractalengine::path_edits::{
    authored_track_correlation_id, drain_queued_appends, AppendOutcome, CreatedOutcome,
    EditOutcome, PathRead, PendingAnnotateCreate, PendingPathEdits, PointEdit, ReplyOutcome,
    path_edit_status, request_petal_gpx_materialization, EditKind, PathEditEvent,
};
use fractalengine::hierarchy::{FractalEntry, NodeEntry, PetalEntry, VerseEntry, VerseManager};
use vstd::hash_set::StringHashSet;

#[derive(Debug, Clone, PartialEq)]
struct Pt {
    pos: [f32; 3],
    corner: u8,
}

fn pt(x: f32) -> Pt {
    Pt { pos: [x, 0.0, 0.0], corner: 0 }
}

#[derive(Debug)]
enum Edit {
    Move([f32; 3]),
    Corner(u8),
}

impl PointEdit<Pt> for Edit {
    fn apply_to(&self, point: &mut Pt) {
        match self {
            Edit::Move(p) => point.pos = *p,
            Edit::Corner(c) => point.corner = *c,
        }
    }
}

#[test]
fn materialization_kind_thresholds() {
    assert_eq!(materialization_kind(0), MaterializationKind::Empty);
    assert_eq!(materialization_kind(1), MaterializationKind::Node);
    assert_eq!(materialization_kind(2), MaterializationKind::Line);
    assert_eq!(materialization_kind(50), MaterializationKind::Line);
}

#[test]
fn materialization_kind_covers_every_high1_transition() {
    let kind = materialization_kind;
    assert_eq!((kind(0), kind(1)), (MaterializationKind::Empty, MaterializationKind::Node));
    assert_eq!((kind(1), kind(0)), (MaterializationKind::Node, MaterializationKind::Empty));
    assert_eq!((kind(1), kind(2)), (MaterializationKind::Node, MaterializationKind::Line));
    assert_eq!((kind(2), kind(1)), (MaterializationKind::Line, MaterializationKind::Node));
}

#[test]
fn reconcile_moves_between_renderings_and_is_idempotent() {
    let nothing = TrackRender { has_line: false, has_node: false };
    let node = TrackRender { has_line: false, has_node: true };
    let line = TrackRender { has_line: true, has_node: false };
    // 1 -> 2: the stale node goes, the line is drawn.
    let p = reconcile_track_render(2, node, true);
    assert!(p.despawn_node && p.draw_line && !p.spawn_node && !p.remove_line);
    // 2 -> 1: the line goes, the node is spawned.
    let p = reconcile_track_render(1, line, true);
    assert!(p.remove_line && p.spawn_node && !p.draw_line);
    // 1 -> 0: the node goes.
    let p = reconcile_track_render(0, node, false);
    assert!(p.despawn_node && !p.spawn_node && !p.draw_line && !p.remove_line);
    // Already right, no forced redraw: nothing happens.
    let p = reconcile_track_render(5, line, false);
    assert!(!p.despawn_node && !p.remove_line && !p.draw_line && !p.spawn_node);
    let p = reconcile_track_render(0, nothing, false);
    assert!(!p.despawn_node && !p.remove_line && !p.draw_line && !p.spawn_node);
    // A live edit redraws an existing line.
    assert!(reconcile_track_render(5, line, true).draw_line);
}

#[test]
fn first_seen_true_once_per_id_per_frame() {
    let mut seen = StringHashSet::new();
    assert!(first_seen(&mut seen, "track-a"));
    assert!(!first_seen(&mut seen, "track-a"), "same-batch duplicate skipped");
    assert!(first_seen(&mut seen, "track-b"), "different track unaffected");
    assert!(!first_seen(&mut seen, "track-b"));
}

// --- queued appends ---

#[test]
fn deferred_drain_rescues_append_stranded_behind_set_corner() {
    let mut queue: Vec<PathRead<Pt, Edit>> = vec![
        PathRead::Append { point: pt(1.0) },
        PathRead::Edit { index: 0, edit: Edit::Corner(1) },
        PathRead::Append { point: pt(2.0) },
    ];
    let mut points: Vec<Pt> = Vec::new();
    match queue.remove(0) {
        PathRead::Append { point } => points.push(point),
        _ => panic!("expected append first"),
    }
    assert_eq!(drain_queued_appends(&mut queue, &mut points), 1);
    assert_eq!(points.len(), 2, "trailing append hoisted past the Set");
    match queue.remove(0) {
        PathRead::Edit { index, edit } => edit.apply_to(&mut points[index]),
        _ => panic!("expected the corner edit at the front"),
    }
    assert_eq!(drain_queued_appends(&mut queue, &mut points), 0);
    assert!(queue.is_empty(), "no stranded reads after the last reply");
    assert_eq!(points[0].corner, 1);
    assert_eq!(points[1].pos, [2.0, 0.0, 0.0]);
}

#[test]
fn deferred_drain_rescues_append_stranded_behind_move_point() {
    let mut queue: Vec<PathRead<Pt, Edit>> = vec![
        PathRead::Append { point: pt(1.0) },
        PathRead::Edit { index: 0, edit: Edit::Move([9.0, 0.0, 9.0]) },
        PathRead::Append { point: pt(2.0) },
    ];
    let mut points: Vec<Pt> = Vec::new();
    if let PathRead::Append { point } = queue.remove(0) {
        points.push(point);
    }
    assert_eq!(drain_queued_appends(&mut queue, &mut points), 1);
    assert_eq!(points.len(), 2);
    match queue.remove(0) {
        PathRead::Edit { index, edit } => edit.apply_to(&mut points[index]),
        _ => panic!("expected MovePoint at the front"),
    }
    assert_eq!(drain_queued_appends(&mut queue, &mut points), 0);
    assert!(queue.is_empty());
    assert_eq!(points[0].pos, [9.0, 0.0, 9.0]);
    assert_eq!(points[1].pos, [2.0, 0.0, 0.0]);
}

#[test]
fn drain_stops_at_remove_point_and_resumes_on_its_own_reply() {
    let mut queue: Vec<PathRead<Pt, Edit>> = vec![
        PathRead::Append { point: pt(1.0) },
        PathRead::RemovePoint { index: 0 },
        PathRead::Append { point: pt(3.0) },
    ];
    let mut points = vec![pt(0.0)];
    if let PathRead::Append { point } = queue.remove(0) {
        points.push(point);
    }
    assert_eq!(drain_queued_appends(&mut queue, &mut points), 0);
    assert_eq!(queue.len(), 2, "Remove + trailing append still queued");
    assert_eq!(points.len(), 2);
    match queue.remove(0) {
        PathRead::RemovePoint { index } => {
            assert!(index < points.len());
            points.remove(index);
        }
        _ => panic!("expected RemovePoint at the front"),
    }
    assert_eq!(drain_queued_appends(&mut queue, &mut points), 1);
    assert!(queue.is_empty());
    assert_eq!(points.len(), 2);
    assert_eq!(points[0].pos, [1.0, 0.0, 0.0], "base removed, first append kept");
    assert_eq!(points[1].pos, [3.0, 0.0, 0.0]);
}

#[test]
fn drain_queued_appends_hoists_past_in_place_ops_preserving_their_order() {
    let mut queue: Vec<PathRead<Pt, Edit>> = vec![
        PathRead::Edit { index: 0, edit: Edit::Corner(2) },
        PathRead::Append { point: pt(1.0) },
        PathRead::Annotate { index: 0, title: "t".into(), body: "b".into(), color: "#ffffffff".into() },
        PathRead::Append { point: pt(2.0) },
    ];
    let mut points = vec![pt(0.0)];
    assert_eq!(drain_queued_appends(&mut queue, &mut points), 2);
    assert_eq!(points.len(), 3);
    assert_eq!(points[1].pos, [1.0, 0.0, 0.0]);
    assert_eq!(points[2].pos, [2.0, 0.0, 0.0]);
    assert_eq!(queue.len(), 2);
    assert!(matches!(queue[0], PathRead::Edit { .. }));
    assert!(matches!(queue[1], PathRead::Annotate { .. }));
}

// --- pending path edits ---

#[test]
fn queued_edits_keep_their_order_behind_earlier_ones() {
    let mut p: PendingPathEdits<Pt, Edit> = PendingPathEdits::new();
    assert_eq!(p.remove_point("t", 2), EditOutcome::Queued);
    assert_eq!(p.append_point("t", pt(1.0)), AppendOutcome::Queued { send_read: true });
    assert_eq!(p.append_point("t", pt(2.0)), AppendOutcome::Queued { send_read: false });
    assert_eq!(p.append_point("u", pt(7.0)), AppendOutcome::Queued { send_read: true });
    assert_eq!(p.append_point("t", pt(3.0)), AppendOutcome::Queued { send_read: false });
    assert_eq!(p.queued_for("t"), 4);
    assert_eq!(p.queued_for("u"), 1);
}

#[test]
fn overlapping_appends_share_one_seed_read_and_are_all_applied() {
    let mut p: PendingPathEdits<Pt, Edit> = PendingPathEdits::new();
    assert_eq!(p.append_point("t", pt(1.0)), AppendOutcome::Queued { send_read: true });
    assert_eq!(p.append_point("t", pt(2.0)), AppendOutcome::Queued { send_read: false });
    assert!(p.seed_pending("t"));
    let reply = p.properties_loaded("t", vec![pt(0.0)]);
    assert!(matches!(reply.outcome, ReplyOutcome::Appended));
    assert!(reply.persist);
    assert!(!p.seed_pending("t"));
    assert_eq!(p.queued_for("t"), 0);
    let pts = p.in_flight_points("t").unwrap();
    assert_eq!(pts.iter().map(|q| q.pos[0]).collect::<Vec<_>>(), vec![0.0, 1.0, 2.0]);
    // Later appends go straight to the in-flight list.
    assert_eq!(p.append_point("t", pt(3.0)), AppendOutcome::Buffered);
    assert_eq!(p.in_flight_points("t").unwrap().len(), 4);
}

#[test]
fn buffered_edits_check_the_index() {
    let mut p: PendingPathEdits<Pt, Edit> = PendingPathEdits::new();
    p.append_point("t", pt(1.0));
    p.properties_loaded("t", vec![]);
    assert_eq!(p.edit_point("t", 0, Edit::Move([5.0, 5.0, 5.0])), EditOutcome::Applied);
    assert_eq!(p.in_flight_points("t").unwrap()[0].pos, [5.0, 5.0, 5.0]);
    assert_eq!(p.edit_point("t", 7, Edit::Corner(1)), EditOutcome::OutOfRange);
    assert_eq!(p.remove_point("t", 3), EditOutcome::OutOfRange);
    assert_eq!(p.remove_point("t", 0), EditOutcome::Applied);
    assert!(p.in_flight_points("t").unwrap().is_empty());
    // A deleted track forgets its buffer; the next edit queues behind a read.
    p.delete_track("t");
    assert_eq!(p.remove_point("t", 0), EditOutcome::Queued);
}

#[test]
fn reply_applies_queued_edit_to_stored_points() {
    let mut p: PendingPathEdits<Pt, Edit> = PendingPathEdits::new();
    assert_eq!(p.remove_point("t", 5), EditOutcome::Queued);
    let reply = p.properties_loaded("t", vec![pt(0.0)]);
    assert!(matches!(reply.outcome, ReplyOutcome::Removed { index: 5, in_range: false }));
    assert!(!reply.persist);
    assert!(p.in_flight_points("t").is_none());
    // A reply nobody waits for does nothing.
    assert!(matches!(p.properties_loaded("x", vec![]).outcome, ReplyOutcome::Nothing));
}

#[test]
fn annotate_reply_snapshots_the_anchor_and_matches_the_waypoint() {
    let mut p: PendingPathEdits<Pt, Edit> = PendingPathEdits::new();
    p.annotate_point("t", 1, "Camp".into(), "body".into(), "#fff".into());
    let reply = p.properties_loaded("t", vec![pt(0.0), pt(4.0)]);
    match reply.outcome {
        ReplyOutcome::Annotate { index, anchor, title, .. } => {
            assert_eq!(index, 1);
            assert_eq!(anchor.unwrap().pos, [4.0, 0.0, 0.0]);
            assert_eq!(title, "Camp");
        }
        _ => panic!("expected annotate"),
    }
    p.await_annotate("petal", "Camp", PendingAnnotateCreate { title: "Camp".into(), body: "body".into(), color: "#fff".into() });
    match p.node_created("w1", "petal", "Camp", None) {
        CreatedOutcome::Annotated { create, writes } => {
            assert_eq!(create.body, "body");
            let keys: Vec<&str> = writes.iter().map(|w| w.0.as_str()).collect();
            assert_eq!(keys, vec!["gpx_type", "gis.annotation.title", "gis.annotation.body", "gis.annotation.color"]);
            assert!(matches!(writes[0].1, PropValue::Str(ref v) if v == "waypoint"));
            assert!(matches!(writes[3].1, PropValue::Str(ref v) if v == "#fff"));
        }
        _ => panic!("expected the annotate"),
    }
    assert!(matches!(p.node_created("w2", "petal", "Camp", None), CreatedOutcome::Ignored));
}

#[test]
fn authored_track_reports_created_only_after_all_three_confirms() {
    let mut p: PendingPathEdits<Pt, Edit> = PendingPathEdits::new();
    let cid = authored_track_correlation_id(7);
    assert_eq!(cid, "authored-track:7");
    p.create_track(&cid);
    assert!(matches!(p.node_created("n1", "petal", "Path", Some("other")), CreatedOutcome::Ignored));
    match p.node_created("n1", "petal", "Path", Some(&cid)) {
        CreatedOutcome::TrackCreated { writes } => {
            assert_eq!(writes.len(), 3);
            assert_eq!(writes[0].0, "gpx_type");
            assert!(matches!(writes[0].1, PropValue::Str(ref v) if v == "track"));
            assert_eq!(writes[1].0, "gpx_points");
            assert!(matches!(writes[1].1, PropValue::Json(ref v) if v == "[]"));
            assert_eq!(writes[2].0, "gis.track.name");
            assert!(matches!(writes[2].1, PropValue::Str(ref v) if v == "Path"));
        }
        _ => panic!("expected the authored track"),
    }
    assert!(!p.property_set("n1", "gis.track.name"));
    assert!(!p.property_set("n1", "gpx_type"));
    assert!(!p.property_set("n2", "gpx_points"));
    assert!(p.property_set("n1", "gpx_points"));
    assert!(!p.property_set("n1", "gpx_points"), "reported once");
}

#[test]
fn failed_property_write_is_charged_to_a_waiting_track() {
    let mut p: PendingPathEdits<Pt, Edit> = PendingPathEdits::new();
    assert_eq!(p.property_write_failed("Set node property failed: x"), None);
    p.create_track("c");
    p.node_created("n1", "petal", "Path", Some("c"));
    assert_eq!(p.property_write_failed("other error"), None);
    assert_eq!(p.property_write_failed("Set node property failed: matched no node"), Some("n1".to_string()));
    assert!(!p.property_set("n1", "gpx_type"));
}

#[test]
fn export_reply_hands_out_the_points_before_the_drain() {
    let mut p: PendingPathEdits<Pt, Edit> = PendingPathEdits::new();
    p.export_gpx("t", "/tmp/t.gpx".into());
    p.append_point("t", pt(9.0));
    let reply = p.properties_loaded("t", vec![pt(0.0)]);
    match reply.outcome {
        ReplyOutcome::Export { save_path, points } => {
            assert_eq!(save_path, "/tmp/t.gpx");
            assert_eq!(points.len(), 1);
        }
        _ => panic!("expected export"),
    }
    assert!(reply.persist, "the queued append was drained");
    assert_eq!(p.in_flight_points("t").unwrap().len(), 2);
}

// --- GPX imports ---

fn draft(name: &str) -> WaypointDraft<Pt> {
    WaypointDraft { name: name.into(), position: pt(5.0) }
}

#[test]
fn gpx_import_matches_track_then_its_waypoints() {
    let mut imp: PendingGpxImports<u32, Pt> = PendingGpxImports::new();
    imp.queue_track(
        "p1",
        "Hike",
        PendingTrackImport {
            petal_id: "p1".into(),
            stats_props: vec![("gis.track.distance_m".into(), 1200), ("gis.track.points".into(), 3)],
            route_points: vec![pt(0.0), pt(1.0), pt(2.0)],
            waypoints: vec![draft("Camp")],
        },
    );
    imp.queue_waypoint("p1", "Lone", PendingWaypointImport { title: "Lone".into(), track_node_id: None });
    assert!(matches!(imp.node_created("x", "p1", "Hike", true), ImportStep::Ignored));
    match imp.node_created("t1", "p1", "Hike", false) {
        ImportStep::Track(t) => {
            assert_eq!(t.petal_id, "p1");
            assert_eq!(t.stats_props, vec![("gis.track.distance_m".to_string(), 1200), ("gis.track.points".to_string(), 3)]);
            assert_eq!(t.points_write.map(|v| v.len()), Some(3));
            assert_eq!(t.waypoint_creates.len(), 1);
            assert_eq!(t.waypoint_creates[0].name, "Camp");
        }
        _ => panic!("expected the track"),
    }
    match imp.node_created("w1", "p1", "Camp", false) {
        ImportStep::Waypoint { waypoint, writes } => {
            assert_eq!(waypoint.track_node_id.as_deref(), Some("t1"));
            let keys: Vec<&str> = writes.iter().map(|w| w.0.as_str()).collect();
            assert_eq!(keys, vec!["gpx_type", "gis.annotation.title", "gpx_track_id"]);
            assert!(matches!(writes[2].1, PropValue::Str(ref v) if v == "t1"));
        }
        _ => panic!("expected the child waypoint"),
    }
    match imp.node_created("w2", "p1", "Lone", false) {
        ImportStep::Waypoint { waypoint, writes } => {
            assert!(waypoint.track_node_id.is_none());
            assert_eq!(writes.len(), 2);
        }
        _ => panic!("expected the lone waypoint"),
    }
    assert!(matches!(imp.node_created("w3", "p1", "Lone", false), ImportStep::Ignored));
}

#[test]
fn gpx_import_writes_route_points_only_for_two_or_more() {
    let mut imp: PendingGpxImports<u32, Pt> = PendingGpxImports::new();
    imp.queue_track(
        "p1",
        "Dot",
        PendingTrackImport { petal_id: "p1".into(), stats_props: vec![], route_points: vec![pt(0.0)], waypoints: vec![] },
    );
    match imp.node_created("t1", "p1", "Dot", false) {
        ImportStep::Track(t) => assert!(t.points_write.is_none()),
        _ => panic!("expected the track"),
    }
}

#[test]
fn status_line_reports_successes_as_messages() {
    let s = path_edit_status("t1", &PathEditEvent::PointAdded);
    assert_eq!(s.track_node_id.as_deref(), Some("t1"));
    assert_eq!(s.message.as_deref(), Some("Point added"));
    assert_eq!(s.error, None);
    let s = path_edit_status("t1", &PathEditEvent::PointEdited { kind: EditKind::Corner, index: 2, applied: true });
    assert_eq!(s.message.as_deref(), Some("Corner set"));
    let s = path_edit_status("t1", &PathEditEvent::Exported { path: "/tmp/a.gpx".into() });
    assert_eq!(s.message.as_deref(), Some("Exported to /tmp/a.gpx"));
    assert_eq!(path_edit_status("t", &PathEditEvent::TrackCreated).message.as_deref(), Some("Track created"));
    assert_eq!(path_edit_status("t", &PathEditEvent::TrackDeleted).message.as_deref(), Some("Track deleted"));
}

#[test]
fn status_line_reports_failures_as_errors() {
    let s = path_edit_status("t1", &PathEditEvent::PointRemoved { index: 12, in_range: false });
    assert_eq!(s.message, None);
    assert_eq!(s.error.as_deref(), Some("point index 12 out of range"));
    let s = path_edit_status("t1", &PathEditEvent::PointEdited { kind: EditKind::Move, index: 0, applied: false });
    assert_eq!(s.error.as_deref(), Some("point index 0 out of range"));
    let s = path_edit_status("t1", &PathEditEvent::NoActiveTerrain);
    assert_eq!(s.error.as_deref(), Some("cannot annotate: no active petal terrain"));
    let s = path_edit_status("t1", &PathEditEvent::ExportFailed { reason: "disk full".into() });
    assert_eq!(s.error.as_deref(), Some("write failed: disk full"));
}

#[test]
fn only_style_writes_reread_a_track() {
    assert!(track_style_reread("gis.track.color"));
    assert!(track_style_reread("gis.track.width"));
    assert!(track_style_reread("gis.track.visible"));
    assert!(!track_style_reread("gis.track.name"));
    assert!(!track_style_reread("gpx_points"));
}

fn petal_tree() -> VerseManager<[f32; 3]> {
    let node = |id: &str| NodeEntry {
        id: id.to_string(),
        name: id.to_string(),
        has_asset: false,
        position: [0.0; 3],
        webpage_url: None,
        asset_path: None,
    };
    VerseManager::from_verses(vec![VerseEntry {
        id: "v".into(),
        name: "V".into(),
        namespace_id: None,
        expanded: true,
        fractals: vec![FractalEntry {
            id: "f".into(),
            name: "F".into(),
            expanded: true,
            petals: vec![PetalEntry { id: "p1".into(), name: "P1".into(), expanded: true, nodes: vec![node("a"), node("b")] }],
        }],
    }])
}

#[test]
fn petal_reload_forgets_in_flight_lists_and_fetches_every_node() {
    let mgr = petal_tree();
    let mut p: PendingPathEdits<Pt, Edit> = PendingPathEdits::new();
    p.append_point("t", pt(1.0));
    p.properties_loaded("t", vec![]);
    assert!(p.in_flight_points("t").is_some());
    let mut last = 0u64;
    let ids = request_petal_gpx_materialization(true, 3, &mut last, &Some("p1".into()), &mgr, &mut p);
    assert_eq!(ids, vec!["a".to_string(), "b".to_string()]);
    assert_eq!(last, 3);
    assert!(p.in_flight_points("t").is_none(), "stale in-flight list dropped");
    // The same revision again does nothing.
    let again = request_petal_gpx_materialization(true, 3, &mut last, &Some("p1".into()), &mgr, &mut p);
    assert!(again.is_empty());
    let unchanged = request_petal_gpx_materialization(false, 4, &mut last, &Some("p1".into()), &mgr, &mut p);
    assert!(unchanged.is_empty());
    assert_eq!(last, 3);
}
