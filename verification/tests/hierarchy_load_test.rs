use fractalengine::hierarchy::VerseManager;
use fractalengine::hierarchy_load::{
    first_load_navigation, first_populated_petal, gate_hierarchy_spawns, handle_hierarchy_loaded,
    FractalData, NodeData, PetalData, SpawnRequest, VerseData,
};
use vstd::hash_set::StringHashSet;
use fractalengine::tree_events::NavLabels;

type Pos = [f32; 3];

fn node(id: &str, petal: &str, asset: Option<&str>) -> NodeData<Pos> {
    NodeData {
        id: id.into(),
        name: format!("{id}-name"),
        petal_id: petal.into(),
        has_asset: asset.is_some(),
        position: [1.0, 2.0, 3.0],
        webpage_url: None,
        asset_path: asset.map(str::to_string),
    }
}

fn petal(id: &str, nodes: Vec<NodeData<Pos>>) -> PetalData<Pos> {
    PetalData { id: id.into(), name: format!("{id}-name"), nodes }
}

fn data() -> Vec<VerseData<Pos>> {
    vec![
        VerseData {
            id: "v1".into(),
            name: "Verse One".into(),
            namespace_id: Some("ns1".into()),
            fractals: vec![FractalData {
                id: "f1".into(),
                name: "Fractal One".into(),
                petals: vec![petal("p1", vec![node("n1", "p1", None)])],
            }],
        },
        VerseData {
            id: "v2".into(),
            name: "Verse Two".into(),
            namespace_id: None,
            fractals: vec![FractalData {
                id: "f2".into(),
                name: "Fractal Two".into(),
                petals: vec![
                    petal("p2", vec![node("n2", "p2", Some("models/a.glb")), node("n3", "p2", None)]),
                    petal("p3", vec![node("n4", "p3", Some("models/b.glb"))]),
                ],
            }],
        },
    ]
}

fn closed_nav() -> NavLabels {
    NavLabels {
        active_verse_id: None,
        active_verse_name: String::new(),
        active_fractal_id: None,
        active_fractal_name: String::new(),
        active_petal_id: None,
    }
}

#[test]
fn first_populated_petal_is_found_in_tree_order() {
    assert_eq!(first_populated_petal(&data()), Some((1, 0, 0)));
    let empty: Vec<VerseData<Pos>> = vec![];
    assert_eq!(first_populated_petal(&empty), None);
}

#[test]
fn first_load_opens_first_verse_and_first_populated_petal() {
    let mut nav = closed_nav();
    first_load_navigation(&data(), &mut nav);
    assert_eq!(nav.active_verse_id.as_deref(), Some("v1"));
    assert_eq!(nav.active_verse_name, "Verse One");
    // The populated petal lives under another verse; the code opens it anyway.
    assert_eq!(nav.active_fractal_id.as_deref(), Some("f2"));
    assert_eq!(nav.active_fractal_name, "Fractal Two");
    assert_eq!(nav.active_petal_id.as_deref(), Some("p2"));
}

#[test]
fn later_loads_leave_navigation_alone() {
    let mut nav = closed_nav();
    nav.active_verse_id = Some("v9".into());
    nav.active_verse_name = "Elsewhere".into();
    first_load_navigation(&data(), &mut nav);
    assert_eq!(nav.active_verse_id.as_deref(), Some("v9"));
    assert_eq!(nav.active_verse_name, "Elsewhere");
    assert_eq!(nav.active_petal_id, None);
}

#[test]
fn hierarchy_load_rebuilds_tree_and_spawns_active_petal_assets() {
    let mut mgr: VerseManager<Pos> = VerseManager::new();
    let mut nav = closed_nav();
    let spawns = handle_hierarchy_loaded(&data(), &mut mgr, &mut nav, &mut StringHashSet::new(), false);
    assert_eq!(mgr.verses.len(), 2);
    assert!(mgr.verses.iter().all(|v| v.expanded));
    assert_eq!(mgr.verses[0].namespace_id.as_deref(), Some("ns1"));
    assert_eq!(mgr.verses[1].fractals[0].petals[0].nodes.len(), 2);
    assert!(mgr.verses[1].fractals[0].petals[1].expanded);
    // Only asset-bearing nodes of the active petal p2 are spawned.
    assert_eq!(spawns.len(), 1);
    assert_eq!(spawns[0].node_id, "n2");
    assert_eq!(spawns[0].petal_id, "p2");
    assert_eq!(spawns[0].name, "n2-name");
    assert_eq!(spawns[0].asset_path, "models/a.glb");
    assert_eq!(spawns[0].position, [1.0, 2.0, 3.0]);
    // The node index is rebuilt over the new tree.
    assert_eq!(mgr.locate_node("n4"), Some((1, 0, 1)));
}

#[test]
fn hierarchy_load_without_assets_spawns_nothing() {
    let mut mgr: VerseManager<Pos> = VerseManager::new();
    let mut nav = closed_nav();
    let mut d = data();
    d.truncate(1);
    let spawns = handle_hierarchy_loaded(&d, &mut mgr, &mut nav, &mut StringHashSet::new(), false);
    assert!(spawns.is_empty());
    assert_eq!(nav.active_verse_id.as_deref(), Some("v1"));
    assert_eq!(nav.active_petal_id, None);
}

#[test]
fn empty_hierarchy_load_keeps_navigation_closed() {
    let mut mgr: VerseManager<Pos> = VerseManager::new();
    let mut nav = closed_nav();
    let spawns = handle_hierarchy_loaded(&Vec::new(), &mut mgr, &mut nav, &mut StringHashSet::new(), false);
    assert!(spawns.is_empty());
    assert!(mgr.verses.is_empty());
    assert_eq!(nav.active_verse_id, None);
}

fn request(id: &str) -> SpawnRequest<Pos> {
    SpawnRequest {
        node_id: id.into(),
        petal_id: "p2".into(),
        name: id.into(),
        position: [0.0, 0.0, 0.0],
        asset_path: "models/a.glb".into(),
    }
}

#[test]
fn repeated_hierarchy_loads_do_not_respawn_live_nodes() {
    let mut live = StringHashSet::new();
    live.insert("n1".to_string());
    let kept = gate_hierarchy_spawns(vec![request("n1"), request("n2"), request("n2"), request("n3")], &mut live, false);
    let ids: Vec<&str> = kept.iter().map(|r| r.node_id.as_str()).collect();
    assert_eq!(ids, vec!["n2", "n3"]);
    assert!(live.contains("n2") && live.contains("n3"));
    // The next load of the same tree spawns nothing.
    let again = gate_hierarchy_spawns(vec![request("n2"), request("n3")], &mut live, false);
    assert!(again.is_empty());
}

#[test]
fn mesh_budget_gate_blocks_hierarchy_spawns() {
    let mut live = StringHashSet::new();
    let kept = gate_hierarchy_spawns(vec![request("n1")], &mut live, true);
    assert!(kept.is_empty());
    assert!(!live.contains("n1"));
}

#[test]
fn repeat_hierarchy_load_spawns_only_new_nodes() {
    let mut mgr: VerseManager<Pos> = VerseManager::new();
    let mut nav = closed_nav();
    let mut live = StringHashSet::new();
    let first = handle_hierarchy_loaded(&data(), &mut mgr, &mut nav, &mut live, false);
    assert_eq!(first.len(), 1);
    assert!(live.contains("n2"));
    // The same hierarchy again (an API poll) spawns nothing new.
    let again = handle_hierarchy_loaded(&data(), &mut mgr, &mut nav, &mut live, false);
    assert!(again.is_empty());
    assert_eq!(mgr.verses.len(), 2);
}

#[test]
fn hierarchy_load_over_mesh_budget_spawns_nothing() {
    let mut mgr: VerseManager<Pos> = VerseManager::new();
    let mut nav = closed_nav();
    let mut live = StringHashSet::new();
    let spawns = handle_hierarchy_loaded(&data(), &mut mgr, &mut nav, &mut live, true);
    assert!(spawns.is_empty());
    assert!(!live.contains("n2"));
    assert_eq!(mgr.verses.len(), 2, "the tree is still rebuilt");
}
