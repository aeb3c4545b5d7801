use fractalengine::hierarchy::{FractalEntry, NodeEntry, PetalEntry, VerseEntry, VerseManager};
use fractalengine::tree_events::{
    handle_database_reset, handle_entity_deleted, handle_entity_renamed, handle_fractal_created,
    handle_petal_created, handle_verse_created, EntityType, NavBackout, NavLabels, TreeRequest,
};

fn tree() -> VerseManager<[f32; 3]> {
    VerseManager::from_verses(vec![VerseEntry {
        id: "v1".into(),
        name: "Verse".into(),
        namespace_id: None,
        expanded: true,
        fractals: vec![FractalEntry {
            id: "f1".into(),
            name: "Fractal".into(),
            expanded: true,
            petals: vec![PetalEntry {
                id: "p1".into(),
                name: "Petal".into(),
                expanded: true,
                nodes: vec![NodeEntry {
                    id: "n1".into(),
                    name: "Node".into(),
                    has_asset: false,
                    position: [0.0; 3],
                    webpage_url: None,
                    asset_path: None,
                }],
            }],
        }],
    }])
}

fn nav() -> NavLabels {
    NavLabels {
        active_verse_id: None,
        active_verse_name: String::new(),
        active_fractal_id: None,
        active_fractal_name: String::new(),
        active_petal_id: None,
    }
}

#[test]
fn database_reset_clears_tree_and_reloads() {
    let mut mgr = tree();
    let request = handle_database_reset(&mut mgr);
    assert!(mgr.verses.is_empty());
    assert!(mgr.node_index.is_empty());
    assert_eq!(request, TreeRequest::LoadHierarchy);
}

#[test]
fn verse_fractal_petal_created_grow_the_tree() {
    let mut mgr = tree();
    handle_verse_created("v2", "V2", &mut mgr);
    assert_eq!(mgr.verses.len(), 2);
    handle_fractal_created("f2", "v2", "F2", &mut mgr);
    assert_eq!(mgr.verses[1].fractals.len(), 1);
    handle_petal_created("p2", "f2", "P2", &mut mgr);
    assert_eq!(mgr.verses[1].fractals[0].petals.len(), 1);
}

#[test]
fn entity_renamed_updates_tree_and_active_nav_name() {
    let mut mgr = tree();
    let mut labels = nav();
    labels.active_verse_id = Some("v1".into());
    handle_entity_renamed(EntityType::Verse, "v1", "Renamed", &mut mgr, &mut labels);
    assert_eq!(mgr.verses[0].name, "Renamed");
    assert_eq!(labels.active_verse_name, "Renamed");
}

#[test]
fn fractal_and_petal_renames_reach_every_verse() {
    let mut mgr = tree();
    let mut labels = nav();
    labels.active_fractal_id = Some("f1".into());
    handle_entity_renamed(EntityType::Fractal, "f1", "F!", &mut mgr, &mut labels);
    assert_eq!(mgr.verses[0].fractals[0].name, "F!");
    assert_eq!(labels.active_fractal_name, "F!");
    handle_entity_renamed(EntityType::Petal, "p1", "P!", &mut mgr, &mut labels);
    assert_eq!(mgr.verses[0].fractals[0].petals[0].name, "P!");
    assert_eq!(labels.active_fractal_name, "F!");
}

#[test]
fn entity_deleted_prunes_rebuilds_index_and_closes_dialog() {
    let mut mgr = tree();
    let labels = nav();
    let mut dialog = Some("peer-debug");
    let back = handle_entity_deleted(EntityType::Verse, "v1", &mut mgr, &labels, &mut dialog);
    assert!(mgr.verses.is_empty());
    assert!(mgr.node_index.is_empty(), "index must be rebuilt after structural delete");
    assert!(dialog.is_none());
    assert_eq!(back, NavBackout::Stay);
}

#[test]
fn deleting_the_active_petal_backs_navigation_out() {
    let mut mgr = tree();
    let mut labels = nav();
    labels.active_petal_id = Some("p1".into());
    let mut dialog: Option<&str> = None;
    let back = handle_entity_deleted(EntityType::Petal, "p1", &mut mgr, &labels, &mut dialog);
    assert_eq!(back, NavBackout::FromPetal);
    assert!(mgr.verses[0].fractals[0].petals.is_empty());
    assert!(!mgr.node_index.contains_key("n1"));
    let back = handle_entity_deleted(EntityType::Fractal, "f1", &mut mgr, &labels, &mut dialog);
    assert_eq!(back, NavBackout::Stay);
    assert!(mgr.verses[0].fractals.is_empty());
}
