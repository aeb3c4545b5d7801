use fractalengine::tauri_commands::{
    asset_dir, check_asset_containment, containment_verdict, get_asset_base_url, is_normal_path_component, list_petals,
    update_node_url,
};

#[test]
fn asset_base_url_joins_verses_onto_data_dir() {
    let r = get_asset_base_url(Ok("/home/u/.local/share/fractalengine".to_string())).unwrap();
    assert_eq!(r, "/home/u/.local/share/fractalengine/verses");
    let r = get_asset_base_url(Ok("/data/".to_string())).unwrap();
    assert_eq!(r, "/data/verses");
}

#[test]
fn asset_base_url_reports_missing_data_dir() {
    let r = get_asset_base_url(Err("no home".to_string()));
    assert_eq!(r, Err("Failed to get app data directory: no home".to_string()));
}

#[test]
fn stub_commands_acknowledge() {
    assert!(update_node_url("n1".to_string(), "https://example.com".to_string()).is_ok());
    assert!(list_petals().unwrap().is_empty());
}

#[test]
fn asset_dir_nests_petal_assets_under_verses() {
    assert_eq!(asset_dir("/data", "p1"), "/data/verses/p1/assets");
    assert_eq!(asset_dir("/data/", "01HXYZ"), "/data/verses/01HXYZ/assets");
}

#[test]
fn normal_components_exclude_separators_and_dots() {
    assert!(is_normal_path_component("p1"));
    assert!(is_normal_path_component("a.b"));
    assert!(!is_normal_path_component(""));
    assert!(!is_normal_path_component("."));
    assert!(!is_normal_path_component(".."));
    assert!(!is_normal_path_component("a/b"));
    assert!(!is_normal_path_component("a\\b"));
    assert!(!is_normal_path_component("C:"));
    assert!(!is_normal_path_component("a?b"));
}

#[test]
fn containment_verdict_maps_inside_to_ok() {
    assert_eq!(containment_verdict(true), Ok(()));
    assert_eq!(containment_verdict(false), Err("Path traversal blocked".to_string()));
}

#[test]
fn containment_accepts_paths_inside_the_asset_dir() {
    assert_eq!(check_asset_containment("/d/verses/p1/assets", "/d/verses/p1/assets/tree.glb"), Ok(()));
    assert_eq!(check_asset_containment("/d/verses/p1/assets", "/d/verses/p1/assets"), Ok(()));
    assert_eq!(check_asset_containment("/d/verses/p1/assets", "/d/verses/p1/assets/models/x.glb"), Ok(()));
}

#[test]
fn containment_blocks_paths_outside_the_asset_dir() {
    let blocked = Err("Path traversal blocked".to_string());
    assert_eq!(check_asset_containment("/d/verses/p1/assets", "/d/verses/p2/assets/x.glb"), blocked);
    assert_eq!(check_asset_containment("/d/verses/p1/assets", "/d/verses/p1/assets2/x.glb"), blocked);
    assert_eq!(check_asset_containment("/d/verses/p1/assets", "/etc/passwd"), blocked);
    assert_eq!(check_asset_containment("/d/verses/p1/assets", "/d/verses/p1"), blocked);
}
