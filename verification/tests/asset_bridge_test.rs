use fractalengine::asset_bridge::{
    parse_blob_uri, resolve_asset, sanitized_file_name, status_after, DownloadOutcome,
};
use fractalengine::hierarchy::{FractalEntry, NodeEntry, PetalEntry, VerseEntry, VerseManager};
use fractalengine::panic_log::{format_panic_entry, panic_payload_string, PanicPayload};

fn verse_with_node(node: NodeEntry<[f32; 3]>) -> VerseManager<[f32; 3]> {
    VerseManager::from_verses(vec![VerseEntry {
        id: "v1".to_string(),
        name: "V1".to_string(),
        namespace_id: None,
        expanded: true,
        fractals: vec![FractalEntry {
            id: "f1".to_string(),
            name: "F1".to_string(),
            expanded: true,
            petals: vec![PetalEntry { id: "p1".to_string(), name: "P1".to_string(), expanded: true, nodes: vec![node] }],
        }],
    }])
}

#[test]
fn resolve_asset_reports_clear_error_when_has_asset_but_no_cached_path() {
    let node = NodeEntry {
        id: "node-2".to_string(),
        name: "Uncached Model".to_string(),
        has_asset: true,
        position: [0.0; 3],
        webpage_url: None,
        asset_path: None,
    };
    let verse_mgr = verse_with_node(node);
    let err = resolve_asset(&verse_mgr, "node-2").unwrap_err();
    assert_ne!(err, "node has no asset");
    let lower = err.to_lowercase();
    assert!(lower.contains("not cached") || lower.contains("re-sync") || lower.contains("reopen"), "got: {err}");
}

#[test]
fn resolve_asset_reports_no_asset_for_node_without_one() {
    let node = NodeEntry {
        id: "node-3".to_string(),
        name: "Empty".to_string(),
        has_asset: false,
        position: [0.0; 3],
        webpage_url: None,
        asset_path: None,
    };
    let verse_mgr = verse_with_node(node);
    let err = resolve_asset(&verse_mgr, "node-3").unwrap_err();
    assert!(err.to_lowercase().contains("no asset"));
}

#[test]
fn resolve_asset_reports_missing_node() {
    let verse_mgr: VerseManager<[f32; 3]> = VerseManager::new();
    let err = resolve_asset(&verse_mgr, "does-not-exist").unwrap_err();
    assert_eq!(err, "node not found");
}

#[test]
fn resolve_asset_extracts_hash_and_suggests_node_name() {
    let node = NodeEntry {
        id: "node-1".to_string(),
        name: "My Cool Model".to_string(),
        has_asset: true,
        position: [0.0; 3],
        webpage_url: None,
        asset_path: Some("blob://abc123.glb".to_string()),
    };
    let verse_mgr = verse_with_node(node);
    let src = resolve_asset(&verse_mgr, "node-1").unwrap();
    assert_eq!(src.hash_hex, "abc123");
    assert_eq!(src.ext, "glb");
    assert_eq!(src.suggested_name, "My Cool Model.glb");
}

#[test]
fn resolve_asset_reports_malformed_reference() {
    let node = NodeEntry {
        id: "node-5".to_string(),
        name: "Bad".to_string(),
        has_asset: true,
        position: [0.0; 3],
        webpage_url: None,
        asset_path: Some("blob://../x.glb".to_string()),
    };
    let err = resolve_asset(&verse_with_node(node), "node-5").unwrap_err();
    assert_eq!(err, "malformed blob uri: blob://../x.glb");
}

#[test]
fn parse_blob_uri_extracts_hash_and_ext() {
    let (hash, ext) = parse_blob_uri("blob://abc123.glb").unwrap();
    assert_eq!(hash, "abc123");
    assert_eq!(ext, "glb");
}

#[test]
fn parse_blob_uri_handles_no_extension() {
    let (hash, ext) = parse_blob_uri("blob://abc123").unwrap();
    assert_eq!(hash, "abc123");
    assert_eq!(ext, "");
}

#[test]
fn parse_blob_uri_rejects_path_separators() {
    assert!(parse_blob_uri("blob://../etc/passwd").is_err());
    assert!(parse_blob_uri("blob://a/b.glb").is_err());
    assert!(parse_blob_uri("blob://a\\b.glb").is_err());
}

#[test]
fn parse_blob_uri_splits_at_last_dot_and_rejects_empty() {
    assert_eq!(parse_blob_uri("blob://a.b.glb").unwrap(), ("a.b".to_string(), "glb".to_string()));
    assert_eq!(parse_blob_uri("abc.gltf").unwrap(), ("abc".to_string(), "gltf".to_string()));
    assert_eq!(parse_blob_uri("blob://").unwrap_err(), "malformed blob uri: blob://");
}

#[test]
fn sanitized_file_name_strips_separators() {
    let name = sanitized_file_name("../evil/name", "deadbeef", "glb");
    assert!(!name.contains('/'));
    assert!(!name.contains('\\'));
    assert!(name.ends_with(".glb"));
}

#[test]
fn sanitized_file_name_falls_back_to_hash() {
    let name = sanitized_file_name("   ", "deadbeef", "glb");
    assert_eq!(name, "deadbeef.glb");
}

#[test]
fn sanitized_file_name_omits_empty_ext() {
    let name = sanitized_file_name("model", "deadbeef", "");
    assert_eq!(name, "model");
}

#[test]
fn sanitized_file_name_exact_cases() {
    assert_eq!(sanitized_file_name("../evil/name", "h", "glb"), "_evil_name.glb");
    assert_eq!(sanitized_file_name(" .. a:b\t. ", "h", "x"), "a_b_.x");
    assert_eq!(sanitized_file_name("...", "h", ""), "h");
}

#[test]
fn download_status_follows_outcome() {
    let s = status_after("n1".to_string(), DownloadOutcome::Saved("/tmp/a.glb".to_string())).unwrap();
    assert_eq!(s.node_id.as_deref(), Some("n1"));
    assert_eq!(s.saved_path.as_deref(), Some("/tmp/a.glb"));
    assert!(s.error.is_none());
    let f = status_after("n1".to_string(), DownloadOutcome::Failed("copy failed".to_string())).unwrap();
    assert_eq!(f.error.as_deref(), Some("copy failed"));
    assert!(status_after("n1".to_string(), DownloadOutcome::Cancelled).is_none());
}

// --- panic log ---

#[test]
fn format_panic_entry_includes_every_field() {
    let line = format_panic_entry(1_700_000_000, "Main Thread", "src/foo.rs:10:5", "boom", "<backtrace>");
    assert!(line.contains("1700000000"));
    assert!(line.contains("Main Thread"));
    assert!(line.contains("src/foo.rs:10:5"));
    assert!(line.contains("boom"));
    assert!(line.contains("<backtrace>"));
    assert_eq!(line, "[1700000000] thread 'Main Thread' panicked at src/foo.rs:10:5: boom\n<backtrace>\n");
}

#[test]
fn panic_payload_string_extracts_str_payload() {
    assert_eq!(panic_payload_string(&PanicPayload::Str("boom &str".to_string())), "boom &str");
}

#[test]
fn panic_payload_string_extracts_string_payload() {
    assert_eq!(panic_payload_string(&PanicPayload::Owned("boom String".to_string())), "boom String");
}

#[test]
fn panic_payload_string_falls_back_for_non_string_payload() {
    assert_eq!(panic_payload_string(&PanicPayload::Other), "<non-string panic payload>");
}
