//! Verified core of the FractalEngine desktop client: URL security policy,
//! the in-memory verse hierarchy, the embedded browser and its portal
//! overlay, path-asset stamp bookkeeping and the small parsers that sit
//! between the UI and the blob store.

pub mod text;
pub mod keyed;
pub mod url_policy;
pub mod hierarchy;
pub mod tree_events;
pub mod webview;
pub mod portal;
pub mod tauri_commands;
pub mod strmap;
pub mod decimal;
pub mod stamps;
pub mod primitives;
pub mod asset_bridge;
pub mod panic_log;
pub mod path_edits;
pub mod gpx;
pub mod db_routing;
pub mod viewport;
pub mod hierarchy_load;
pub mod petal_respawn;
pub mod seed_hex;
pub mod settings_results;
pub mod hexon_ops;
