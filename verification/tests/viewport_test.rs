use fractalengine::tree_events::NavLabels;
use fractalengine::viewport::{
    card_action, card_cell, fractal_crumb, overlay_view, petal_space_breadcrumb, petal_space_id_crumb,
    truncate_id, verse_crumb, CardAction, OverlayView,
};

fn nav(v: Option<&str>, f: Option<&str>, p: Option<&str>) -> NavLabels {
    NavLabels {
        active_verse_id: v.map(str::to_string),
        active_verse_name: "Verse".into(),
        active_fractal_id: f.map(str::to_string),
        active_fractal_name: "Fractal".into(),
        active_petal_id: p.map(str::to_string),
    }
}

#[test]
fn truncate_id_keeps_first_eight_characters() {
    assert_eq!(truncate_id("01HXYZABCDEFGHJK"), "01HXYZAB");
    assert_eq!(truncate_id("01234567"), "01234567");
}

#[test]
fn truncate_id_keeps_short_ids_whole() {
    assert_eq!(truncate_id("abc"), "abc");
    assert_eq!(truncate_id(""), "");
}

#[test]
fn truncate_id_counts_characters_not_bytes() {
    assert_eq!(truncate_id("ééééé"), "ééééé");
    assert_eq!(truncate_id("ééééééééé"), "éééééééé");
    assert_eq!(truncate_id("日本語のIDです十一"), "日本語のIDです");
}

#[test]
fn overlay_follows_the_deepest_open_scope() {
    assert_eq!(overlay_view(&nav(None, None, None)), OverlayView::VerseBrowser);
    assert_eq!(overlay_view(&nav(Some("v"), None, None)), OverlayView::FractalBrowser);
    assert_eq!(overlay_view(&nav(Some("v"), Some("f"), None)), OverlayView::PetalBrowser);
    assert_eq!(overlay_view(&nav(Some("v"), Some("f"), Some("p"))), OverlayView::PetalSpace);
    // A petal id alone is enough for the 3D space.
    assert_eq!(overlay_view(&nav(None, None, Some("p"))), OverlayView::PetalSpace);
}

#[test]
fn gear_click_wins_only_for_managers() {
    assert_eq!(card_action(true, true, true), CardAction::OpenSettings);
    assert_eq!(card_action(false, true, true), CardAction::Enter);
    assert_eq!(card_action(false, true, false), CardAction::Idle);
    assert_eq!(card_action(true, false, true), CardAction::Enter);
    assert_eq!(card_action(true, false, false), CardAction::Idle);
}

#[test]
fn cards_fill_rows_left_to_right() {
    assert_eq!(card_cell(0, 3), (0, 0));
    assert_eq!(card_cell(2, 3), (2, 0));
    assert_eq!(card_cell(3, 3), (0, 1));
    assert_eq!(card_cell(7, 3), (1, 2));
    assert_eq!(card_cell(5, 1), (0, 5));
}

#[test]
fn breadcrumbs_read_as_the_overlay_shows_them() {
    assert_eq!(petal_space_breadcrumb("V", "F", "P"), "V / F / P");
    assert_eq!(
        petal_space_id_crumb("01HAAAAAAAAA", "01HBBBBBBBBB", "01HCCCCCCCCC"),
        "v:01HAAAAA / f:01HBBBBB / p:01HCCCCC"
    );
    assert_eq!(verse_crumb("Home", "01HVERSE0001"), "verse: Home (01HVERSE)");
    assert_eq!(
        fractal_crumb("Home", "01HVERSE0001", "Parks", "xyz"),
        "verse: Home (01HVERSE) / fractal: Parks (xyz)"
    );
}
