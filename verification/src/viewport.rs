//! The decisions behind the viewport overlay: which browser the overlay
//! shows for the current navigation depth, what a click on a card does,
//! where a card sits in the grid, and the breadcrumb texts. Drawing the
//! cards (pixel geometry in floating point) is the windowing side's work.

use vstd::prelude::*;

use crate::text::push_char;
use crate::text::push_str;
use crate::tree_events::NavLabels;

verus! {

/// Number of leading characters of an id shown in a breadcrumb.
pub const ID_PREFIX_CHARS: usize = 8;

/// The characters of `id` a breadcrumb shows: its first eight, or all of
/// them when it is shorter.
pub open spec fn id_prefix(id: Seq<char>) -> Seq<char> {
    if id.len() <= ID_PREFIX_CHARS {
        id
    } else {
        id.take(ID_PREFIX_CHARS as int)
    }
}

/// The first eight characters of an id (or the whole id when it is
/// shorter), for compact display in breadcrumbs.
pub fn truncate_id(id: &str) -> (r: String)
    ensures
        r@ == id_prefix(id@),
{
    let n: usize = id.unicode_len();
    let keep: usize = if n <= ID_PREFIX_CHARS { n } else { ID_PREFIX_CHARS };
    let mut out = String::new();
    let mut i: usize = 0;
    while i < keep
        invariant
            n == id@.len(),
            keep <= n,
            keep == (if n <= ID_PREFIX_CHARS { n } else { ID_PREFIX_CHARS }),
            i <= keep,
            out@ == id@.take(i as int),
        decreases keep - i,
    {
        let c = id.get_char(i);
        push_char(&mut out, c);
        proof {
            assert(id@.take(i + 1) =~= id@.take(i as int).push(c));
        }
        i = i + 1;
    }
    proof {
        if n <= ID_PREFIX_CHARS {
            assert(id@.take(n as int) =~= id@);
        }
    }
    out
}

/// Which browser the overlay shows.
#[derive(Clone, Copy, Debug, PartialEq, Eq, Structural)]
pub enum OverlayView {
    /// A petal is open: the 3D room with hints and the context menu.
    PetalSpace,
    /// A fractal is open: its petals as cards.
    PetalBrowser,
    /// A verse is open: its fractals as cards.
    FractalBrowser,
    /// Nothing is open: the user's verses and peer discovery.
    VerseBrowser,
}

/// The view for a navigation state: the deepest open scope wins.
pub open spec fn overlay_view_spec(nav: NavLabels) -> OverlayView {
    if nav.active_petal_id is Some {
        OverlayView::PetalSpace
    } else if nav.active_fractal_id is Some {
        OverlayView::PetalBrowser
    } else if nav.active_verse_id is Some {
        OverlayView::FractalBrowser
    } else {
        OverlayView::VerseBrowser
    }
}

/// Picks the overlay's browser from the navigation depth.
pub fn overlay_view(nav: &NavLabels) -> (r: OverlayView)
    ensures
        r == overlay_view_spec(*nav),
{
    if nav.active_petal_id.is_some() {
        OverlayView::PetalSpace
    } else if nav.active_fractal_id.is_some() {
        OverlayView::PetalBrowser
    } else if nav.active_verse_id.is_some() {
        OverlayView::FractalBrowser
    } else {
        OverlayView::VerseBrowser
    }
}

/// What a frame's clicks on one card ask for.
#[derive(Clone, Copy, Debug, PartialEq, Eq, Structural)]
pub enum CardAction {
    /// Nothing was clicked.
    Idle,
    /// Open the entity's settings dialog.
    OpenSettings,
    /// Navigate into the entity.
    Enter,
}

/// A card's gear is drawn only for users who may manage; a gear click wins
/// over a click on the card itself.
pub fn card_action(can_manage: bool, gear_clicked: bool, card_clicked: bool) -> (r: CardAction)
    ensures
        r == (if can_manage && gear_clicked {
            CardAction::OpenSettings
        } else if card_clicked {
            CardAction::Enter
        } else {
            CardAction::Idle
        }),
{
    if can_manage && gear_clicked {
        CardAction::OpenSettings
    } else if card_clicked {
        CardAction::Enter
    } else {
        CardAction::Idle
    }
}

/// Grid cell `(column, row)` of the `index`-th card when `per_row` cards
/// fit on a row; the "+ New" card takes the cell after the last card.
pub fn card_cell(index: usize, per_row: usize) -> (r: (usize, usize))
    requires
        per_row > 0,
    ensures
        r.0 == index % per_row,
        r.1 == index / per_row,
        r.0 < per_row,
        r.1 * per_row + r.0 == index,
{
    let col: usize = index % per_row;
    let row: usize = index / per_row;
    assert(row * per_row + col == index) by (nonlinear_arith)
        requires
            per_row > 0,
            col == index % per_row,
            row == index / per_row,
    ;
    (col, row)
}

/// `"<verse> / <fractal> / <petal>"`, the name breadcrumb of an open petal.
pub fn petal_space_breadcrumb(verse_name: &str, fractal_name: &str, petal_name: &str) -> (r: String)
    ensures
        r@ == verse_name@ + " / "@ + fractal_name@ + " / "@ + petal_name@,
{
    let mut s = String::new();
    push_str(&mut s, verse_name);
    push_str(&mut s, " / ");
    push_str(&mut s, fractal_name);
    push_str(&mut s, " / ");
    push_str(&mut s, petal_name);
    s
}

/// `"v:<verse id> / f:<fractal id> / p:<petal id>"` with each id cut to its
/// display prefix.
pub fn petal_space_id_crumb(verse_id: &str, fractal_id: &str, petal_id: &str) -> (r: String)
    ensures
        r@ == "v:"@ + id_prefix(verse_id@) + " / f:"@ + id_prefix(fractal_id@) + " / p:"@ + id_prefix(
            petal_id@,
        ),
{
    let v = truncate_id(verse_id);
    let f = truncate_id(fractal_id);
    let p = truncate_id(petal_id);
    let mut s = String::new();
    push_str(&mut s, "v:");
    push_str(&mut s, v.as_str());
    push_str(&mut s, " / f:");
    push_str(&mut s, f.as_str());
    push_str(&mut s, " / p:");
    push_str(&mut s, p.as_str());
    s
}

/// `"verse: <name> (<id prefix>)"`, the crumb of the fractal browser.
pub fn verse_crumb(verse_name: &str, verse_id: &str) -> (r: String)
    ensures
        r@ == "verse: "@ + verse_name@ + " ("@ + id_prefix(verse_id@) + ")"@,
{
    let v = truncate_id(verse_id);
    let mut s = String::new();
    push_str(&mut s, "verse: ");
    push_str(&mut s, verse_name);
    push_str(&mut s, " (");
    push_str(&mut s, v.as_str());
    push_str(&mut s, ")");
    s
}

/// `"verse: <name> (<id prefix>) / fractal: <name> (<id prefix>)"`, the
/// crumb of the petal browser.
pub fn fractal_crumb(verse_name: &str, verse_id: &str, fractal_name: &str, fractal_id: &str) -> (r: String)
    ensures
        r@ == "verse: "@ + verse_name@ + " ("@ + id_prefix(verse_id@) + ") / fractal: "@ + fractal_name@ + " ("@
            + id_prefix(fractal_id@) + ")"@,
{
    let v = truncate_id(verse_id);
    let f = truncate_id(fractal_id);
    let mut s = String::new();
    push_str(&mut s, "verse: ");
    push_str(&mut s, verse_name);
    push_str(&mut s, " (");
    push_str(&mut s, v.as_str());
    push_str(&mut s, ") / fractal: ");
    push_str(&mut s, fractal_name);
    push_str(&mut s, " (");
    push_str(&mut s, f.as_str());
    push_str(&mut s, ")");
    s
}

/// Law: a breadcrumb id is the id's first eight characters, or the whole id
/// when it is shorter.
pub proof fn law_id_prefix_is_first_eight_characters(id: Seq<char>)
    ensures
        id_prefix(id).len() == if id.len() < 8 { id.len() } else { 8 },
        id_prefix(id) == id.subrange(0, id_prefix(id).len() as int),
{
    assert(id.subrange(0, id.len() as int) =~= id);
}

/// Law: the overlay shows the deepest open scope: the petal space when a
/// petal is open, else the open fractal's petals, else the open verse's
/// fractals, else the verse browser.
pub proof fn law_overlay_shows_the_deepest_scope(nav: NavLabels)
    ensures
        nav.active_petal_id is Some ==> overlay_view_spec(nav) == OverlayView::PetalSpace,
        nav.active_petal_id is None && nav.active_fractal_id is Some ==> overlay_view_spec(nav)
            == OverlayView::PetalBrowser,
        nav.active_petal_id is None && nav.active_fractal_id is None && nav.active_verse_id is Some
            ==> overlay_view_spec(nav) == OverlayView::FractalBrowser,
        nav.active_petal_id is None && nav.active_fractal_id is None && nav.active_verse_id is None
            ==> overlay_view_spec(nav) == OverlayView::VerseBrowser,
{
}

} // verus!
