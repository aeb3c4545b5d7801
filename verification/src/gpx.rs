//! GPX tracks in the scene: how a track's point count decides what is
//! rendered for it, the reconcile step that moves a track between those
//! renderings, the same-frame duplicate guard, and the bookkeeping that
//! matches a GPX import's node creates with their results.

use vstd::prelude::*;
use vstd::hash_set::StringHashSet;

use crate::db_routing::{str_write, string_write, PropValue};
use crate::strmap::PairFifo;
use crate::text::{str_eq, to_owned_string};

verus! {

/// What a track's point count materializes as.
#[derive(Debug, Clone, Copy, PartialEq, Eq, Structural)]
pub enum MaterializationKind {
    /// No points: nothing.
    Empty,
    /// One point: a plain, selectable node.
    Node,
    /// Two or more points: the polyline.
    Line,
}

/// The render kind of a track with `len` points.
pub open spec fn kind_of(len: nat) -> MaterializationKind {
    if len == 0 {
        MaterializationKind::Empty
    } else if len == 1 {
        MaterializationKind::Node
    } else {
        MaterializationKind::Line
    }
}

/// Maps a track's point count to its render kind.
pub fn materialization_kind(len: usize) -> (r: MaterializationKind)
    ensures
        r == kind_of(len as nat),
{
    if len == 0 {
        MaterializationKind::Empty
    } else if len == 1 {
        MaterializationKind::Node
    } else {
        MaterializationKind::Line
    }
}

/// Which render entities a track has.
#[derive(Debug, Clone, Copy, PartialEq, Eq, Structural)]
pub struct TrackRender {
    pub has_line: bool,
    pub has_node: bool,
}

/// The steps that bring a track's rendering in line with its points.
#[derive(Debug, Clone, Copy, PartialEq, Eq, Structural)]
pub struct RenderPlan {
    /// Despawn the single-point node.
    pub despawn_node: bool,
    /// Despawn the line and drop its route.
    pub remove_line: bool,
    /// (Re)draw the line (replacing an existing one).
    pub draw_line: bool,
    /// Spawn the single-point node.
    pub spawn_node: bool,
}

/// The rendering a track with `len` points must end with.
pub open spec fn target_render(len: nat) -> TrackRender {
    match kind_of(len) {
        MaterializationKind::Empty => TrackRender { has_line: false, has_node: false },
        MaterializationKind::Node => TrackRender { has_line: false, has_node: true },
        MaterializationKind::Line => TrackRender { has_line: true, has_node: false },
    }
}

/// The rendering after carrying out `plan` on `s`.
pub open spec fn after_plan(s: TrackRender, plan: RenderPlan) -> TrackRender {
    TrackRender {
        has_line: (s.has_line && !plan.remove_line) || plan.draw_line,
        has_node: (s.has_node && !plan.despawn_node) || plan.spawn_node,
    }
}

/// A plan with nothing to do.
pub open spec fn is_noop(plan: RenderPlan) -> bool {
    !plan.despawn_node && !plan.remove_line && !plan.draw_line && !plan.spawn_node
}

/// The plan for a track with `point_count` points rendered as `current`:
/// two or more points drop a single-point node and draw the line (redrawn on
/// a live edit, `force_line_redraw`, else only when missing); exactly one
/// drops the line and spawns the node when missing; none drops both.
pub open spec fn render_plan(point_count: nat, current: TrackRender, force_line_redraw: bool) -> RenderPlan {
    match kind_of(point_count) {
        MaterializationKind::Line => RenderPlan {
            despawn_node: current.has_node,
            remove_line: false,
            draw_line: force_line_redraw || !current.has_line,
            spawn_node: false,
        },
        MaterializationKind::Node => RenderPlan {
            despawn_node: false,
            remove_line: current.has_line,
            draw_line: false,
            spawn_node: !current.has_node,
        },
        MaterializationKind::Empty => RenderPlan {
            despawn_node: current.has_node,
            remove_line: current.has_line,
            draw_line: false,
            spawn_node: false,
        },
    }
}

/// Reconciles a track's rendering with its point count.
pub fn reconcile_track_render(point_count: usize, current: TrackRender, force_line_redraw: bool) -> (r: RenderPlan)
    ensures
        r == render_plan(point_count as nat, current, force_line_redraw),
{
    match materialization_kind(point_count) {
        MaterializationKind::Line => RenderPlan {
            despawn_node: current.has_node,
            remove_line: false,
            draw_line: force_line_redraw || !current.has_line,
            spawn_node: false,
        },
        MaterializationKind::Node => RenderPlan {
            despawn_node: false,
            remove_line: current.has_line,
            draw_line: false,
            spawn_node: !current.has_node,
        },
        MaterializationKind::Empty => RenderPlan {
            despawn_node: current.has_node,
            remove_line: current.has_line,
            draw_line: false,
            spawn_node: false,
        },
    }
}

/// Law: whatever a track's rendering was (a stale node after growing to two
/// points, a line after shrinking to one, ...), carrying out the plan leaves
/// exactly the rendering its point count calls for, and the plan only
/// removes what exists and only spawns a node that is missing.
pub proof fn law_reconcile_reaches_target(point_count: nat, current: TrackRender, force: bool)
    ensures
        after_plan(current, render_plan(point_count, current, force)) == target_render(point_count),
        render_plan(point_count, current, force).despawn_node ==> current.has_node,
        render_plan(point_count, current, force).remove_line ==> current.has_line,
        render_plan(point_count, current, force).spawn_node ==> !current.has_node,
{
}

/// Law: reconciling is idempotent — once a track's rendering matches its
/// points, reconciling again without a forced redraw does nothing.
pub proof fn law_reconcile_idempotent(point_count: nat)
    ensures
        is_noop(render_plan(point_count, target_render(point_count), false)),
{
}

/// `true` only the first time `id` is seen in this batch (`seen` is the
/// batch's set of ids).
pub fn first_seen(seen: &mut StringHashSet, id: &str) -> (r: bool)
    ensures
        r == !old(seen)@.contains(id@),
        final(seen)@ == old(seen)@.insert(id@),
{
    seen.insert(to_owned_string(id))
}

// ---------------------------------------------------------------------------
// GPX import bookkeeping
// ---------------------------------------------------------------------------

/// A waypoint of an imported track: its name and position.
pub struct WaypointDraft<Pt> {
    pub name: String,
    pub position: Pt,
}

/// A track node create that was sent, with what to write once the node
/// exists: its statistics properties, its route points and the waypoint
/// children to create under it.
pub struct PendingTrackImport<V, Pt> {
    pub petal_id: String,
    pub stats_props: Vec<(String, V)>,
    pub route_points: Vec<Pt>,
    pub waypoints: Vec<WaypointDraft<Pt>>,
}

/// The names of a track's waypoints, in order.
pub open spec fn draft_names<Pt>(w: Seq<WaypointDraft<Pt>>) -> Seq<String> {
    w.map_values(|d: WaypointDraft<Pt>| d.name)
}

/// What to send once an imported track's node exists: one property write
/// per statistic, the route points as `gpx_points` (only for a route of at
/// least two points), and one node create per waypoint in `petal_id`.
pub struct TrackImportStep<V, Pt> {
    pub petal_id: String,
    pub stats_props: Vec<(String, V)>,
    pub points_write: Option<Vec<Pt>>,
    pub waypoint_creates: Vec<WaypointDraft<Pt>>,
}

/// The sends of a track import `t`.
pub open spec fn track_import_step<V, Pt>(s: TrackImportStep<V, Pt>, t: PendingTrackImport<V, Pt>) -> bool {
    &&& s.petal_id == t.petal_id
    &&& s.stats_props == t.stats_props
    &&& s.waypoint_creates == t.waypoints
    &&& (t.route_points@.len() >= 2 ==> s.points_write == Some(t.route_points))
    &&& (t.route_points@.len() < 2 ==> s.points_write is None)
}

/// A waypoint node create that was sent.
#[derive(Debug, Clone)]
pub struct PendingWaypointImport {
    pub title: String,
    pub track_node_id: Option<String>,
}

/// Matches import node creates with their `NodeCreated` results by
/// `(petal, name)`, oldest first.
pub struct PendingGpxImports<V, Pt> {
    tracks: PairFifo<PendingTrackImport<V, Pt>>,
    waypoints: PairFifo<PendingWaypointImport>,
}

/// What a `NodeCreated` result means to the importer.
pub enum ImportStep<V, Pt> {
    /// A track node exists: send these writes and creates; its waypoint
    /// children were queued to await their own results.
    Track(TrackImportStep<V, Pt>),
    /// A waypoint node exists: send `writes` (its type, title and, when it
    /// belongs to a track, the track link).
    Waypoint { waypoint: PendingWaypointImport, writes: Vec<(String, PropValue)> },
    /// Not an import result.
    Ignored,
}

/// The writes that make an imported waypoint's node a waypoint: type
/// `waypoint`, its title, and the link to its track when it has one.
pub open spec fn waypoint_writes(w: Seq<(String, PropValue)>, wp: PendingWaypointImport) -> bool {
    &&& str_write(w[0], "gpx_type"@, "waypoint"@)
    &&& str_write(w[1], "gis.annotation.title"@, wp.title@)
    &&& match wp.track_node_id {
        Some(t) => w.len() == 3 && str_write(w[2], "gpx_track_id"@, t@),
        None => w.len() == 2,
    }
}

/// The titles, in order, whose children are queued under `(p, n)`: those
/// named `n` when the track's petal is `p`.
pub open spec fn child_titles(titles: Seq<String>, track_petal: Seq<char>, p: Seq<char>, n: Seq<char>) -> Seq<String>
    decreases titles.len(),
{
    if titles.len() == 0 {
        Seq::empty()
    } else {
        let prev = child_titles(titles.drop_last(), track_petal, p, n);
        if track_petal == p && titles.last()@ == n {
            prev.push(titles.last())
        } else {
            prev
        }
    }
}

/// `after` is `before` followed by one waypoint create per title, in order,
/// each linked to track `id`.
pub open spec fn children_queued(
    before: Seq<PendingWaypointImport>,
    after: Seq<PendingWaypointImport>,
    titles: Seq<String>,
    id: Seq<char>,
) -> bool {
    &&& after.len() == before.len() + titles.len()
    &&& after.take(before.len() as int) == before
    &&& forall|k: int|
        0 <= k < titles.len() ==> {
            &&& (#[trigger] after[before.len() + k]).title == titles[k]
            &&& after[before.len() + k].track_node_id matches Some(s) && s@ == id
        }
}

impl<V, Pt> PendingGpxImports<V, Pt> {
    pub closed spec fn wf(&self) -> bool {
        self.tracks.wf() && self.waypoints.wf()
    }

    /// Track creates waiting under `(petal, name)`.
    pub closed spec fn tracks_waiting(&self, petal: Seq<char>, name: Seq<char>) -> Seq<PendingTrackImport<V, Pt>> {
        self.tracks.queue(petal, name)
    }

    /// Waypoint creates waiting under `(petal, name)`.
    pub closed spec fn waypoints_waiting(&self, petal: Seq<char>, name: Seq<char>) -> Seq<PendingWaypointImport> {
        self.waypoints.queue(petal, name)
    }

    pub fn new() -> (r: Self)
        ensures
            r.wf(),
            forall|p: Seq<char>, n: Seq<char>| #[trigger] r.tracks_waiting(p, n).len() == 0,
            forall|p: Seq<char>, n: Seq<char>| #[trigger] r.waypoints_waiting(p, n).len() == 0,
    {
        PendingGpxImports { tracks: PairFifo::new(), waypoints: PairFifo::new() }
    }

    /// A track node create named `name` was sent to `petal_id`.
    pub fn queue_track(&mut self, petal_id: &str, name: &str, import: PendingTrackImport<V, Pt>)
        requires
            old(self).wf(),
        ensures
            final(self).wf(),
            final(self).tracks_waiting(petal_id@, name@) == old(self).tracks_waiting(petal_id@, name@).push(import),
            forall|p: Seq<char>, n: Seq<char>| (p, n) != (petal_id@, name@) ==> #[trigger] final(self).tracks_waiting(p, n) == old(self).tracks_waiting(p, n),
            forall|p: Seq<char>, n: Seq<char>| #[trigger] final(self).waypoints_waiting(p, n) == old(self).waypoints_waiting(p, n),
    {
        self.tracks.push(petal_id, name, import);
    }

    /// A waypoint node create named `name` was sent to `petal_id`.
    pub fn queue_waypoint(&mut self, petal_id: &str, name: &str, wp: PendingWaypointImport)
        requires
            old(self).wf(),
        ensures
            final(self).wf(),
            final(self).waypoints_waiting(petal_id@, name@) == old(self).waypoints_waiting(petal_id@, name@).push(wp),
            forall|p: Seq<char>, n: Seq<char>| (p, n) != (petal_id@, name@) ==> #[trigger] final(self).waypoints_waiting(p, n) == old(self).waypoints_waiting(p, n),
            forall|p: Seq<char>, n: Seq<char>| #[trigger] final(self).tracks_waiting(p, n) == old(self).tracks_waiting(p, n),
    {
        self.waypoints.push(petal_id, name, wp);
    }

    /// A `NodeCreated` result for node `id` named `name` in `petal_id`.
    /// Results carrying a correlation id belong to the path editor. Otherwise
    /// the oldest track create waiting under `(petal, name)` takes it — its
    /// waypoint children are queued under `(track petal, title)` linked to
    /// `id` — else the oldest waiting waypoint create.
    pub fn node_created(&mut self, id: &str, petal_id: &str, name: &str, has_correlation_id: bool) -> (r: ImportStep<V, Pt>)
        requires
            old(self).wf(),
        ensures
            final(self).wf(),
            has_correlation_id ==> r is Ignored
                && (forall|p: Seq<char>, n: Seq<char>| #[trigger] final(self).tracks_waiting(p, n) == old(self).tracks_waiting(p, n))
                && (forall|p: Seq<char>, n: Seq<char>| #[trigger] final(self).waypoints_waiting(p, n) == old(self).waypoints_waiting(p, n)),
            !has_correlation_id && old(self).tracks_waiting(petal_id@, name@).len() > 0 ==> {
                let t = old(self).tracks_waiting(petal_id@, name@)[0];
                &&& r matches ImportStep::Track(x) && track_import_step(x, t)
                &&& final(self).tracks_waiting(petal_id@, name@) == old(self).tracks_waiting(petal_id@, name@).skip(1)
                &&& forall|p: Seq<char>, n: Seq<char>| #[trigger] children_queued(
                    old(self).waypoints_waiting(p, n),
                    final(self).waypoints_waiting(p, n),
                    child_titles(draft_names(t.waypoints@), t.petal_id@, p, n),
                    id@,
                )
            },
            !has_correlation_id && old(self).tracks_waiting(petal_id@, name@).len() == 0
                && old(self).waypoints_waiting(petal_id@, name@).len() > 0 ==> {
                &&& r matches ImportStep::Waypoint { waypoint: w, writes } && w == old(self).waypoints_waiting(
                    petal_id@,
                    name@,
                )[0] && waypoint_writes(writes@, w)
                &&& final(self).waypoints_waiting(petal_id@, name@) == old(self).waypoints_waiting(petal_id@, name@).skip(1)
                &&& forall|p: Seq<char>, n: Seq<char>| (p, n) != (petal_id@, name@) ==> #[trigger] final(self).waypoints_waiting(p, n) == old(self).waypoints_waiting(p, n)
                &&& forall|p: Seq<char>, n: Seq<char>| #[trigger] final(self).tracks_waiting(p, n) == old(self).tracks_waiting(p, n)
            },
            !has_correlation_id && old(self).tracks_waiting(petal_id@, name@).len() == 0
                && old(self).waypoints_waiting(petal_id@, name@).len() == 0 ==> {
                &&& r is Ignored
                &&& forall|p: Seq<char>, n: Seq<char>| #[trigger] final(self).tracks_waiting(p, n) == old(self).tracks_waiting(p, n)
                &&& forall|p: Seq<char>, n: Seq<char>| #[trigger] final(self).waypoints_waiting(p, n) == old(self).waypoints_waiting(p, n)
            },
            forall|p: Seq<char>, n: Seq<char>| (p, n) != (petal_id@, name@) ==> #[trigger] final(self).tracks_waiting(p, n) == old(self).tracks_waiting(p, n),
    {
        if has_correlation_id {
            return ImportStep::Ignored;
        }
        match self.tracks.pop_front(petal_id, name) {
            Some(track) => {
                let ghost tracks0 = self.tracks;
                let ghost w0 = self.waypoints;
                let ghost titles = draft_names(track.waypoints@);
                let ghost tp = track.petal_id@;
                proof {
                    assert forall|p: Seq<char>, n: Seq<char>| #[trigger] children_queued(
                        w0.queue(p, n),
                        self.waypoints.queue(p, n),
                        child_titles(titles.take(0), tp, p, n),
                        id@,
                    ) by {
                        assert(titles.take(0).len() == 0);
                        assert(w0.queue(p, n).take(w0.queue(p, n).len() as int) =~= w0.queue(p, n));
                    }
                }
                let mut i: usize = 0;
                while i < track.waypoints.len()
                    invariant
                        self.wf(),
                        self.tracks == tracks0,
                        i <= track.waypoints@.len(),
                        titles == draft_names(track.waypoints@),
                        tp == track.petal_id@,
                        forall|p: Seq<char>, n: Seq<char>| #[trigger] children_queued(
                            w0.queue(p, n),
                            self.waypoints.queue(p, n),
                            child_titles(titles.take(i as int), tp, p, n),
                            id@,
                        ),
                    decreases track.waypoints@.len() - i,
                {
                    let title = &track.waypoints[i].name;
                    let ghost before = self.waypoints;
                    let wp = PendingWaypointImport { title: title.clone(), track_node_id: Some(to_owned_string(id)) };
                    self.waypoints.push(track.petal_id.as_str(), title.as_str(), wp);
                    proof {
                        assert(titles.take(i + 1).drop_last() =~= titles.take(i as int));
                        assert(titles.take(i + 1).last() == titles[i as int]);
                        assert forall|p: Seq<char>, n: Seq<char>| #[trigger] children_queued(
                            w0.queue(p, n),
                            self.waypoints.queue(p, n),
                            child_titles(titles.take(i + 1), tp, p, n),
                            id@,
                        ) by {
                            let prev = child_titles(titles.take(i as int), tp, p, n);
                            assert(children_queued(w0.queue(p, n), before.queue(p, n), prev, id@));
                            if (p, n) == (tp, titles[i as int]@) {
                                let cur = child_titles(titles.take(i + 1), tp, p, n);
                                assert(cur == prev.push(titles[i as int]));
                                let q = self.waypoints.queue(p, n);
                                assert(q == before.queue(p, n).push(wp));
                                assert(q.take(w0.queue(p, n).len() as int) =~= before.queue(p, n).take(
                                    w0.queue(p, n).len() as int,
                                ));
                                assert(q.skip(w0.queue(p, n).len() as int) =~= before.queue(p, n).skip(
                                    w0.queue(p, n).len() as int,
                                ).push(wp));
                            } else {
                                assert(child_titles(titles.take(i + 1), tp, p, n) == prev);
                            }
                        }
                    }
                    i = i + 1;
                }
                assert(titles.take(titles.len() as int) =~= titles);
                let PendingTrackImport { petal_id: track_petal, stats_props, route_points, waypoints } = track;
                let points_write = if route_points.len() >= 2 { Some(route_points) } else { None };
                ImportStep::Track(
                    TrackImportStep { petal_id: track_petal, stats_props, points_write, waypoint_creates: waypoints },
                )
            },
            None => match self.waypoints.pop_front(petal_id, name) {
                Some(wp) => {
                    let mut writes: Vec<(String, PropValue)> = Vec::new();
                    writes.push(string_write("gpx_type", "waypoint"));
                    writes.push(string_write("gis.annotation.title", wp.title.as_str()));
                    if let Some(t) = &wp.track_node_id {
                        writes.push(string_write("gpx_track_id", t.as_str()));
                    }
                    ImportStep::Waypoint { waypoint: wp, writes }
                },
                None => ImportStep::Ignored,
            },
        }
    }
}

/// Law: the line is (re)drawn exactly when the track has at least two
/// points and either a redraw is forced (a live edit moved a point, so the
/// existing line must be replaced) or no line exists yet; a forced redraw
/// of a track with two or more points therefore always draws.
pub proof fn law_line_drawn_when_forced_or_missing(point_count: nat, current: TrackRender, force: bool)
    ensures
        render_plan(point_count, current, force).draw_line <==> (point_count >= 2 && (force || !current.has_line)),
        point_count >= 2 && force ==> render_plan(point_count, current, force).draw_line,
        point_count < 2 ==> !render_plan(point_count, current, force).draw_line,
{
}

/// The three per-track style properties.
pub open spec fn is_track_style_key(key: Seq<char>) -> bool {
    key == "gis.track.color"@ || key == "gis.track.width"@ || key == "gis.track.visible"@
}

/// A property write that changes a track's style (color, width or
/// visibility) makes the track's properties be read again, so its line is
/// redrawn with the new style; other writes do not.
pub fn track_style_reread(key: &str) -> (r: bool)
    ensures
        r == is_track_style_key(key@),
{
    str_eq(key, "gis.track.color") || str_eq(key, "gis.track.width") || str_eq(key, "gis.track.visible")
}

/// Law: a track with no points shows nothing, one point shows a single
/// node, and two or more points show the line.
pub proof fn law_render_kind_follows_point_count(len: nat)
    ensures
        len == 0 ==> kind_of(len) == MaterializationKind::Empty && target_render(len) == (TrackRender {
            has_line: false,
            has_node: false,
        }),
        len == 1 ==> kind_of(len) == MaterializationKind::Node && target_render(len) == (TrackRender {
            has_line: false,
            has_node: true,
        }),
        len >= 2 ==> kind_of(len) == MaterializationKind::Line && target_render(len) == (TrackRender {
            has_line: true,
            has_node: false,
        }),
{
}

/// Law: exactly the track's color, width and visibility writes make it be
/// read again for a redraw.
pub proof fn law_style_keys_trigger_reread(key: Seq<char>)
    ensures
        is_track_style_key("gis.track.color"@),
        is_track_style_key("gis.track.width"@),
        is_track_style_key("gis.track.visible"@),
        is_track_style_key(key) ==> key == "gis.track.color"@ || key == "gis.track.width"@ || key
            == "gis.track.visible"@,
{
}

} // verus!
