//! Path-editor round trips with the database.
//!
//! Edits to a track's point list that need the current list (append,
//! remove, move, re-handle, re-corner, annotate, export) either act at once
//! on the authoritative in-flight copy of the list, when one exists, or are
//! queued behind a properties read of the track. Only the first append of a
//! burst asks for that (seed) read; later appends queue behind it, so two
//! overlapping reads can never both start from the same stale list and lose
//! an append. When a read's reply arrives, the first queued edit is applied
//! to the list, and every append queued behind it is applied too, up to the
//! first queued removal (the one edit that shifts indices; its own reply
//! resumes the drain).
//!
//! Creating a track is confirmed only when all three of its identity
//! properties have been written back; annotating a point creates a waypoint
//! node matched by `(petal, title)`.
//!
//! Points are an opaque type `Pt`; the in-place edits (`E`) are applied by
//! the caller's [`PointEdit`] implementation, so this module claims nothing
//! about an edited point beyond which point it is.

use vstd::prelude::*;
use vstd::hash_set::StringHashSet;

use crate::db_routing::{json_write, str_write, string_write, PropValue};
use crate::decimal::{decimal, u64_to_decimal, usize_to_decimal};
use crate::hierarchy::{
    first_petal, first_petal_slot, lemma_first_petal_unique, petal_at, petal_in_slot, tree_has_petal, Slot, VerseManager,
};
use crate::strmap::{PairFifo, StrMap};
use crate::text::{push_str, starts_with, to_owned_string};

verus! {

/// An in-place edit of one point (move, new handles, new corner kind).
pub trait PointEdit<Pt> {
    fn apply_to(&self, point: &mut Pt);
}

/// An edit waiting for the track's point list.
pub enum PathRead<Pt, E> {
    /// Append this point (already converted from the editor's input).
    Append { point: Pt },
    /// Remove the point at `index`.
    RemovePoint { index: usize },
    /// Edit the point at `index` in place.
    Edit { index: usize, edit: E },
    /// Create a waypoint node at the point at `index`.
    Annotate { index: usize, title: String, body: String, color: String },
    /// Write the list to a GPX file at `save_path`.
    Export { save_path: String },
}

// ---------------------------------------------------------------------------
// Draining queued appends
// ---------------------------------------------------------------------------

/// Splits a queue into the appends applied now (in order) and the entries
/// kept (in order): an append is applied unless a removal came before it.
/// The third component says whether a removal was met.
pub open spec fn drain_split<Pt, E>(s: Seq<PathRead<Pt, E>>) -> (Seq<Pt>, Seq<PathRead<Pt, E>>, bool)
    decreases s.len(),
{
    if s.len() == 0 {
        (Seq::empty(), Seq::empty(), false)
    } else {
        let prev = drain_split(s.drop_last());
        let x = s.last();
        match x {
            PathRead::Append { point } => if !prev.2 {
                (prev.0.push(point), prev.1, prev.2)
            } else {
                (prev.0, prev.1.push(x), prev.2)
            },
            PathRead::RemovePoint { .. } => (prev.0, prev.1.push(x), true),
            _ => (prev.0, prev.1.push(x), prev.2),
        }
    }
}

/// Applies the queued appends of `queue` to `points` in queue order, passing
/// over in-place entries but stopping at the first removal; everything not
/// applied stays queued, in order. Returns how many appends were applied.
pub fn drain_queued_appends<Pt, E>(queue: &mut Vec<PathRead<Pt, E>>, points: &mut Vec<Pt>) -> (r: usize)
    ensures
        final(points)@ == old(points)@ + drain_split(old(queue)@).0,
        final(queue)@ == drain_split(old(queue)@).1,
        r == drain_split(old(queue)@).0.len(),
{
    let ghost all = queue@;
    let ghost p0 = points@;
    let mut rest: Vec<PathRead<Pt, E>> = Vec::new();
    std::mem::swap(&mut rest, queue);
    let mut kept: Vec<PathRead<Pt, E>> = Vec::new();
    let mut applied: usize = 0;
    let mut barrier = false;
    let n: usize = rest.len();
    let mut i: usize = 0;
    while i < n
        invariant
            n == all.len(),
            i <= n,
            rest@ == all.skip(i as int),
            points@ == p0 + drain_split(all.take(i as int)).0,
            kept@ == drain_split(all.take(i as int)).1,
            barrier == drain_split(all.take(i as int)).2,
            applied == drain_split(all.take(i as int)).0.len(),
            applied <= i,
        decreases n - i,
    {
        let read = rest.remove(0);
        proof {
            assert(read == all[i as int]);
            assert(all.take(i + 1).drop_last() =~= all.take(i as int));
            assert(all.take(i + 1).last() == all[i as int]);
            assert(rest@ =~= all.skip(i + 1));
        }
        match read {
            PathRead::Append { point } => {
                if !barrier {
                    points.push(point);
                    applied = applied + 1;
                } else {
                    kept.push(PathRead::Append { point });
                }
            },
            PathRead::RemovePoint { index } => {
                kept.push(PathRead::RemovePoint { index });
                barrier = true;
            },
            other => {
                kept.push(other);
            },
        }
        proof {
            assert(points@ =~= p0 + drain_split(all.take(i + 1)).0);
        }
        i = i + 1;
    }
    proof {
        assert(all.take(n as int) =~= all);
    }
    *queue = kept;
    applied
}

/// Law: draining is idempotent — what stays queued holds no append that a
/// second drain would apply, and a second drain keeps it as it is.
pub proof fn law_drain_idempotent<Pt, E>(s: Seq<PathRead<Pt, E>>)
    ensures
        drain_split(drain_split(s).1).0.len() == 0,
        drain_split(drain_split(s).1).1 == drain_split(s).1,
        drain_split(drain_split(s).1).2 == drain_split(s).2,
    decreases s.len(),
{
    if s.len() > 0 {
        law_drain_idempotent(s.drop_last());
        let prev = drain_split(s.drop_last());
        let x = s.last();
        let k = drain_split(s).1;
        if k.len() > prev.1.len() {
            assert(k == prev.1.push(x));
            assert(k.drop_last() =~= prev.1);
        } else {
            assert(k == prev.1);
        }
    }
}

/// Law: no entry is lost or duplicated — the applied appends plus the kept
/// entries are as many as the queue held.
pub proof fn law_drain_conserves<Pt, E>(s: Seq<PathRead<Pt, E>>)
    ensures
        drain_split(s).0.len() + drain_split(s).1.len() == s.len(),
    decreases s.len(),
{
    if s.len() > 0 {
        law_drain_conserves(s.drop_last());
    }
}

// ---------------------------------------------------------------------------
// Correlation ids
// ---------------------------------------------------------------------------

/// `authored-track:{n}`: the correlation id of the `n`-th authored track
/// create of this process (the caller keeps the counter).
pub fn authored_track_correlation_id(n: u64) -> (r: String)
    ensures
        r@ == "authored-track:"@ + decimal(n as nat),
{
    let mut r = to_owned_string("authored-track:");
    let digits = u64_to_decimal(n);
    push_str(&mut r, digits.as_str());
    r
}

// ---------------------------------------------------------------------------
// The pending-edit state
// ---------------------------------------------------------------------------

/// What an annotate create carries once its waypoint node exists.
#[derive(Debug, Clone)]
pub struct PendingAnnotateCreate {
    pub title: String,
    pub body: String,
    pub color: String,
}

/// The identity properties a created track must have written back.
pub open spec fn track_confirm_keys() -> Set<Seq<char>> {
    set!["gpx_type"@, "gpx_points"@, "gis.track.name"@]
}

/// In-flight path-editor round trips.
pub struct PendingPathEdits<Pt, E> {
    reads: StrMap<Vec<PathRead<Pt, E>>>,
    creates: StringHashSet,
    annotate_creates: PairFifo<PendingAnnotateCreate>,
    track_property_confirms: StrMap<StringHashSet>,
    in_flight_points: StrMap<Vec<Pt>>,
    seed_pending: StringHashSet,
}

/// What became of an append.
#[derive(Debug, Clone, Copy, PartialEq, Eq, Structural)]
pub enum AppendOutcome {
    /// Applied to the in-flight list; persist and render it.
    Buffered,
    /// Queued behind a read; `send_read` says whether the read must be sent.
    Queued { send_read: bool },
}

/// What became of a removal or an in-place edit.
#[derive(Debug, Clone, Copy, PartialEq, Eq, Structural)]
pub enum EditOutcome {
    /// Applied to the in-flight list; persist and render it.
    Applied,
    /// The index was past the end of the in-flight list; nothing changed.
    OutOfRange,
    /// Queued behind a read, which must be sent.
    Queued,
}

/// What a `NodeCreated` result means to the path editor.
#[derive(Debug, Clone)]
pub enum CreatedOutcome {
    /// An authored track exists: send `writes` (its three identity
    /// properties) and wait for their confirms.
    TrackCreated { writes: Vec<(String, PropValue)> },
    /// A waypoint for an annotate exists: send `writes` (its type and
    /// annotation properties).
    Annotated { create: PendingAnnotateCreate, writes: Vec<(String, PropValue)> },
    /// Not for the path editor.
    Ignored,
}

/// The writes that give a created track its identity: type `track`, an
/// empty point list and its name.
pub open spec fn track_identity_writes(w: Seq<(String, PropValue)>, name: Seq<char>) -> bool {
    &&& w.len() == 3
    &&& str_write(w[0], "gpx_type"@, "track"@)
    &&& json_write(w[1], "gpx_points"@, "[]"@)
    &&& str_write(w[2], "gis.track.name"@, name)
}

/// The writes that make an annotate's node a waypoint carrying the note:
/// type `waypoint`, then title, body and color.
pub open spec fn annotation_writes(w: Seq<(String, PropValue)>, a: PendingAnnotateCreate) -> bool {
    &&& w.len() == 4
    &&& str_write(w[0], "gpx_type"@, "waypoint"@)
    &&& str_write(w[1], "gis.annotation.title"@, a.title@)
    &&& str_write(w[2], "gis.annotation.body"@, a.body@)
    &&& str_write(w[3], "gis.annotation.color"@, a.color@)
}

/// What a properties reply did.
pub enum ReplyOutcome<Pt, E> {
    /// No edit was waiting for this node.
    Nothing,
    /// An append (and the appends queued behind it) was applied.
    Appended,
    /// A removal; `in_range` says whether the index existed.
    Removed { index: usize, in_range: bool },
    /// An in-place edit; `applied` says whether the index existed.
    Edited { index: usize, edit: E, applied: bool },
    /// An annotate: `anchor` is a copy of the point at `index`, if any.
    Annotate { index: usize, anchor: Option<Pt>, title: String, body: String, color: String },
    /// An export of `points` (the list before the drain) to `save_path`.
    Export { save_path: String, points: Vec<Pt> },
}

/// A properties reply's outcome, plus whether the (updated) in-flight list
/// must now be persisted and rendered.
pub struct Reply<Pt, E> {
    pub outcome: ReplyOutcome<Pt, E>,
    pub persist: bool,
}

/// `after` is `before` with `read` queued last for track `t` (behind the
/// edits already queued for it, or alone when none were), every other
/// track's queue untouched.
pub open spec fn queued_behind<Pt, E>(
    before: Map<Seq<char>, Vec<PathRead<Pt, E>>>,
    after: Map<Seq<char>, Vec<PathRead<Pt, E>>>,
    t: Seq<char>,
    read: PathRead<Pt, E>,
) -> bool {
    &&& after.contains_key(t)
    &&& after[t]@ == (if before.contains_key(t) { before[t]@ } else { Seq::empty() }).push(read)
    &&& forall|k: Seq<char>| k != t ==> (#[trigger] after.contains_key(k) == before.contains_key(k)) && (
    before.contains_key(k) ==> after[k] == before[k])
}

impl<Pt, E> PendingPathEdits<Pt, E> {
    /// The maps hold each key once.
    pub closed spec fn wf(&self) -> bool {
        &&& self.reads.wf()
        &&& self.annotate_creates.wf()
        &&& self.track_property_confirms.wf()
        &&& self.in_flight_points.wf()
    }

    /// Queued edits per track.
    pub closed spec fn queued(&self) -> Map<Seq<char>, Vec<PathRead<Pt, E>>> {
        self.reads@
    }

    /// Authored-create correlation ids awaiting `NodeCreated`.
    pub closed spec fn creates_view(&self) -> Set<Seq<char>> {
        self.creates@
    }

    /// Unconfirmed identity properties per just-created track.
    pub closed spec fn confirms(&self) -> Map<Seq<char>, StringHashSet> {
        self.track_property_confirms@
    }

    /// Authoritative point lists per track.
    pub closed spec fn in_flight(&self) -> Map<Seq<char>, Vec<Pt>> {
        self.in_flight_points@
    }

    /// Tracks whose seed read is outstanding.
    pub closed spec fn seeds(&self) -> Set<Seq<char>> {
        self.seed_pending@
    }

    /// Annotate creates awaiting their waypoint, per petal and title.
    pub closed spec fn annotates(&self, petal: Seq<char>, title: Seq<char>) -> Seq<PendingAnnotateCreate> {
        self.annotate_creates.queue(petal, title)
    }

    pub fn new() -> (r: Self)
        ensures
            r.wf(),
            r.queued() == Map::<Seq<char>, Vec<PathRead<Pt, E>>>::empty(),
            r.creates_view() == Set::<Seq<char>>::empty(),
            r.confirms() == Map::<Seq<char>, StringHashSet>::empty(),
            r.in_flight() == Map::<Seq<char>, Vec<Pt>>::empty(),
            r.seeds() == Set::<Seq<char>>::empty(),
    {
        PendingPathEdits {
            reads: StrMap::new(),
            creates: StringHashSet::new(),
            annotate_creates: PairFifo::new(),
            track_property_confirms: StrMap::new(),
            in_flight_points: StrMap::new(),
            seed_pending: StringHashSet::new(),
        }
    }

    /// The in-flight list of a track, if it has one.
    pub fn in_flight_points(&self, track_id: &str) -> (r: Option<&Vec<Pt>>)
        requires
            self.wf(),
        ensures
            r matches Some(v) ==> self.in_flight().contains_key(track_id@) && *v == self.in_flight()[track_id@],
            r is None ==> !self.in_flight().contains_key(track_id@),
    {
        self.in_flight_points.get(track_id)
    }

    /// Whether a track's seed read is outstanding.
    pub fn seed_pending(&self, track_id: &str) -> (r: bool)
        ensures
            r == self.seeds().contains(track_id@),
    {
        self.seed_pending.contains(track_id)
    }

    /// The edits queued for a track (empty when none).
    pub fn queued_for(&self, track_id: &str) -> (r: usize)
        requires
            self.wf(),
        ensures
            self.queued().contains_key(track_id@) ==> r == self.queued()[track_id@]@.len(),
            !self.queued().contains_key(track_id@) ==> r == 0,
    {
        match self.reads.get(track_id) {
            Some(q) => q.len(),
            None => 0,
        }
    }

    fn enqueue(&mut self, track_id: &str, read: PathRead<Pt, E>)
        requires
            old(self).wf(),
        ensures
            final(self).wf(),
            queued_behind(old(self).queued(), final(self).queued(), track_id@, read),
            final(self).creates_view() == old(self).creates_view(),
            final(self).confirms() == old(self).confirms(),
            final(self).in_flight() == old(self).in_flight(),
            final(self).seeds() == old(self).seeds(),
            forall|p: Seq<char>, t: Seq<char>| #[trigger] final(self).annotates(p, t) == old(self).annotates(p, t),
    {
        let mut q = match self.reads.remove(track_id) {
            Some(q) => q,
            None => Vec::new(),
        };
        q.push(read);
        self.reads.insert(to_owned_string(track_id), q);
    }

    /// `CreateTrack`: remember the create's correlation id (the caller sends
    /// the `CreateNode` carrying it).
    pub fn create_track(&mut self, correlation_id: &str)
        requires
            old(self).wf(),
        ensures
            final(self).wf(),
            final(self).creates_view() == old(self).creates_view().insert(correlation_id@),
            final(self).queued() == old(self).queued(),
            final(self).confirms() == old(self).confirms(),
            final(self).in_flight() == old(self).in_flight(),
            final(self).seeds() == old(self).seeds(),
    {
        self.creates.insert(to_owned_string(correlation_id));
    }

    /// `DeleteTrack`: forget the track's in-flight list and outstanding seed
    /// (the caller sends the delete and tears the render down).
    pub fn delete_track(&mut self, track_id: &str)
        requires
            old(self).wf(),
        ensures
            final(self).wf(),
            final(self).in_flight() == old(self).in_flight().remove(track_id@),
            final(self).seeds() == old(self).seeds().remove(track_id@),
            final(self).queued() == old(self).queued(),
            final(self).creates_view() == old(self).creates_view(),
            final(self).confirms() == old(self).confirms(),
    {
        self.in_flight_points.remove(track_id);
        self.seed_pending.remove(track_id);
    }

    /// Forgets every in-flight list and outstanding seed read, so the next
    /// append of any track seeds afresh from the database.
    pub fn forget_in_flight(&mut self)
        requires
            old(self).wf(),
        ensures
            final(self).wf(),
            final(self).in_flight() == Map::<Seq<char>, Vec<Pt>>::empty(),
            final(self).seeds() == Set::<Seq<char>>::empty(),
            final(self).queued() == old(self).queued(),
            final(self).creates_view() == old(self).creates_view(),
            final(self).confirms() == old(self).confirms(),
    {
        self.in_flight_points.clear();
        self.seed_pending.clear();
    }

    /// `AppendPoint`/`AppendSmoothPoint`: applied to the in-flight list when
    /// there is one; otherwise queued, and a seed read is asked for only when
    /// none is outstanding.
    pub fn append_point(&mut self, track_id: &str, point: Pt) -> (r: AppendOutcome)
        requires
            old(self).wf(),
        ensures
            final(self).wf(),
            old(self).in_flight().contains_key(track_id@) ==> {
                &&& r == AppendOutcome::Buffered
                &&& final(self).in_flight() == old(self).in_flight().insert(
                    track_id@,
                    final(self).in_flight()[track_id@],
                )
                &&& final(self).in_flight()[track_id@]@ == old(self).in_flight()[track_id@]@.push(point)
                &&& final(self).queued() == old(self).queued()
                &&& final(self).seeds() == old(self).seeds()
            },
            !old(self).in_flight().contains_key(track_id@) ==> {
                &&& r == AppendOutcome::Queued { send_read: !old(self).seeds().contains(track_id@) }
                &&& final(self).seeds() == old(self).seeds().insert(track_id@)
                &&& final(self).in_flight() == old(self).in_flight()
                &&& queued_behind(old(self).queued(), final(self).queued(), track_id@, PathRead::<Pt, E>::Append { point })
            },
            final(self).creates_view() == old(self).creates_view(),
            final(self).confirms() == old(self).confirms(),
    {
        match self.in_flight_points.remove(track_id) {
            Some(mut pts) => {
                pts.push(point);
                self.in_flight_points.insert(to_owned_string(track_id), pts);
                AppendOutcome::Buffered
            },
            None => {
                let send_read = self.seed_pending.insert(to_owned_string(track_id));
                self.enqueue(track_id, PathRead::Append { point });
                AppendOutcome::Queued { send_read }
            },
        }
    }

    /// `RemovePoint`: applied to the in-flight list when there is one (an
    /// index past its end changes nothing); otherwise queued behind a read.
    pub fn remove_point(&mut self, track_id: &str, index: usize) -> (r: EditOutcome)
        requires
            old(self).wf(),
        ensures
            final(self).wf(),
            old(self).in_flight().contains_key(track_id@) && index < old(self).in_flight()[track_id@]@.len() ==> {
                &&& r == EditOutcome::Applied
                &&& final(self).in_flight()[track_id@]@ == old(self).in_flight()[track_id@]@.remove(index as int)
            },
            old(self).in_flight().contains_key(track_id@) && index >= old(self).in_flight()[track_id@]@.len() ==> {
                &&& r == EditOutcome::OutOfRange
                &&& final(self).in_flight()[track_id@]@ == old(self).in_flight()[track_id@]@
            },
            old(self).in_flight().contains_key(track_id@) ==> final(self).in_flight().dom() == old(self).in_flight().dom()
                && final(self).queued() == old(self).queued(),
            !old(self).in_flight().contains_key(track_id@) ==> {
                &&& r == EditOutcome::Queued
                &&& final(self).in_flight() == old(self).in_flight()
                &&& queued_behind(old(self).queued(), final(self).queued(), track_id@, PathRead::<Pt, E>::RemovePoint { index })
            },
            final(self).seeds() == old(self).seeds(),
            final(self).creates_view() == old(self).creates_view(),
            final(self).confirms() == old(self).confirms(),
    {
        match self.in_flight_points.remove(track_id) {
            Some(mut pts) => {
                let r = if index < pts.len() {
                    pts.remove(index);
                    EditOutcome::Applied
                } else {
                    EditOutcome::OutOfRange
                };
                self.in_flight_points.insert(to_owned_string(track_id), pts);
                proof {
                    assert(self.in_flight().dom() =~= old(self).in_flight().dom());
                }
                r
            },
            None => {
                self.enqueue(track_id, PathRead::RemovePoint { index });
                EditOutcome::Queued
            },
        }
    }

    /// `MovePoint`/`SetAnchorHandles`/`SetAnchorCorner`: applied in place to
    /// the in-flight list when there is one (an index past its end changes
    /// nothing); otherwise queued behind a read.
    pub fn edit_point(&mut self, track_id: &str, index: usize, edit: E) -> (r: EditOutcome) where E: PointEdit<Pt>
        requires
            old(self).wf(),
        ensures
            final(self).wf(),
            old(self).in_flight().contains_key(track_id@) && index < old(self).in_flight()[track_id@]@.len() ==> {
                &&& r == EditOutcome::Applied
                &&& final(self).in_flight()[track_id@]@.len() == old(self).in_flight()[track_id@]@.len()
                &&& forall|j: int| 0 <= j < old(self).in_flight()[track_id@]@.len() && j != index
                    ==> #[trigger] final(self).in_flight()[track_id@]@[j] == old(self).in_flight()[track_id@]@[j]
            },
            old(self).in_flight().contains_key(track_id@) && index >= old(self).in_flight()[track_id@]@.len() ==> {
                &&& r == EditOutcome::OutOfRange
                &&& final(self).in_flight()[track_id@]@ == old(self).in_flight()[track_id@]@
            },
            old(self).in_flight().contains_key(track_id@) ==> final(self).in_flight().dom() == old(self).in_flight().dom()
                && final(self).queued() == old(self).queued(),
            !old(self).in_flight().contains_key(track_id@) ==> {
                &&& r == EditOutcome::Queued
                &&& final(self).in_flight() == old(self).in_flight()
                &&& queued_behind(old(self).queued(), final(self).queued(), track_id@, PathRead::<Pt, E>::Edit { index, edit })
            },
            final(self).seeds() == old(self).seeds(),
            final(self).creates_view() == old(self).creates_view(),
            final(self).confirms() == old(self).confirms(),
    {
        match self.in_flight_points.remove(track_id) {
            Some(mut pts) => {
                let ghost before = pts@;
                let r = if index < pts.len() {
                    let mut p = pts.remove(index);
                    edit.apply_to(&mut p);
                    pts.insert(index, p);
                    proof {
                        assert forall|j: int| 0 <= j < before.len() && j != index implies #[trigger] pts@[j] == before[j] by {
                            if j < index {
                            } else {
                            }
                        }
                    }
                    EditOutcome::Applied
                } else {
                    EditOutcome::OutOfRange
                };
                self.in_flight_points.insert(to_owned_string(track_id), pts);
                proof {
                    assert(self.in_flight().dom() =~= old(self).in_flight().dom());
                }
                r
            },
            None => {
                self.enqueue(track_id, PathRead::Edit { index, edit });
                EditOutcome::Queued
            },
        }
    }

    /// `AnnotatePoint`: always queued behind a read of the track.
    pub fn annotate_point(&mut self, track_id: &str, index: usize, title: String, body: String, color: String)
        requires
            old(self).wf(),
        ensures
            final(self).wf(),
            queued_behind(
                old(self).queued(),
                final(self).queued(),
                track_id@,
                PathRead::<Pt, E>::Annotate { index, title, body, color },
            ),
            final(self).in_flight() == old(self).in_flight(),
            final(self).seeds() == old(self).seeds(),
            final(self).creates_view() == old(self).creates_view(),
            final(self).confirms() == old(self).confirms(),
    {
        self.enqueue(track_id, PathRead::Annotate { index, title, body, color });
    }

    /// `ExportGpx` (once a save path was chosen): always queued behind a read.
    pub fn export_gpx(&mut self, track_id: &str, save_path: String)
        requires
            old(self).wf(),
        ensures
            final(self).wf(),
            queued_behind(old(self).queued(), final(self).queued(), track_id@, PathRead::<Pt, E>::Export { save_path }),
            final(self).in_flight() == old(self).in_flight(),
            final(self).seeds() == old(self).seeds(),
            final(self).creates_view() == old(self).creates_view(),
            final(self).confirms() == old(self).confirms(),
    {
        self.enqueue(track_id, PathRead::Export { save_path });
    }

    /// Awaits the waypoint node of an annotate, matched by `(petal, title)`.
    pub fn await_annotate(&mut self, petal_id: &str, title: &str, create: PendingAnnotateCreate)
        requires
            old(self).wf(),
        ensures
            final(self).wf(),
            final(self).annotates(petal_id@, title@) == old(self).annotates(petal_id@, title@).push(create),
            forall|p: Seq<char>, t: Seq<char>| (p, t) != (petal_id@, title@) ==> #[trigger] final(self).annotates(p, t) == old(self).annotates(p, t),
            final(self).queued() == old(self).queued(),
            final(self).in_flight() == old(self).in_flight(),
            final(self).seeds() == old(self).seeds(),
            final(self).creates_view() == old(self).creates_view(),
            final(self).confirms() == old(self).confirms(),
    {
        self.annotate_creates.push(petal_id, title, create);
    }

    /// A `NodeCreated` result. With a correlation id it is the authored
    /// track create waiting under that id (its three identity properties now
    /// await confirmation), or nothing for the path editor. Without one, it
    /// is the oldest annotate waiting on `(petal, name)`, if any.
    pub fn node_created(&mut self, id: &str, petal_id: &str, name: &str, correlation_id: Option<&str>) -> (r: CreatedOutcome)
        requires
            old(self).wf(),
        ensures
            final(self).wf(),
            correlation_id matches Some(c) ==> {
                &&& old(self).creates_view().contains(c@) ==> (r matches CreatedOutcome::TrackCreated { writes }
                    && track_identity_writes(writes@, name@))
                    && final(self).creates_view() == old(self).creates_view().remove(c@)
                    && final(self).confirms().contains_key(id@)
                    && final(self).confirms()[id@]@ == track_confirm_keys()
                &&& !old(self).creates_view().contains(c@) ==> r is Ignored && final(self).creates_view() == old(self).creates_view()
                    && final(self).confirms() == old(self).confirms()
            },
            correlation_id is None ==> {
                &&& old(self).annotates(petal_id@, name@).len() > 0 ==> (r matches CreatedOutcome::Annotated { create: a, writes }
                    && a == old(self).annotates(petal_id@, name@)[0] && annotation_writes(writes@, a)
                    && final(self).annotates(petal_id@, name@) == old(self).annotates(petal_id@, name@).skip(1))
                &&& old(self).annotates(petal_id@, name@).len() == 0 ==> r is Ignored
                &&& forall|p: Seq<char>, t: Seq<char>| (p, t) != (petal_id@, name@) ==> #[trigger] final(self).annotates(p, t) == old(self).annotates(p, t)
                &&& final(self).creates_view() == old(self).creates_view()
                &&& final(self).confirms() == old(self).confirms()
            },
            final(self).queued() == old(self).queued(),
            final(self).in_flight() == old(self).in_flight(),
            final(self).seeds() == old(self).seeds(),
    {
        match correlation_id {
            Some(cid) => {
                if !self.creates.remove(cid) {
                    return CreatedOutcome::Ignored;
                }
                let mut keys = StringHashSet::new();
                keys.insert(to_owned_string("gpx_type"));
                keys.insert(to_owned_string("gpx_points"));
                keys.insert(to_owned_string("gis.track.name"));
                proof {
                    assert(keys@ =~= track_confirm_keys());
                }
                self.track_property_confirms.insert(to_owned_string(id), keys);
                let mut writes: Vec<(String, PropValue)> = Vec::new();
                writes.push(string_write("gpx_type", "track"));
                writes.push((to_owned_string("gpx_points"), PropValue::Json(to_owned_string("[]"))));
                writes.push(string_write("gis.track.name", name));
                CreatedOutcome::TrackCreated { writes }
            },
            None => {
                match self.annotate_creates.pop_front(petal_id, name) {
                    Some(a) => {
                        let mut writes: Vec<(String, PropValue)> = Vec::new();
                        writes.push(string_write("gpx_type", "waypoint"));
                        writes.push(string_write("gis.annotation.title", a.title.as_str()));
                        writes.push(string_write("gis.annotation.body", a.body.as_str()));
                        writes.push(string_write("gis.annotation.color", a.color.as_str()));
                        CreatedOutcome::Annotated { create: a, writes }
                    },
                    None => CreatedOutcome::Ignored,
                }
            },
        }
    }

    /// A `NodePropertySet` confirm for `node_id`'s property `key`: `true`
    /// exactly when it was the last identity property a just-created track
    /// awaited (the create is then reported as done).
    pub fn property_set(&mut self, node_id: &str, key: &str) -> (r: bool)
        requires
            old(self).wf(),
        ensures
            final(self).wf(),
            !old(self).confirms().contains_key(node_id@) ==> !r && final(self).confirms() == old(self).confirms(),
            old(self).confirms().contains_key(node_id@) ==> {
                let left = old(self).confirms()[node_id@]@.remove(key@);
                &&& r == left.is_empty()
                &&& r ==> final(self).confirms() == old(self).confirms().remove(node_id@)
                &&& !r ==> final(self).confirms().contains_key(node_id@) && final(self).confirms()[node_id@]@ == left
                    && final(self).confirms().dom() == old(self).confirms().dom()
            },
            final(self).queued() == old(self).queued(),
            final(self).in_flight() == old(self).in_flight(),
            final(self).seeds() == old(self).seeds(),
            final(self).creates_view() == old(self).creates_view(),
    {
        match self.track_property_confirms.remove(node_id) {
            Some(mut keys) => {
                keys.remove(key);
                if keys.is_empty() {
                    true
                } else {
                    self.track_property_confirms.insert(to_owned_string(node_id), keys);
                    proof {
                        assert(self.confirms().dom() =~= old(self).confirms().dom());
                    }
                    false
                }
            },
            None => {
                proof {
                    assert(self.confirms() =~= old(self).confirms());
                }
                false
            },
        }
    }

    /// A database error. A failed property write is charged to some track
    /// still awaiting its identity confirms (the error names no node), which
    /// stops waiting; its id is returned for the error status.
    pub fn property_write_failed(&mut self, msg: &str) -> (r: Option<String>)
        requires
            old(self).wf(),
        ensures
            final(self).wf(),
            !is_property_write_failure(msg@) ==> r is None && final(self).confirms() == old(self).confirms(),
            is_property_write_failure(msg@) && old(self).confirms().dom() == Set::<Seq<char>>::empty() ==> r is None,
            r matches Some(n) ==> old(self).confirms().contains_key(n@) && final(self).confirms() == old(self).confirms().remove(n@),
            r is None ==> final(self).confirms() == old(self).confirms(),
            is_property_write_failure(msg@) && old(self).confirms().dom() != Set::<Seq<char>>::empty() ==> r is Some,
            final(self).queued() == old(self).queued(),
            final(self).in_flight() == old(self).in_flight(),
            final(self).seeds() == old(self).seeds(),
            final(self).creates_view() == old(self).creates_view(),
    {
        proof {
            reveal_strlit("Set node property failed");
        }
        if !starts_with(msg, "Set node property failed") {
            return None;
        }
        let pairs = self.track_property_confirms.as_pairs();
        proof {
            self.track_property_confirms.lemma_pairs();
            if pairs@.len() == 0 {
                assert(self.confirms().dom() =~= Set::<Seq<char>>::empty());
            } else {
                assert(crate::strmap::has_key(pairs@, pairs@[0].0@));
                assert(self.confirms().dom().contains(pairs@[0].0@));
            }
        }
        if pairs.len() == 0 {
            return None;
        }
        let first = to_owned_string(pairs[0].0.as_str());
        self.track_property_confirms.remove(first.as_str());
        Some(first)
    }

    /// A properties reply for `node_id` (`db_points`: the track's points as
    /// stored, empty when it has none). The oldest edit queued for the node
    /// is applied — to the in-flight list when there is one, else to the
    /// stored points — then every append queued behind it up to the first
    /// queued removal. The node's seed read is no longer outstanding; its
    /// queue is dropped once empty; the updated list becomes the in-flight
    /// list whenever it changed (`persist`).
    pub fn properties_loaded(&mut self, node_id: &str, db_points: Vec<Pt>) -> (r: Reply<Pt, E>) where E: PointEdit<Pt>, Pt: Clone
        requires
            old(self).wf(),
        ensures
            final(self).wf(),
            final(self).creates_view() == old(self).creates_view(),
            final(self).confirms() == old(self).confirms(),
            !reply_waiting(*old(self), node_id@) ==> {
                &&& r.outcome is Nothing
                &&& !r.persist
                &&& final(self).queued() == old(self).queued()
                &&& final(self).in_flight() == old(self).in_flight()
                &&& final(self).seeds() == old(self).seeds()
            },
            reply_waiting(*old(self), node_id@) ==> {
                let q = old(self).queued()[node_id@]@;
                let sp = drain_split(q.skip(1));
                let base = reply_base(*old(self), node_id@, db_points@);
                &&& final(self).seeds() == old(self).seeds().remove(node_id@)
                &&& final(self).queued().remove(node_id@) == old(self).queued().remove(node_id@)
                &&& sp.1.len() > 0 ==> final(self).queued().contains_key(node_id@) && final(self).queued()[node_id@]@ == sp.1
                &&& sp.1.len() == 0 ==> !final(self).queued().contains_key(node_id@)
                &&& final(self).in_flight().remove(node_id@) == old(self).in_flight().remove(node_id@)
                &&& r.persist ==> final(self).in_flight().contains_key(node_id@)
                &&& !r.persist ==> final(self).in_flight().dom() == old(self).in_flight().dom()
                    && (old(self).in_flight().contains_key(node_id@) ==> final(self).in_flight()[node_id@]@ == old(self).in_flight()[node_id@]@)
                &&& q[0] matches PathRead::Append { point } ==> {
                    &&& r.outcome is Appended
                    &&& r.persist
                    &&& final(self).in_flight()[node_id@]@ == base.push(point) + sp.0
                }
                &&& q[0] matches PathRead::RemovePoint { index } ==> {
                    &&& r.outcome matches ReplyOutcome::Removed { index: i, in_range } && i == index && in_range == (index < base.len())
                    &&& r.persist == (index < base.len() || sp.0.len() > 0)
                    &&& r.persist ==> final(self).in_flight()[node_id@]@ == (if index < base.len() { base.remove(index as int) } else { base }) + sp.0
                }
                &&& q[0] matches PathRead::Edit { index, edit: _ } ==> {
                    &&& r.outcome matches ReplyOutcome::Edited { index: i, edit: _, applied } && i == index && applied == (index < base.len())
                    &&& r.persist == (index < base.len() || sp.0.len() > 0)
                    &&& r.persist ==> {
                        let np = final(self).in_flight()[node_id@]@;
                        &&& np.len() == base.len() + sp.0.len()
                        &&& forall|j: int| 0 <= j < base.len() && j != index ==> #[trigger] np[j] == base[j]
                        &&& forall|j: int| 0 <= j < sp.0.len() ==> #[trigger] np[base.len() + j] == sp.0[j]
                    }
                }
                &&& q[0] matches PathRead::Annotate { index, title, body, color } ==> {
                    &&& r.outcome matches ReplyOutcome::Annotate { index: i, anchor, title: t, body: b, color: c }
                        && i == index && t == title && b == body && c == color
                        && (index < base.len() ==> (anchor matches Some(a) && cloned(base[index as int], a)))
                        && (index >= base.len() ==> anchor is None)
                    &&& r.persist == (sp.0.len() > 0)
                    &&& r.persist ==> final(self).in_flight()[node_id@]@ == base + sp.0
                }
                &&& q[0] matches PathRead::Export { save_path } ==> {
                    &&& r.outcome matches ReplyOutcome::Export { save_path: sv, points } && sv == save_path
                        && points@.len() == base.len()
                        && forall|j: int| 0 <= j < base.len() ==> cloned(#[trigger] base[j], points@[j])
                    &&& r.persist == (sp.0.len() > 0)
                    &&& r.persist ==> final(self).in_flight()[node_id@]@ == base + sp.0
                }
            },
    {
        let mut q = match self.reads.remove(node_id) {
            Some(q) => q,
            None => {
                proof {
                    assert(self.queued() =~= old(self).queued());
                }
                return Reply { outcome: ReplyOutcome::Nothing, persist: false };
            },
        };
        if q.len() == 0 {
            self.reads.insert(to_owned_string(node_id), q);
            proof {
                assert(self.queued() =~= old(self).queued());
            }
            return Reply { outcome: ReplyOutcome::Nothing, persist: false };
        }
        let ghost q0 = q@;
        let first = q.remove(0);
        proof {
            assert(q@ =~= q0.skip(1));
        }
        self.seed_pending.remove(node_id);
        let ghost f0 = self.in_flight_points@;
        let (mut points, from_buffer) = match self.in_flight_points.remove(node_id) {
            Some(b) => (b, true),
            None => (db_points, false),
        };
        let ghost base = points@;
        let ghost rest = q@;
        let outcome: ReplyOutcome<Pt, E>;
        let persist: bool;
        match first {
            PathRead::Append { point } => {
                points.push(point);
                drain_queued_appends(&mut q, &mut points);
                outcome = ReplyOutcome::Appended;
                persist = true;
            },
            PathRead::RemovePoint { index } => {
                let in_range = index < points.len();
                if in_range {
                    points.remove(index);
                }
                let d = drain_queued_appends(&mut q, &mut points);
                outcome = ReplyOutcome::Removed { index, in_range };
                persist = in_range || d > 0;
            },
            PathRead::Edit { index, edit } => {
                let applied = index < points.len();
                if applied {
                    let mut p = points.remove(index);
                    edit.apply_to(&mut p);
                    points.insert(index, p);
                }
                let ghost mid = points@;
                let d = drain_queued_appends(&mut q, &mut points);
                proof {
                    assert forall|j: int| 0 <= j < base.len() && j != index implies #[trigger] points@[j] == base[j] by {
                        assert(points@[j] == mid[j]);
                    }
                    assert forall|j: int| 0 <= j < drain_split(rest).0.len() implies #[trigger] points@[base.len() + j] == drain_split(rest).0[j] by {
                    }
                }
                outcome = ReplyOutcome::Edited { index, edit, applied };
                persist = applied || d > 0;
            },
            PathRead::Annotate { index, title, body, color } => {
                let anchor = if index < points.len() {
                    Some(points[index].clone())
                } else {
                    None
                };
                let d = drain_queued_appends(&mut q, &mut points);
                outcome = ReplyOutcome::Annotate { index, anchor, title, body, color };
                persist = d > 0;
            },
            PathRead::Export { save_path } => {
                let snapshot = clone_points(&points);
                let d = drain_queued_appends(&mut q, &mut points);
                outcome = ReplyOutcome::Export { save_path, points: snapshot };
                persist = d > 0;
            },
        }
        if q.len() > 0 {
            self.reads.insert(to_owned_string(node_id), q);
        }
        if persist || from_buffer {
            self.in_flight_points.insert(to_owned_string(node_id), points);
        }
        proof {
            assert(self.queued().remove(node_id@) =~= old(self).queued().remove(node_id@));
            assert(self.in_flight().remove(node_id@) =~= old(self).in_flight().remove(node_id@));
            if !persist {
                assert(self.in_flight().dom() =~= old(self).in_flight().dom());
            }
        }
        Reply { outcome, persist }
    }
}

/// A properties reply finds an edit waiting for the node.
pub open spec fn reply_waiting<Pt, E>(s: PendingPathEdits<Pt, E>, n: Seq<char>) -> bool {
    s.queued().contains_key(n) && s.queued()[n]@.len() > 0
}

/// The list a reply's edit applies to: the in-flight list, else the stored one.
pub open spec fn reply_base<Pt, E>(s: PendingPathEdits<Pt, E>, n: Seq<char>, db: Seq<Pt>) -> Seq<Pt> {
    if s.in_flight().contains_key(n) {
        s.in_flight()[n]@
    } else {
        db
    }
}

/// A copy of each point.
fn clone_points<Pt: Clone>(points: &Vec<Pt>) -> (r: Vec<Pt>)
    ensures
        r@.len() == points@.len(),
        forall|j: int| 0 <= j < points@.len() ==> cloned(#[trigger] points@[j], r@[j]),
{
    let mut r: Vec<Pt> = Vec::new();
    let mut i: usize = 0;
    while i < points.len()
        invariant
            i <= points@.len(),
            r@.len() == i,
            forall|j: int| 0 <= j < i ==> cloned(#[trigger] points@[j], r@[j]),
        decreases points@.len() - i,
    {
        r.push(points[i].clone());
        i = i + 1;
    }
    r
}

/// A database error from a failed property write.
pub open spec fn is_property_write_failure(msg: Seq<char>) -> bool {
    msg.len() >= 24 && msg.subrange(0, 24) == "Set node property failed"@
}

/// Law: a created track is reported done exactly once, after its three
/// identity properties were all confirmed, in any order.
pub proof fn law_create_confirmed_after_all_three(a: Seq<char>, b: Seq<char>, c: Seq<char>)
    requires
        track_confirm_keys().contains(a),
        track_confirm_keys().contains(b),
        track_confirm_keys().contains(c),
        a != b,
        b != c,
        a != c,
    ensures
        !track_confirm_keys().remove(a).is_empty(),
        !track_confirm_keys().remove(a).remove(b).is_empty(),
        track_confirm_keys().remove(a).remove(b).remove(c).is_empty(),
{
    reveal_strlit("gpx_type");
    reveal_strlit("gpx_points");
    reveal_strlit("gis.track.name");
    assert("gpx_type"@.len() == 8);
    assert("gpx_points"@.len() == 10);
    assert("gis.track.name"@.len() == 14);
    assert(track_confirm_keys().remove(a).contains(b));
    assert(track_confirm_keys().remove(a).remove(b).contains(c));
    assert(track_confirm_keys().remove(a).remove(b).remove(c) =~= Set::<Seq<char>>::empty());
}

// ---------------------------------------------------------------------------
// The status line
// ---------------------------------------------------------------------------

/// The path editor's status line: the track it concerns, and a message or
/// an error.
#[derive(Debug, Clone)]
pub struct PathEditStatus {
    pub track_node_id: Option<String>,
    pub message: Option<String>,
    pub error: Option<String>,
}

/// Which in-place edit a status reports.
#[derive(Debug, Clone, Copy, PartialEq, Eq, Structural)]
pub enum EditKind {
    Move,
    Handles,
    Corner,
}

/// What happened to a track, as the status line reports it.
#[derive(Debug, Clone)]
pub enum PathEditEvent {
    TrackDeleted,
    TrackCreated,
    PointAdded,
    PointRemoved { index: usize, in_range: bool },
    PointEdited { kind: EditKind, index: usize, applied: bool },
    PointAnnotated,
    AnnotateOutOfRange { index: usize },
    NoActiveTerrain,
    Exported { path: String },
    ExportFailed { reason: String },
    PropertyWriteFailed { message: String },
}

/// `point index {index} out of range`.
pub open spec fn out_of_range_text(index: usize) -> Seq<char> {
    "point index "@ + decimal(index as nat) + " out of range"@
}

/// The message of a success, if the event is one.
pub open spec fn event_message(e: PathEditEvent) -> Option<Seq<char>> {
    match e {
        PathEditEvent::TrackDeleted => Some("Track deleted"@),
        PathEditEvent::TrackCreated => Some("Track created"@),
        PathEditEvent::PointAdded => Some("Point added"@),
        PathEditEvent::PointRemoved { index, in_range } => if in_range {
            Some("Point removed"@)
        } else {
            None
        },
        PathEditEvent::PointEdited { kind, index, applied } => if applied {
            Some(
                match kind {
                    EditKind::Move => "Point moved"@,
                    EditKind::Handles => "Handles set"@,
                    EditKind::Corner => "Corner set"@,
                },
            )
        } else {
            None
        },
        PathEditEvent::PointAnnotated => Some("Point annotated"@),
        PathEditEvent::Exported { path } => Some("Exported to "@ + path@),
        _ => None,
    }
}

/// The error of a failure, if the event is one.
pub open spec fn event_error(e: PathEditEvent) -> Option<Seq<char>> {
    match e {
        PathEditEvent::PointRemoved { index, in_range } => if in_range {
            None
        } else {
            Some(out_of_range_text(index))
        },
        PathEditEvent::PointEdited { kind, index, applied } => if applied {
            None
        } else {
            Some(out_of_range_text(index))
        },
        PathEditEvent::AnnotateOutOfRange { index } => Some(out_of_range_text(index)),
        PathEditEvent::NoActiveTerrain => Some("cannot annotate: no active petal terrain"@),
        PathEditEvent::ExportFailed { reason } => Some("write failed: "@ + reason@),
        PathEditEvent::PropertyWriteFailed { message } => Some(message@),
        _ => None,
    }
}

/// An optional text holds exactly `t`.
pub open spec fn opt_view(o: Option<String>, t: Option<Seq<char>>) -> bool {
    match (o, t) {
        (Some(s), Some(v)) => s@ == v,
        (None, None) => true,
        _ => false,
    }
}

fn out_of_range(index: usize) -> (r: String)
    ensures
        r@ == out_of_range_text(index),
{
    let mut s = to_owned_string("point index ");
    let digits = usize_to_decimal(index);
    push_str(&mut s, digits.as_str());
    push_str(&mut s, " out of range");
    s
}

/// The status line for an event on `track_node_id`: each success has its
/// message, each failure its error, never both.
pub fn path_edit_status(track_node_id: &str, event: &PathEditEvent) -> (r: PathEditStatus)
    ensures
        r.track_node_id matches Some(t) && t@ == track_node_id@,
        opt_view(r.message, event_message(*event)),
        opt_view(r.error, event_error(*event)),
{
    let track = Some(to_owned_string(track_node_id));
    let (message, error): (Option<String>, Option<String>) = match event {
        PathEditEvent::TrackDeleted => (Some(to_owned_string("Track deleted")), None),
        PathEditEvent::TrackCreated => (Some(to_owned_string("Track created")), None),
        PathEditEvent::PointAdded => (Some(to_owned_string("Point added")), None),
        PathEditEvent::PointRemoved { index, in_range } => if *in_range {
            (Some(to_owned_string("Point removed")), None)
        } else {
            (None, Some(out_of_range(*index)))
        },
        PathEditEvent::PointEdited { kind, index, applied } => if *applied {
            let text = match kind {
                EditKind::Move => "Point moved",
                EditKind::Handles => "Handles set",
                EditKind::Corner => "Corner set",
            };
            (Some(to_owned_string(text)), None)
        } else {
            (None, Some(out_of_range(*index)))
        },
        PathEditEvent::PointAnnotated => (Some(to_owned_string("Point annotated")), None),
        PathEditEvent::AnnotateOutOfRange { index } => (None, Some(out_of_range(*index))),
        PathEditEvent::NoActiveTerrain => (None, Some(to_owned_string("cannot annotate: no active petal terrain"))),
        PathEditEvent::Exported { path } => {
            let mut m = to_owned_string("Exported to ");
            push_str(&mut m, path.as_str());
            (Some(m), None)
        },
        PathEditEvent::ExportFailed { reason } => {
            let mut m = to_owned_string("write failed: ");
            push_str(&mut m, reason.as_str());
            (None, Some(m))
        },
        PathEditEvent::PropertyWriteFailed { message } => (None, Some(message.clone())),
    };
    PathEditStatus { track_node_id: track, message, error }
}

// ---------------------------------------------------------------------------
// Petal (re)load
// ---------------------------------------------------------------------------

/// On a new revision of the active petal's terrain (a petal switch or a
/// reload): the revision is recorded, every in-flight point list and seed
/// read is forgotten (they may have been seeded against another base), and
/// the ids of the active petal's nodes are returned, in order, so their
/// properties are fetched and any track among them is drawn again. Nothing
/// happens while the terrain is unchanged or its revision already seen.
pub fn request_petal_gpx_materialization<Pt, E, P>(
    terrain_changed: bool,
    revision: u64,
    last_revision: &mut u64,
    active_petal: &Option<String>,
    verse_mgr: &VerseManager<P>,
    pending: &mut PendingPathEdits<Pt, E>,
) -> (r: Vec<String>)
    requires
        old(pending).wf(),
    ensures
        final(pending).wf(),
        !terrain_changed || revision == *old(last_revision) ==> {
            &&& r@.len() == 0
            &&& *final(last_revision) == *old(last_revision)
            &&& final(pending).in_flight() == old(pending).in_flight()
            &&& final(pending).seeds() == old(pending).seeds()
        },
        terrain_changed && revision != *old(last_revision) ==> {
            &&& *final(last_revision) == revision
            &&& final(pending).in_flight() == Map::<Seq<char>, Vec<Pt>>::empty()
            &&& final(pending).seeds() == Set::<Seq<char>>::empty()
            &&& if active_petal matches Some(pid) && tree_has_petal(verse_mgr.verses@, pid@) {
                let nodes = petal_at(verse_mgr.verses@, first_petal(verse_mgr.verses@, active_petal->0@)).nodes@;
                &&& r@.len() == nodes.len()
                &&& forall|k: int| 0 <= k < nodes.len() ==> (#[trigger] r@[k])@ == nodes[k].id@
            } else {
                r@.len() == 0
            }
        },
        final(pending).queued() == old(pending).queued(),
        final(pending).creates_view() == old(pending).creates_view(),
        final(pending).confirms() == old(pending).confirms(),
{
    let mut ids: Vec<String> = Vec::new();
    if !terrain_changed || revision == *last_revision {
        return ids;
    }
    *last_revision = revision;
    pending.forget_in_flight();
    let pid = match active_petal {
        Some(p) => p,
        None => {
            return ids;
        },
    };
    let petal = match verse_mgr.find_petal(pid.as_str()) {
        Some(p) => p,
        None => {
            return ids;
        },
    };
    proof {
        let vs = verse_mgr.verses@;
        let t = choose|t: Slot| #[trigger] first_petal_slot(vs, t, pid@) && *petal == petal_at(vs, t);
        assert(petal_in_slot(vs, t, pid@));
        assert(first_petal_slot(vs, first_petal(vs, pid@), pid@));
        lemma_first_petal_unique(vs, t, first_petal(vs, pid@), pid@);
    }
    let mut k: usize = 0;
    while k < petal.nodes.len()
        invariant
            k <= petal.nodes@.len(),
            ids@.len() == k,
            forall|j: int| 0 <= j < k ==> (#[trigger] ids@[j])@ == petal.nodes@[j].id@,
        decreases petal.nodes@.len() - k,
    {
        ids.push(petal.nodes[k].id.clone());
        k = k + 1;
    }
    ids
}

} // verus!
