//! Routing of database results to the panels that wait for them.
//!
//! Property results are guarded by the current selection: a reply that
//! arrives after the user selected another node must not overwrite that
//! node's buffers. Raw-query results and errors carry no request id, so the
//! newest kind of caller claims them first: the GIS panel, then the Paths tab,
//! then the ad-hoc query tab.
//!
//! Property bags reach this module already read out of their JSON objects;
//! values that are not strings are carried as their JSON text.

use vstd::prelude::*;

use crate::hierarchy::{NodeEntry, VerseManager};
use crate::settings_results::{ApiTokenEntry, FieldDefEntry};
use crate::primitives::PrimitiveDescriptorCache;
use crate::stamps::{PathAssetApplied, PathAssetCache, PathAssetDescriptor};
use crate::text::{opt_text_eq, opt_text_is, push_str, str_eq, to_owned_string};

verus! {

// ---------------------------------------------------------------------------
// Selection
// ---------------------------------------------------------------------------

/// The node the user selected.
#[derive(Debug, Clone)]
pub struct SelectedNode {
    pub entity: u64,
    pub node_id: String,
}

/// The current selection.
#[derive(Debug, Clone)]
pub struct NodeManager {
    pub selected: Option<SelectedNode>,
}

impl NodeManager {
    /// Nothing selected.
    pub fn new() -> (r: Self)
        ensures
            r.selected is None,
    {
        NodeManager { selected: None }
    }

    /// Selects `node_id` (rendered by `entity`).
    pub fn select(&mut self, entity: u64, node_id: &str)
        ensures
            final(self).selected matches Some(s) && s.entity == entity && s.node_id@ == node_id@,
    {
        self.selected = Some(SelectedNode { entity, node_id: to_owned_string(node_id) });
    }
}

/// `node_id` is the selected node.
pub open spec fn selected_is(m: NodeManager, node_id: Seq<char>) -> bool {
    m.selected matches Some(s) && s.node_id@ == node_id
}

/// `true` when `node_id` is still the selected node.
pub fn is_for_selected_node(node_mgr: &NodeManager, node_id: &str) -> (r: bool)
    ensures
        r == selected_is(*node_mgr, node_id@),
{
    match &node_mgr.selected {
        Some(s) => str_eq(s.node_id.as_str(), node_id),
        None => false,
    }
}

// ---------------------------------------------------------------------------
// Property bags
// ---------------------------------------------------------------------------

/// A property value: a JSON string, or any other JSON value as its text.
#[derive(Debug, Clone)]
pub enum PropValue {
    Str(String),
    Json(String),
}

/// `w` writes the JSON string `text` to property `key`.
pub open spec fn str_write(w: (String, PropValue), key: Seq<char>, text: Seq<char>) -> bool {
    &&& w.0@ == key
    &&& w.1 matches PropValue::Str(s) && s@ == text
}

/// `w` writes the JSON value spelled `text` (not a string) to `key`.
pub open spec fn json_write(w: (String, PropValue), key: Seq<char>, text: Seq<char>) -> bool {
    &&& w.0@ == key
    &&& w.1 matches PropValue::Json(s) && s@ == text
}

/// A write of the JSON string `text` to `key`.
pub fn string_write(key: &str, text: &str) -> (r: (String, PropValue))
    ensures
        str_write(r, key@, text@),
{
    (to_owned_string(key), PropValue::Str(to_owned_string(text)))
}

/// A node's properties, in the order the object listed them.
#[derive(Debug, Clone)]
pub struct PropertyBag {
    pub entries: Vec<(String, PropValue)>,
}

/// Index of the first entry of `s` with key `k`, or -1.
pub open spec fn prop_index(s: Seq<(String, PropValue)>, k: Seq<char>) -> int {
    if exists|i: int| 0 <= i < s.len() && s[i].0@ == k {
        choose|i: int| 0 <= i < s.len() && s[i].0@ == k && forall|j: int| 0 <= j < i ==> s[j].0@ != k
    } else {
        -1
    }
}

/// The string value of `k` in `s`, or the empty string when it is absent
/// or not a string.
pub open spec fn str_prop(s: Seq<(String, PropValue)>, k: Seq<char>) -> Seq<char> {
    let i = prop_index(s, k);
    if i < 0 {
        Seq::empty()
    } else {
        match s[i].1 {
            PropValue::Str(v) => v@,
            PropValue::Json(_) => Seq::empty(),
        }
    }
}

/// `s` without the entries with key `k`.
pub open spec fn without_prop(s: Seq<(String, PropValue)>, k: Seq<char>) -> Seq<(String, PropValue)>
    decreases s.len(),
{
    if s.len() == 0 {
        s
    } else {
        let rest = without_prop(s.drop_last(), k);
        if s.last().0@ == k {
            rest
        } else {
            rest.push(s.last())
        }
    }
}

impl PropertyBag {
    pub fn new() -> (r: Self)
        ensures
            r.entries@.len() == 0,
    {
        PropertyBag { entries: Vec::new() }
    }

    /// The string value of `key` ("" when absent or not a string).
    pub fn get_str(&self, key: &str) -> (r: String)
        ensures
            r@ == str_prop(self.entries@, key@),
    {
        let mut i: usize = 0;
        while i < self.entries.len()
            invariant
                i <= self.entries@.len(),
                forall|j: int| 0 <= j < i ==> (#[trigger] self.entries@[j]).0@ != key@,
            decreases self.entries@.len() - i,
        {
            if str_eq(self.entries[i].0.as_str(), key) {
                proof {
                    let s = self.entries@;
                    assert(0 <= i < s.len() && s[i as int].0@ == key@ && forall|j: int| 0 <= j < i ==> s[j].0@ != key@);
                    let c = prop_index(s, key@);
                    if c < i {
                        assert(s[c].0@ != key@);
                    } else if c > i {
                        assert(s[i as int].0@ != key@);
                    }
                }
                return match &self.entries[i].1 {
                    PropValue::Str(v) => v.clone(),
                    PropValue::Json(_) => String::new(),
                };
            }
            i = i + 1;
        }
        String::new()
    }

    /// Whether `key` is present.
    pub fn contains_key(&self, key: &str) -> (r: bool)
        ensures
            r == (prop_index(self.entries@, key@) >= 0),
    {
        let mut i: usize = 0;
        while i < self.entries.len()
            invariant
                i <= self.entries@.len(),
                forall|j: int| 0 <= j < i ==> (#[trigger] self.entries@[j]).0@ != key@,
            decreases self.entries@.len() - i,
        {
            if str_eq(self.entries[i].0.as_str(), key) {
                proof {
                    assert(self.entries@[i as int].0@ == key@);
                }
                return true;
            }
            i = i + 1;
        }
        false
    }

    /// Removes every entry with key `key`, keeping order.
    pub fn remove(&mut self, key: &str)
        ensures
            final(self).entries@ == without_prop(old(self).entries@, key@),
    {
        let ghost orig = self.entries@;
        let mut kept: Vec<(String, PropValue)> = Vec::new();
        let mut rest: Vec<(String, PropValue)> = Vec::new();
        std::mem::swap(&mut rest, &mut self.entries);
        let n: usize = rest.len();
        let mut i: usize = 0;
        while i < n
            invariant
                n == orig.len(),
                i <= n,
                rest@ == orig.skip(i as int),
                kept@ == without_prop(orig.take(i as int), key@),
            decreases n - i,
        {
            let e = rest.remove(0);
            proof {
                assert(e == orig[i as int]);
                assert(orig.take(i + 1).drop_last() =~= orig.take(i as int));
                assert(orig.take(i + 1).last() == orig[i as int]);
                assert(rest@ =~= orig.skip(i + 1));
            }
            if !str_eq(e.0.as_str(), key) {
                kept.push(e);
            }
            i = i + 1;
        }
        proof {
            assert(orig.take(n as int) =~= orig);
        }
        self.entries = kept;
    }
}

/// The annotation card fields a property key feeds.
#[derive(Debug, Clone, Copy, PartialEq, Eq, Structural)]
pub enum AnnotationField {
    Title,
    Body,
    Color,
}

/// The annotation field of a property key, if it is one.
pub open spec fn annotation_field_spec(key: Seq<char>) -> Option<AnnotationField> {
    if key == "gis.annotation.title"@ {
        Some(AnnotationField::Title)
    } else if key == "gis.annotation.body"@ {
        Some(AnnotationField::Body)
    } else if key == "gis.annotation.color"@ {
        Some(AnnotationField::Color)
    } else {
        None
    }
}

/// Maps a property key to the annotation field it feeds.
pub fn annotation_field_for_key(key: &str) -> (r: Option<AnnotationField>)
    ensures
        r == annotation_field_spec(key@),
{
    if str_eq(key, "gis.annotation.title") {
        Some(AnnotationField::Title)
    } else if str_eq(key, "gis.annotation.body") {
        Some(AnnotationField::Body)
    } else if str_eq(key, "gis.annotation.color") {
        Some(AnnotationField::Color)
    } else {
        None
    }
}

/// Law: the three annotation properties feed their own buffers —
/// `gis.annotation.title` the title, `gis.annotation.body` the body,
/// `gis.annotation.color` the color — and no other key feeds any.
pub proof fn law_annotation_keys_feed_their_fields(key: Seq<char>)
    ensures
        annotation_field_spec("gis.annotation.title"@) == Some(AnnotationField::Title),
        annotation_field_spec("gis.annotation.body"@) == Some(AnnotationField::Body),
        annotation_field_spec("gis.annotation.color"@) == Some(AnnotationField::Color),
        (key != "gis.annotation.title"@ && key != "gis.annotation.body"@ && key != "gis.annotation.color"@)
            ==> annotation_field_spec(key) is None,
        annotation_field_spec(key) == Some(AnnotationField::Title) ==> key == "gis.annotation.title"@,
        annotation_field_spec(key) == Some(AnnotationField::Body) ==> key == "gis.annotation.body"@,
        annotation_field_spec(key) == Some(AnnotationField::Color) ==> key == "gis.annotation.color"@,
{
    reveal_strlit("gis.annotation.title");
    reveal_strlit("gis.annotation.body");
    reveal_strlit("gis.annotation.color");
    assert("gis.annotation.title"@ != "gis.annotation.body"@) by {
        assert("gis.annotation.title"@[15] != "gis.annotation.body"@[15]);
    }
    assert("gis.annotation.title"@ != "gis.annotation.color"@) by {
        assert("gis.annotation.title"@[15] != "gis.annotation.color"@[15]);
    }
    assert("gis.annotation.body"@ != "gis.annotation.color"@) by {
        assert("gis.annotation.body"@[15] != "gis.annotation.color"@[15]);
    }
}

// ---------------------------------------------------------------------------
// Panel state the routing touches
// ---------------------------------------------------------------------------

/// The inspector's buffers.
#[derive(Debug, Clone)]
pub struct InspectorFormState {
    pub node_properties: PropertyBag,
    pub node_properties_loading: bool,
    pub annotation_title_buf: String,
    pub annotation_body_buf: String,
    pub annotation_color_buf: String,
    pub query_result: Option<String>,
    pub query_loading: bool,
    pub field_defs: Vec<FieldDefEntry>,
    pub field_defs_loading: bool,
    pub api_tokens: Vec<ApiTokenEntry>,
    pub api_tokens_total: u64,
    pub api_tokens_loading: bool,
    pub api_tokens_page: u64,
    pub api_token_scope_buf: String,
    pub generated_api_token: Option<String>,
}

impl InspectorFormState {
    pub fn new() -> (r: Self)
        ensures
            r.node_properties.entries@.len() == 0,
            !r.node_properties_loading,
            r.annotation_title_buf@.len() == 0,
            r.annotation_body_buf@.len() == 0,
            r.annotation_color_buf@.len() == 0,
            r.query_result is None,
            !r.query_loading,
            r.field_defs@.len() == 0,
            !r.field_defs_loading,
            r.api_tokens@.len() == 0,
            r.api_tokens_total == 0,
            !r.api_tokens_loading,
            r.api_tokens_page == 0,
            r.api_token_scope_buf@.len() == 0,
            r.generated_api_token is None,
    {
        InspectorFormState {
            node_properties: PropertyBag::new(),
            node_properties_loading: false,
            annotation_title_buf: String::new(),
            annotation_body_buf: String::new(),
            annotation_color_buf: String::new(),
            query_result: None,
            query_loading: false,
            field_defs: Vec::new(),
            field_defs_loading: false,
            api_tokens: Vec::new(),
            api_tokens_total: 0,
            api_tokens_loading: false,
            api_tokens_page: 0,
            api_token_scope_buf: String::new(),
            generated_api_token: None,
        }
    }
}

/// The GIS panel's query state.
#[derive(Debug, Clone)]
pub struct GisPanelState {
    pub query_pending: bool,
    pub last_error: Option<String>,
}

/// A pen click on ground with no track open: the first anchor (point `V`,
/// optional bezier handles, corner kind `K`, smoothness as its bit pattern)
/// waits for the track the click creates, matched by correlation id.
#[derive(Debug, Clone)]
pub struct PendingPenCreate<V, K> {
    pub correlation_id: String,
    pub first_point: V,
    pub handle_in: Option<V>,
    pub handle_out: Option<V>,
    pub corner: K,
    pub smoothness_bits: u32,
}

/// The Paths tab's state the routing touches; `S` is the stashed pen
/// auto-create.
#[derive(Debug, Clone)]
pub struct PathEditorState<S> {
    pub editing_track_id: Option<String>,
    pub points_pending: bool,
    pub tracks_pending: bool,
    pub last_error: Option<String>,
    /// A pen auto-create still in flight.
    pub pending_pen_create: Option<S>,
}

impl<S> PathEditorState<S> {
    pub fn new() -> (r: Self)
        ensures
            r.editing_track_id is None,
            !r.points_pending,
            !r.tracks_pending,
            r.last_error is None,
            r.pending_pen_create is None,
    {
        PathEditorState { editing_track_id: None, points_pending: false, tracks_pending: false, last_error: None, pending_pen_create: None }
    }
}

// ---------------------------------------------------------------------------
// Property handlers
// ---------------------------------------------------------------------------

/// What a properties load did.
#[derive(Debug, Clone, Copy, PartialEq, Eq, Structural)]
pub struct PropertiesLoaded {
    /// The Paths tab's read-back claimed it (the caller decodes the points,
    /// style and stamp descriptor into the tab).
    pub path_readback: bool,
    /// It was for the selected node and went to the inspector (and on to
    /// pending API requests).
    pub delivered: bool,
}

/// `NodePropertiesLoaded`. The descriptor caches are fed whatever the
/// selection (`primitive`: the primitive property as parsed; `path_asset`:
/// the stamp descriptor and the flattened path with its fingerprint).
/// The Paths tab claims the reply when it is editing that track and waits
/// for its read-back. The inspector takes it only for the selected node:
/// the whole bag, loading cleared, and the three annotation buffers read
/// from it.
pub fn handle_node_properties_loaded<D, Pt, S>(
    node_id: &str,
    petal_id: Option<&str>,
    properties: &PropertyBag,
    primitive: Option<D>,
    path_asset: Option<PathAssetDescriptor>,
    path: Option<(Vec<Pt>, u64)>,
    path_state: &mut PathEditorState<S>,
    node_mgr: &NodeManager,
    inspector: &mut InspectorFormState,
    prim_cache: &mut PrimitiveDescriptorCache<D>,
    pa_cache: &mut PathAssetCache<Pt>,
) -> (r: PropertiesLoaded)
    requires
        old(pa_cache).wf(),
    ensures
        final(pa_cache).wf(),
        primitive matches Some(d) ==> final(prim_cache).descriptors_view() == old(prim_cache).descriptors_view().insert(node_id@, d),
        primitive is None ==> final(prim_cache).descriptors_view() == old(prim_cache).descriptors_view().remove(node_id@),
        (petal_id is None || path_asset is None || path is None) ==> final(pa_cache)@ == old(pa_cache)@.remove(node_id@),
        (petal_id is Some && path_asset is Some && path is Some) ==> {
            &&& final(pa_cache)@.dom() == old(pa_cache)@.dom().insert(node_id@)
            &&& forall|k: Seq<char>| k != node_id@ && #[trigger] old(pa_cache)@.contains_key(k) ==> final(pa_cache)@[k] == old(pa_cache)@[k]
            &&& final(pa_cache)@[node_id@].petal_id@ == petal_id->0@
            &&& final(pa_cache)@[node_id@].descriptor == path_asset->0
            &&& final(pa_cache)@[node_id@].points == (path->0).0
            &&& final(pa_cache)@[node_id@].fingerprint == (path->0).1
        },
        final(prim_cache).requested_view() == old(prim_cache).requested_view().remove(node_id@),
        r.path_readback == (old(path_state).editing_track_id matches Some(t) && t@ == node_id@ && old(path_state).points_pending),
        r.path_readback ==> !final(path_state).points_pending,
        !r.path_readback ==> final(path_state).points_pending == old(path_state).points_pending,
        *final(path_state) == (PathEditorState::<S> { points_pending: final(path_state).points_pending, ..*old(path_state) }),
        r.delivered == selected_is(*node_mgr, node_id@),
        r.delivered ==> {
            &&& bags_same(final(inspector).node_properties.entries@, properties.entries@)
            &&& !final(inspector).node_properties_loading
            &&& final(inspector).annotation_title_buf@ == str_prop(properties.entries@, "gis.annotation.title"@)
            &&& final(inspector).annotation_body_buf@ == str_prop(properties.entries@, "gis.annotation.body"@)
            &&& final(inspector).annotation_color_buf@ == str_prop(properties.entries@, "gis.annotation.color"@)
            &&& *final(inspector) == (InspectorFormState {
                node_properties: final(inspector).node_properties,
                node_properties_loading: false,
                annotation_title_buf: final(inspector).annotation_title_buf,
                annotation_body_buf: final(inspector).annotation_body_buf,
                annotation_color_buf: final(inspector).annotation_color_buf,
                ..*old(inspector)
            })
        },
        !r.delivered ==> *final(inspector) == *old(inspector),
{
    prim_cache.note_properties(node_id, primitive);
    pa_cache.note_properties(node_id, petal_id, path_asset, path);
    let readback = match &path_state.editing_track_id {
        Some(t) => str_eq(t.as_str(), node_id) && path_state.points_pending,
        None => false,
    };
    if readback {
        path_state.points_pending = false;
    }
    if !is_for_selected_node(node_mgr, node_id) {
        return PropertiesLoaded { path_readback: readback, delivered: false };
    }
    inspector.node_properties = properties.clone_bag();
    inspector.node_properties_loading = false;
    inspector.annotation_title_buf = properties.get_str("gis.annotation.title");
    inspector.annotation_body_buf = properties.get_str("gis.annotation.body");
    inspector.annotation_color_buf = properties.get_str("gis.annotation.color");
    PropertiesLoaded { path_readback: readback, delivered: true }
}

/// The two values are the same variant with equal text.
pub open spec fn prop_value_same(a: PropValue, b: PropValue) -> bool {
    match (a, b) {
        (PropValue::Str(x), PropValue::Str(y)) => x@ == y@,
        (PropValue::Json(x), PropValue::Json(y)) => x@ == y@,
        _ => false,
    }
}

/// Two bags list the same keys with the same values, in the same order.
pub open spec fn bags_same(a: Seq<(String, PropValue)>, b: Seq<(String, PropValue)>) -> bool {
    a.len() == b.len() && forall|j: int| 0 <= j < a.len() ==> (#[trigger] a[j]).0@ == b[j].0@ && prop_value_same(a[j].1, b[j].1)
}

impl PropertyBag {
    /// A copy of the bag.
    pub fn clone_bag(&self) -> (r: PropertyBag)
        ensures
            bags_same(r.entries@, self.entries@),
    {
        let mut out: Vec<(String, PropValue)> = Vec::new();
        let mut i: usize = 0;
        while i < self.entries.len()
            invariant
                i <= self.entries@.len(),
                out@.len() == i,
                forall|j: int| 0 <= j < i ==> (#[trigger] out@[j]).0@ == self.entries@[j].0@
                    && prop_value_same(out@[j].1, self.entries@[j].1),
            decreases self.entries@.len() - i,
        {
            let v = match &self.entries[i].1 {
                PropValue::Str(s) => PropValue::Str(s.clone()),
                PropValue::Json(s) => PropValue::Json(s.clone()),
            };
            out.push((self.entries[i].0.clone(), v));
            i = i + 1;
        }
        PropertyBag { entries: out }
    }
}

/// What a property write did.
#[derive(Debug, Clone)]
pub struct PropertySet {
    /// Re-run the Paths tab's track query for this petal.
    pub query_tracks_petal: Option<String>,
    /// Read the node's properties back (sent once).
    pub send_read: bool,
    /// The write was for the selected node (deliver it on).
    pub for_selected: bool,
}

/// `NodePropertySet`. A track-name write re-runs the track query of the
/// active petal; a primitive write evicts the node's cached descriptor and
/// always reads the properties back; a write on the track open in the Paths
/// tab re-arms its read-back; a write on the selected node marks the
/// inspector loading. The read-back is sent once when anyone needs it.
pub fn handle_node_property_set<D, S>(
    node_id: &str,
    key: &str,
    active_petal_id: &Option<String>,
    path_state: &mut PathEditorState<S>,
    node_mgr: &NodeManager,
    inspector: &mut InspectorFormState,
    prim_cache: &mut PrimitiveDescriptorCache<D>,
) -> (r: PropertySet)
    ensures
        key@ == "gis.track.name"@ && active_petal_id is Some ==> (r.query_tracks_petal matches Some(p) && p@ == active_petal_id->0@),
        !(key@ == "gis.track.name"@ && active_petal_id is Some) ==> r.query_tracks_petal is None,
        key@ == "primitive"@ ==> final(prim_cache).descriptors_view() == old(prim_cache).descriptors_view().remove(node_id@)
            && final(prim_cache).requested_view() == old(prim_cache).requested_view().remove(node_id@),
        key@ != "primitive"@ ==> final(prim_cache).descriptors_view() == old(prim_cache).descriptors_view()
            && final(prim_cache).requested_view() == old(prim_cache).requested_view(),
        (old(path_state).editing_track_id matches Some(t) && t@ == node_id@) ==> final(path_state).points_pending,
        !(old(path_state).editing_track_id matches Some(t) && t@ == node_id@) ==> final(path_state).points_pending == old(path_state).points_pending,
        *final(path_state) == (PathEditorState::<S> { points_pending: final(path_state).points_pending, ..*old(path_state) }),
        r.for_selected == selected_is(*node_mgr, node_id@),
        r.for_selected ==> final(inspector).node_properties_loading,
        !r.for_selected ==> final(inspector).node_properties_loading == old(inspector).node_properties_loading,
        *final(inspector) == (InspectorFormState { node_properties_loading: final(inspector).node_properties_loading, ..*old(inspector) }),
        r.send_read == (key@ == "primitive"@ || r.for_selected || (old(path_state).editing_track_id matches Some(t) && t@ == node_id@)),
{
    proof {
        reveal_strlit("gis.track.name");
        reveal_strlit("primitive");
    }
    let query_tracks_petal = if str_eq(key, "gis.track.name") {
        match active_petal_id {
            Some(p) => Some(p.clone()),
            None => None,
        }
    } else {
        None
    };
    let primitive = str_eq(key, "primitive");
    if primitive {
        prim_cache.invalidate(node_id);
    }
    let refresh_editing = match &path_state.editing_track_id {
        Some(t) => str_eq(t.as_str(), node_id),
        None => false,
    };
    if refresh_editing {
        path_state.points_pending = true;
    }
    let for_selected = is_for_selected_node(node_mgr, node_id);
    if for_selected {
        inspector.node_properties_loading = true;
    }
    PropertySet { query_tracks_petal, send_read: primitive || refresh_editing || for_selected, for_selected }
}

/// `NodePropertyDeleted`. Deleting the primitive or stamp property evicts
/// the node's cached descriptor whatever the selection. For the selected
/// node only: the key leaves the inspector's bag and only the annotation
/// buffer it fed is cleared (a sibling field written a moment ago must not
/// be wiped). Returns whether it was for the selected node.
pub fn handle_node_property_deleted<D, Pt>(
    node_id: &str,
    key: &str,
    node_mgr: &NodeManager,
    inspector: &mut InspectorFormState,
    prim_cache: &mut PrimitiveDescriptorCache<D>,
    pa_cache: &mut PathAssetCache<Pt>,
) -> (r: bool)
    requires
        old(pa_cache).wf(),
    ensures
        final(pa_cache).wf(),
        key@ == "primitive"@ ==> final(prim_cache).descriptors_view() == old(prim_cache).descriptors_view().remove(node_id@),
        key@ != "primitive"@ ==> final(prim_cache).descriptors_view() == old(prim_cache).descriptors_view(),
        key@ == "path_asset"@ ==> final(pa_cache)@ == old(pa_cache)@.remove(node_id@),
        key@ != "path_asset"@ ==> final(pa_cache)@ == old(pa_cache)@,
        r == selected_is(*node_mgr, node_id@),
        !r ==> *final(inspector) == *old(inspector),
        r ==> {
            &&& final(inspector).node_properties.entries@ == without_prop(old(inspector).node_properties.entries@, key@)
            &&& annotation_field_spec(key@) == Some(AnnotationField::Title) ==> final(inspector).annotation_title_buf@.len() == 0
            &&& annotation_field_spec(key@) != Some(AnnotationField::Title) ==> final(inspector).annotation_title_buf == old(inspector).annotation_title_buf
            &&& annotation_field_spec(key@) == Some(AnnotationField::Body) ==> final(inspector).annotation_body_buf@.len() == 0
            &&& annotation_field_spec(key@) != Some(AnnotationField::Body) ==> final(inspector).annotation_body_buf == old(inspector).annotation_body_buf
            &&& annotation_field_spec(key@) == Some(AnnotationField::Color) ==> final(inspector).annotation_color_buf@.len() == 0
            &&& annotation_field_spec(key@) != Some(AnnotationField::Color) ==> final(inspector).annotation_color_buf == old(inspector).annotation_color_buf
            &&& *final(inspector) == (InspectorFormState {
                node_properties: final(inspector).node_properties,
                annotation_title_buf: final(inspector).annotation_title_buf,
                annotation_body_buf: final(inspector).annotation_body_buf,
                annotation_color_buf: final(inspector).annotation_color_buf,
                ..*old(inspector)
            })
        },
{
    proof {
        reveal_strlit("primitive");
        reveal_strlit("path_asset");
    }
    if str_eq(key, "primitive") {
        prim_cache.note_properties(node_id, None);
    }
    if str_eq(key, "path_asset") {
        pa_cache.invalidate(node_id);
    }
    if !is_for_selected_node(node_mgr, node_id) {
        return false;
    }
    inspector.node_properties.remove(key);
    match annotation_field_for_key(key) {
        Some(AnnotationField::Title) => inspector.annotation_title_buf = String::new(),
        Some(AnnotationField::Body) => inspector.annotation_body_buf = String::new(),
        Some(AnnotationField::Color) => inspector.annotation_color_buf = String::new(),
        None => {},
    }
    true
}

// ---------------------------------------------------------------------------
// Untagged query results and errors
// ---------------------------------------------------------------------------

/// Who claimed an untagged result.
#[derive(Debug, Clone, Copy, PartialEq, Eq, Structural)]
pub enum QueryClaim {
    GisPanel,
    PathsTab,
    QueryTab,
    Nobody,
}

/// The claimant of an untagged result, newest kind of caller first.
pub open spec fn claim_spec(gis_pending: bool, tracks_pending: bool, query_loading: bool) -> QueryClaim {
    if gis_pending {
        QueryClaim::GisPanel
    } else if tracks_pending {
        QueryClaim::PathsTab
    } else if query_loading {
        QueryClaim::QueryTab
    } else {
        QueryClaim::Nobody
    }
}

/// `QueryResult`. The GIS panel claims it when its query is pending, else
/// the Paths tab when its track query is, else the query tab's buffer
/// (`formatted` is the rows pretty-printed), which stops loading. The
/// claimant's pending flag is cleared; the GIS panel and the Paths tab
/// parse the rows themselves. The query tab takes the result even when it
/// was not loading.
pub fn handle_query_result<S>(
    formatted: String,
    gis_panel: &mut GisPanelState,
    path_state: &mut PathEditorState<S>,
    inspector: &mut InspectorFormState,
) -> (r: QueryClaim)
    ensures
        r == (if old(gis_panel).query_pending {
            QueryClaim::GisPanel
        } else if old(path_state).tracks_pending {
            QueryClaim::PathsTab
        } else {
            QueryClaim::QueryTab
        }),
        r == QueryClaim::GisPanel ==> !final(gis_panel).query_pending,
        r == QueryClaim::QueryTab ==> final(inspector).query_result == Some(formatted) && !final(inspector).query_loading,
        r != QueryClaim::QueryTab ==> final(inspector).query_result == old(inspector).query_result
            && final(inspector).query_loading == old(inspector).query_loading,
        r != QueryClaim::GisPanel ==> final(gis_panel).query_pending == old(gis_panel).query_pending,
        final(gis_panel).last_error == old(gis_panel).last_error,
        *final(path_state) == *old(path_state),
        *final(inspector) == (InspectorFormState {
            query_result: final(inspector).query_result,
            query_loading: final(inspector).query_loading,
            ..*old(inspector)
        }),
{
    if gis_panel.query_pending {
        gis_panel.query_pending = false;
        QueryClaim::GisPanel
    } else if path_state.tracks_pending {
        QueryClaim::PathsTab
    } else {
        inspector.query_result = Some(formatted);
        inspector.query_loading = false;
        QueryClaim::QueryTab
    }
}

/// What a database error did.
#[derive(Debug, Clone, Copy, PartialEq, Eq, Structural)]
pub struct ErrorRouting {
    /// A pen auto-create was pending and was dropped (it likely failed).
    pub pen_create_cleared: bool,
    pub claim: QueryClaim,
}

/// `Error`. A pending pen auto-create is dropped (the error names no
/// request; a failed create is the likely cause). The message goes to the
/// first waiting claimant — the GIS panel, the Paths tab, or the query tab
/// as `Error: {msg}` — whose pending flag is cleared.
pub fn handle_error<S>(
    msg: &str,
    gis_panel: &mut GisPanelState,
    path_state: &mut PathEditorState<S>,
    inspector: &mut InspectorFormState,
) -> (r: ErrorRouting)
    ensures
        r.pen_create_cleared == old(path_state).pending_pen_create is Some,
        final(path_state).pending_pen_create is None,
        r.claim == claim_spec(old(gis_panel).query_pending, old(path_state).tracks_pending, old(inspector).query_loading),
        r.claim == QueryClaim::GisPanel ==> (final(gis_panel).last_error matches Some(e) && e@ == msg@) && !final(gis_panel).query_pending,
        r.claim == QueryClaim::PathsTab ==> (final(path_state).last_error matches Some(e) && e@ == msg@) && !final(path_state).tracks_pending,
        r.claim == QueryClaim::QueryTab ==> (final(inspector).query_result matches Some(e) && e@ == "Error: "@ + msg@) && !final(inspector).query_loading,
        r.claim != QueryClaim::GisPanel ==> final(gis_panel).last_error == old(gis_panel).last_error && final(gis_panel).query_pending == old(gis_panel).query_pending,
        r.claim != QueryClaim::PathsTab ==> final(path_state).last_error == old(path_state).last_error && final(path_state).tracks_pending == old(path_state).tracks_pending,
        r.claim != QueryClaim::QueryTab ==> final(inspector).query_result == old(inspector).query_result && final(inspector).query_loading == old(inspector).query_loading,
        *final(path_state) == (PathEditorState::<S> {
            pending_pen_create: None,
            last_error: final(path_state).last_error,
            tracks_pending: final(path_state).tracks_pending,
            ..*old(path_state)
        }),
        *final(inspector) == (InspectorFormState {
            query_result: final(inspector).query_result,
            query_loading: final(inspector).query_loading,
            ..*old(inspector)
        }),
{
    let pen_create_cleared = path_state.pending_pen_create.is_some();
    path_state.pending_pen_create = None;
    let claim = if gis_panel.query_pending {
        gis_panel.last_error = Some(to_owned_string(msg));
        gis_panel.query_pending = false;
        QueryClaim::GisPanel
    } else if path_state.tracks_pending {
        path_state.last_error = Some(to_owned_string(msg));
        path_state.tracks_pending = false;
        QueryClaim::PathsTab
    } else if inspector.query_loading {
        let mut text = to_owned_string("Error: ");
        push_str(&mut text, msg);
        inspector.query_result = Some(text);
        inspector.query_loading = false;
        QueryClaim::QueryTab
    } else {
        QueryClaim::Nobody
    };
    ErrorRouting { pen_create_cleared, claim }
}

/// Whether a result is also offered to the pending API requests: every
/// result is, except a property result (`Some(accepted)`) that its handler
/// turned away as stale or as not for the selected node.
pub fn deliver_to_pending_api(property_handler_accepted: Option<bool>) -> (r: bool)
    ensures
        r == (property_handler_accepted != Some(false)),
{
    match property_handler_accepted {
        Some(accepted) => accepted,
        None => true,
    }
}

// ---------------------------------------------------------------------------
// Dialogs and node lifecycle
// ---------------------------------------------------------------------------

/// The invite dialog opened for a fresh invite.
#[derive(Debug, Clone)]
pub struct InviteDialog {
    pub invite_string: String,
    pub include_write_cap: bool,
    pub expiry_hours: u32,
}

/// `VerseInviteGenerated`: the invite dialog to open — the invite string,
/// read-only, valid for a day.
pub fn handle_verse_invite_generated(invite_string: &str) -> (r: InviteDialog)
    ensures
        r.invite_string@ == invite_string@,
        !r.include_write_cap,
        r.expiry_hours == 24,
{
    InviteDialog { invite_string: to_owned_string(invite_string), include_write_cap: false, expiry_hours: 24 }
}

/// What a node create or delete asks of the caller.
#[derive(Debug, Clone, Copy, PartialEq, Eq, Structural)]
pub struct NodeChange {
    /// The node went into (or left) a known petal.
    pub tree_changed: bool,
    /// The node is in the active petal: re-run its track query (and, for
    /// an imported model, spawn it).
    pub in_active_petal: bool,
}

/// The first-point append a pen auto-create flushes onto its new track.
#[derive(Debug, Clone)]
pub enum PenFlush<V, K> {
    /// A plain click: append the point.
    AppendPoint { track_node_id: String, position: V },
    /// A click that dragged out handles: append the smooth anchor.
    AppendSmoothPoint {
        track_node_id: String,
        position: V,
        handle_in: Option<V>,
        handle_out: Option<V>,
        corner: K,
        smoothness_bits: u32,
    },
}

/// What a `NodeCreated` asks of the caller.
pub struct NodeCreated<V, K> {
    pub change: NodeChange,
    /// The stashed pen point to append onto the new track, when the create
    /// was that pen auto-create.
    pub pen_flush: Option<PenFlush<V, K>>,
}

/// The stashed pen create is the one this create echoes.
pub open spec fn pen_echo<V, K>(stash: Option<PendingPenCreate<V, K>>, correlation_id: Option<&str>) -> bool {
    stash matches Some(st) && correlation_id matches Some(c) && st.correlation_id@ == c@
}

/// `f` appends the stash's first anchor onto track `id`: smooth when either
/// handle was dragged out, plain otherwise.
pub open spec fn flush_of<V, K>(f: PenFlush<V, K>, st: PendingPenCreate<V, K>, id: Seq<char>) -> bool {
    if st.handle_in is Some || st.handle_out is Some {
        f matches PenFlush::AppendSmoothPoint { track_node_id, position, handle_in, handle_out, corner, smoothness_bits }
            && track_node_id@ == id && position == st.first_point && handle_in == st.handle_in && handle_out
            == st.handle_out && corner == st.corner && smoothness_bits == st.smoothness_bits
    } else {
        f matches PenFlush::AppendPoint { track_node_id, position } && track_node_id@ == id && position
            == st.first_point
    }
}

/// `NodeCreated` (and `GltfImported`, with the model's asset path, and no
/// correlation id): the node is added to its petal; a node of the active
/// petal may be a track, so its petal's track query is re-run. When the
/// create echoes the stashed pen auto-create (same correlation id), the
/// stash is consumed, the new track is opened for editing and the stashed
/// first anchor is appended to it; any other create leaves the stash for
/// the real echo.
pub fn handle_node_created<P, V, K>(
    node: NodeEntry<P>,
    petal_id: &str,
    correlation_id: Option<&str>,
    active_petal_id: &Option<String>,
    verse_mgr: &mut VerseManager<P>,
    path_state: &mut PathEditorState<PendingPenCreate<V, K>>,
) -> (r: NodeCreated<V, K>)
    ensures
        r.change.tree_changed == crate::hierarchy::tree_has_petal(old(verse_mgr).verses@, petal_id@),
        r.change.in_active_petal == opt_text_is(*active_petal_id, petal_id@),
        !r.change.tree_changed ==> final(verse_mgr).verses@ == old(verse_mgr).verses@ && final(verse_mgr).node_index@ == old(verse_mgr).node_index@,
        r.change.tree_changed ==> {
            let t = crate::hierarchy::first_petal(old(verse_mgr).verses@, petal_id@);
            &&& crate::hierarchy::tree_petal_nodes_set(
                old(verse_mgr).verses@,
                final(verse_mgr).verses@,
                t,
                crate::hierarchy::petal_at(old(verse_mgr).verses@, t).nodes@.push(node),
            )
            &&& final(verse_mgr).node_index@ == old(verse_mgr).node_index@.insert(node.id@, t)
        },
        pen_echo(old(path_state).pending_pen_create, correlation_id) ==> {
            &&& r.pen_flush matches Some(f) && flush_of(f, old(path_state).pending_pen_create->0, node.id@)
            &&& final(path_state).pending_pen_create is None
            &&& final(path_state).editing_track_id matches Some(t) && t@ == node.id@
            &&& *final(path_state) == (PathEditorState::<PendingPenCreate<V, K>> {
                pending_pen_create: None,
                editing_track_id: final(path_state).editing_track_id,
                ..*old(path_state)
            })
        },
        !pen_echo(old(path_state).pending_pen_create, correlation_id) ==> r.pen_flush is None && *final(path_state)
            == *old(path_state),
{
    let node_id = to_owned_string(node.id.as_str());
    let added = verse_mgr.add_node(petal_id, node);
    let echoed = match (&path_state.pending_pen_create, correlation_id) {
        (Some(st), Some(c)) => str_eq(st.correlation_id.as_str(), c),
        _ => false,
    };
    let pen_flush = if echoed {
        match path_state.pending_pen_create.take() {
            Some(st) => {
                path_state.editing_track_id = Some(node_id.clone());
                if st.handle_in.is_some() || st.handle_out.is_some() {
                    Some(
                        PenFlush::AppendSmoothPoint {
                            track_node_id: node_id,
                            position: st.first_point,
                            handle_in: st.handle_in,
                            handle_out: st.handle_out,
                            corner: st.corner,
                            smoothness_bits: st.smoothness_bits,
                        },
                    )
                } else {
                    Some(PenFlush::AppendPoint { track_node_id: node_id, position: st.first_point })
                }
            },
            None => None,
        }
    } else {
        None
    };
    NodeCreated {
        change: NodeChange { tree_changed: added, in_active_petal: opt_text_eq(active_petal_id, petal_id) },
        pen_flush,
    }
}

/// `NodeDeleted`: the node leaves its petal and the index; an edit session
/// on it in the Paths tab stops; its stamp cache entry and applied record go
/// (so a deleted track's stamps are torn down); a node of the active petal
/// re-runs the track query.
pub fn handle_node_deleted<P, Pt, S>(
    node_id: &str,
    petal_id: &str,
    active_petal_id: &Option<String>,
    verse_mgr: &mut VerseManager<P>,
    path_state: &mut PathEditorState<S>,
    pa_cache: &mut PathAssetCache<Pt>,
    applied: &mut PathAssetApplied,
) -> (r: NodeChange)
    requires
        old(pa_cache).wf(),
        old(applied).wf(),
    ensures
        crate::hierarchy::tree_has_petal(old(verse_mgr).verses@, petal_id@) ==> {
            let t = crate::hierarchy::first_petal(old(verse_mgr).verses@, petal_id@);
            crate::hierarchy::tree_petal_nodes_set(
                old(verse_mgr).verses@,
                final(verse_mgr).verses@,
                t,
                crate::hierarchy::without_id(crate::hierarchy::petal_at(old(verse_mgr).verses@, t).nodes@, node_id@),
            )
        },
        !crate::hierarchy::tree_has_petal(old(verse_mgr).verses@, petal_id@) ==> final(verse_mgr).verses@ == old(verse_mgr).verses@,
        final(verse_mgr).node_index@ == old(verse_mgr).node_index@.remove(node_id@),
        final(pa_cache).wf(),
        final(pa_cache)@ == old(pa_cache)@.remove(node_id@),
        final(applied).wf(),
        final(applied)@ == old(applied)@.remove(node_id@),
        opt_text_is(old(path_state).editing_track_id, node_id@) ==> final(path_state).editing_track_id is None,
        !opt_text_is(old(path_state).editing_track_id, node_id@) ==> final(path_state).editing_track_id == old(path_state).editing_track_id,
        *final(path_state) == (PathEditorState::<S> { editing_track_id: final(path_state).editing_track_id, ..*old(path_state) }),
        r.in_active_petal == opt_text_is(*active_petal_id, petal_id@),
        r.tree_changed,
{
    verse_mgr.remove_node(petal_id, node_id);
    if opt_text_eq(&path_state.editing_track_id, node_id) {
        path_state.editing_track_id = None;
    }
    pa_cache.invalidate(node_id);
    applied.invalidate(node_id);
    NodeChange { tree_changed: true, in_active_petal: opt_text_eq(active_petal_id, petal_id) }
}

} // verus!
