//! Path-asset stamps: copies of a model placed along a path.
//!
//! This module keeps the bookkeeping that decides what is stamped and when:
//! the per-track cache of stamp inputs, the per-track gate that skips
//! restamping when nothing changed, the ids given to stamp instances, the
//! petal-wide stamp budget, the spawn cap for ordinary nodes, and the
//! fingerprints that detect changed inputs. Sampling positions along the path
//! is floating-point work done by the caller; coordinates reach this module as
//! an opaque point type or as their IEEE-754 bit patterns.

use vstd::prelude::*;

use crate::decimal::{all_digits, decimal, is_digit, lemma_decimal, lemma_parse_decimal, parse_usize, parse_usize_spec, usize_to_decimal};
use crate::strmap::StrMap;
use crate::text::{contains_char, ends_with, opt_text_same, push_str, same_opt_text, seq_has_char, str_eq, to_owned_string};

verus! {

// ---------------------------------------------------------------------------
// Stamp instance ids
// ---------------------------------------------------------------------------

/// The separator between a track id and a stamp index.
pub open spec fn stamp_sep() -> Seq<char> {
    "::stamp::"@
}

/// The marker id of stamp `index` of `track_id`.
pub open spec fn stamp_marker(track_id: Seq<char>, index: nat) -> Seq<char> {
    track_id + stamp_sep() + decimal(index)
}

/// `pat` occurs in `s` starting at `p`.
pub open spec fn occurs_at(s: Seq<char>, p: int, pat: Seq<char>) -> bool {
    0 <= p && p + pat.len() <= s.len() && s.subrange(p, p + pat.len()) == pat
}

/// The start of the last occurrence of `pat` in `s`, or -1.
pub open spec fn last_occurrence(s: Seq<char>, pat: Seq<char>) -> int {
    if exists|p: int| occurs_at(s, p, pat) {
        choose|p: int| occurs_at(s, p, pat) && forall|q: int| q > p ==> !occurs_at(s, q, pat)
    } else {
        -1
    }
}

/// What a stamp marker id parses to: the text before the last separator
/// (which must not be empty) and the index after it.
pub open spec fn parse_stamp_marker_spec(id: Seq<char>) -> Option<(Seq<char>, usize)> {
    let p = last_occurrence(id, stamp_sep());
    if p < 0 || p == 0 {
        None
    } else {
        match parse_usize_spec(id.subrange(p + 9, id.len() as int)) {
            Some(i) => Some((id.subrange(0, p), i)),
            None => None,
        }
    }
}

/// `{track_id}::stamp::{index}`: the marker id of a stamp instance.
pub fn stamp_marker_id(track_id: &str, index: usize) -> (r: String)
    ensures
        r@ == stamp_marker(track_id@, index as nat),
{
    let mut r = to_owned_string(track_id);
    push_str(&mut r, "::stamp::");
    let digits = usize_to_decimal(index);
    push_str(&mut r, digits.as_str());
    r
}

fn occurs_here(s: &str, n: usize, p: usize) -> (r: bool)
    requires
        n == s@.len(),
        p + 9 <= n,
    ensures
        r == occurs_at(s@, p as int, stamp_sep()),
{
    let pat = "::stamp::";
    proof {
        reveal_strlit("::stamp::");
    }
    let mut k: usize = 0;
    while k < 9
        invariant
            n == s@.len(),
            p + 9 <= n,
            k <= 9,
            pat@ == stamp_sep(),
            pat@.len() == 9,
            forall|j: int| 0 <= j < k ==> s@[p + j] == pat@[j],
        decreases 9 - k,
    {
        if s.get_char(p + k) != pat.get_char(k) {
            proof {
                assert(s@.subrange(p as int, p + 9)[k as int] != stamp_sep()[k as int]);
            }
            return false;
        }
        k = k + 1;
    }
    proof {
        assert(s@.subrange(p as int, p + 9) =~= stamp_sep());
    }
    true
}

/// Inverse of [`stamp_marker_id`]: the track id and stamp index, or `None`
/// when `id` is not a stamp marker id (no separator, nothing before the
/// last separator, or no index after it).
pub fn parse_stamp_marker_id(id: &str) -> (r: Option<(&str, usize)>)
    ensures
        r matches Some((t, i)) ==> parse_stamp_marker_spec(id@) == Some((t@, i)),
        r is None ==> parse_stamp_marker_spec(id@) is None,
{
    proof {
        reveal_strlit("::stamp::");
    }
    let n: usize = id.unicode_len();
    if n < 9 {
        proof {
            assert forall|p: int| !occurs_at(id@, p, stamp_sep()) by {}
        }
        return None;
    }
    let mut p: usize = n - 9;
    loop
        invariant
            n == id@.len(),
            p + 9 <= n,
            forall|q: int| q > p ==> !occurs_at(id@, q, stamp_sep()),
        decreases p,
    {
        if occurs_here(id, n, p) {
            proof {
                let lp = last_occurrence(id@, stamp_sep());
                assert(occurs_at(id@, p as int, stamp_sep()));
                if lp != p {
                    assert(occurs_at(id@, lp, stamp_sep()));
                }
            }
            if p == 0 {
                return None;
            }
            let track = id.substring_char(0, p);
            let rest = id.substring_char(p + 9, n);
            return match parse_usize(rest) {
                Some(i) => Some((track, i)),
                None => None,
            };
        }
        if p == 0 {
            proof {
                assert forall|q: int| !occurs_at(id@, q, stamp_sep()) by {}
            }
            return None;
        }
        p = p - 1;
    }
}

/// In `t + "::stamp::" + d` with `d` all digits, the separator occurs at no
/// position after the end of `t`.
proof fn lemma_no_later_separator(t: Seq<char>, d: Seq<char>, q: int)
    requires
        all_digits(d),
        d.len() > 0,
        q > t.len(),
    ensures
        !occurs_at(t + stamp_sep() + d, q, stamp_sep()),
{
    reveal_strlit("::stamp::");
    let sep = stamp_sep();
    assert(sep =~= seq![':', ':', 's', 't', 'a', 'm', 'p', ':', ':']);
    let s = t + sep + d;
    let n: int = t.len() as int;
    if occurs_at(s, q, sep) {
        let w = s.subrange(q, q + 9);
        assert(w == sep);
        assert(s[q] == w[0] && s[q + 1] == w[1] && s[q + 2] == w[2]);
        if q >= n + 9 {
            assert(s[q] == d[q - n - 9]);
            assert(is_digit(d[q - n - 9]));
        } else if q == n + 8 {
            assert(s[q + 1] == d[0]);
            assert(is_digit(d[0]));
        } else if q == n + 7 {
            assert(s[q + 2] == d[0]);
            assert(is_digit(d[0]));
        } else if q == n + 1 {
            assert(s[q + 1] == sep[2]);
        } else {
            assert(s[q] == sep[q - n]);
        }
    }
}

/// Law: a marker id of a non-empty track id parses back to that track id
/// and index, even when the track id itself contains the separator.
pub proof fn law_stamp_marker_round_trip(track_id: Seq<char>, index: usize)
    requires
        track_id.len() > 0,
    ensures
        parse_stamp_marker_spec(stamp_marker(track_id, index as nat)) == Some((track_id, index)),
{
    let d = decimal(index as nat);
    lemma_decimal(index as nat);
    lemma_parse_decimal(index);
    let sep = stamp_sep();
    let s = stamp_marker(track_id, index as nat);
    let t: int = track_id.len() as int;
    assert(sep.len() == 9) by {
        reveal_strlit("::stamp::");
    }
    assert(s.subrange(t, t + 9) =~= sep);
    assert(occurs_at(s, t, sep));
    assert forall|q: int| q > t implies !occurs_at(s, q, sep) by {
        lemma_no_later_separator(track_id, d, q);
    }
    let lp = last_occurrence(s, sep);
    assert(lp == t) by {
        if lp != t {
            assert(occurs_at(s, lp, sep));
        }
    }
    assert(s.subrange(0, t) =~= track_id);
    assert(s.subrange(t + 9, s.len() as int) =~= d);
}

// ---------------------------------------------------------------------------
// Budgets and caps
// ---------------------------------------------------------------------------

/// Most stamps one materializer pass spawns in a petal.
pub const MAX_STAMPS_PER_PETAL: usize = 65536;

/// Most scene entities spawned per petal.
pub const MAX_PETAL_NODES: usize = 10000;

/// Takes up to `requested` stamps from the shared budget `remaining` and
/// returns how many may be spawned.
pub fn take_stamp_budget(remaining: &mut usize, requested: usize) -> (r: usize)
    ensures
        r == if requested <= *old(remaining) { requested } else { *old(remaining) },
        *final(remaining) == *old(remaining) - r,
{
    let granted: usize = if requested <= *remaining { requested } else { *remaining };
    *remaining = *remaining - granted;
    granted
}

/// Stamps granted to each request in turn from a budget of `remaining`.
pub open spec fn total_granted(remaining: nat, requests: Seq<nat>) -> nat
    decreases requests.len(),
{
    if requests.len() == 0 {
        0
    } else {
        let g: nat = if requests[0] <= remaining { requests[0] } else { remaining };
        g + total_granted((remaining - g) as nat, requests.skip(1))
    }
}

/// The sum of `requests`.
pub open spec fn total_requested(requests: Seq<nat>) -> nat
    decreases requests.len(),
{
    if requests.len() == 0 {
        0
    } else {
        requests[0] + total_requested(requests.skip(1))
    }
}

/// Law: taking budget for a run of requests in turn grants, in total,
/// exactly the smaller of the budget and the total requested; the budget is
/// never overdrawn however many tracks ask.
pub proof fn law_stamp_budget_total(remaining: nat, requests: Seq<nat>)
    ensures
        total_granted(remaining, requests) == if total_requested(requests) <= remaining {
            total_requested(requests)
        } else {
            remaining
        },
    decreases requests.len(),
{
    if requests.len() > 0 {
        let g: nat = if requests[0] <= remaining { requests[0] } else { remaining };
        law_stamp_budget_total((remaining - g) as nat, requests.skip(1));
    }
}

/// Further spawns allowed when `requested` are wanted, `already` exist and
/// at most `max` may: `max - already` (never below zero), capped at
/// `requested`.
pub fn spawn_allowance(requested: usize, already: usize, max: usize) -> (r: usize)
    ensures
        r == if already >= max {
            0
        } else if requested <= max - already {
            requested
        } else {
            (max - already) as usize
        },
        already + r <= max || r == 0,
{
    let room: usize = max.saturating_sub(already);
    if requested <= room { requested } else { room }
}

/// The loadable scene path of an asset: a glTF/GLB asset without a `#`
/// label gets `#Scene0` appended; anything else passes through.
pub open spec fn scene_asset_path_spec(p: Seq<char>) -> Seq<char> {
    let gltf = (p.len() >= 5 && p.subrange(p.len() - 5, p.len() as int) == ".gltf"@) || (p.len() >= 4
        && p.subrange(p.len() - 4, p.len() as int) == ".glb"@);
    if gltf && !seq_has_char(p, '#') {
        p + "#Scene0"@
    } else {
        p
    }
}

/// Resolves an asset path to a loadable scene path.
pub fn scene_asset_path(asset_path: &str) -> (r: String)
    ensures
        r@ == scene_asset_path_spec(asset_path@),
{
    proof {
        reveal_strlit(".gltf");
        reveal_strlit(".glb");
    }
    let is_gltf = ends_with(asset_path, ".gltf") || ends_with(asset_path, ".glb");
    let mut r = to_owned_string(asset_path);
    if is_gltf && !contains_char(asset_path, '#') {
        push_str(&mut r, "#Scene0");
    }
    r
}

// ---------------------------------------------------------------------------
// Fingerprints (FNV-1a style over IEEE-754 bit patterns)
// ---------------------------------------------------------------------------

pub const FNV_OFFSET: u64 = 1469598103934665603;

pub const FNV_PRIME: u64 = 1099511628211;

/// One mixing step: xor in `v`, then multiply by the prime modulo 2^64.
pub open spec fn fnv_mix(h: u64, v: u64) -> u64 {
    vstd::wrapping::u64_specs::wrapping_mul(h ^ v, FNV_PRIME)
}

fn mix(h: u64, v: u64) -> (r: u64)
    ensures
        r == fnv_mix(h, v),
{
    (h ^ v).wrapping_mul(FNV_PRIME)
}

/// The hash after mixing in every coordinate of `points`, in order.
pub open spec fn points_hash(points: Seq<[u32; 3]>) -> u64
    decreases points.len(),
{
    if points.len() == 0 {
        FNV_OFFSET
    } else {
        let h = points_hash(points.drop_last());
        let p = points.last();
        fnv_mix(fnv_mix(fnv_mix(h, p[0] as u64), p[1] as u64), p[2] as u64)
    }
}

/// Order-sensitive fingerprint of a path given as coordinate bit patterns:
/// every coordinate is mixed in, then the point count is xored in.
pub fn points_fingerprint(points: &Vec<[u32; 3]>) -> (r: u64)
    ensures
        r == points_hash(points@) ^ (points@.len() as u64),
{
    let mut hash: u64 = FNV_OFFSET;
    let mut i: usize = 0;
    while i < points.len()
        invariant
            i <= points@.len(),
            hash == points_hash(points@.take(i as int)),
        decreases points@.len() - i,
    {
        let p = points[i];
        proof {
            assert(points@.take(i + 1).drop_last() =~= points@.take(i as int));
        }
        hash = mix(hash, p[0] as u64);
        hash = mix(hash, p[1] as u64);
        hash = mix(hash, p[2] as u64);
        i = i + 1;
    }
    proof {
        assert(points@.take(points@.len() as int) =~= points@);
    }
    hash ^ (points.len() as u64)
}

/// One stamp's sparse override, coordinates as bit patterns.
#[derive(Debug, Clone, Copy)]
pub struct StampOverrideBits {
    pub scale: Option<[u32; 3]>,
    pub rotation: Option<[u32; 4]>,
    pub arc_offset_m: Option<u32>,
}

/// The hash after mixing in one override entry.
pub open spec fn override_hash(h: u64, index: usize, ov: StampOverrideBits) -> u64 {
    let h1: u64 = fnv_mix(h, (index as u64) ^ 0x9E37_79B9_7F4A_7C15u64);
    let h2: u64 = match ov.scale {
        Some(s) => fnv_mix(fnv_mix(fnv_mix(fnv_mix(h1, 1), s[0] as u64), s[1] as u64), s[2] as u64),
        None => h1,
    };
    let h3: u64 = match ov.rotation {
        Some(r) => fnv_mix(
            fnv_mix(fnv_mix(fnv_mix(fnv_mix(h2, 2), r[0] as u64), r[1] as u64), r[2] as u64),
            r[3] as u64,
        ),
        None => h2,
    };
    match ov.arc_offset_m {
        Some(a) => fnv_mix(fnv_mix(h3, 3), a as u64),
        None => h3,
    }
}

/// The hash after mixing in every override entry of `ovs`, in order.
pub open spec fn overrides_hash(ovs: Seq<(usize, StampOverrideBits)>) -> u64
    decreases ovs.len(),
{
    if ovs.len() == 0 {
        FNV_OFFSET
    } else {
        override_hash(overrides_hash(ovs.drop_last()), ovs.last().0, ovs.last().1)
    }
}

/// Fingerprint of one track's overrides: each present field is tagged and
/// mixed in, then the entry count is mixed in.
pub fn overrides_fingerprint(overrides: &Vec<(usize, StampOverrideBits)>) -> (r: u64)
    ensures
        r == fnv_mix(overrides_hash(overrides@), overrides@.len() as u64),
{
    let mut hash: u64 = FNV_OFFSET;
    let mut i: usize = 0;
    while i < overrides.len()
        invariant
            i <= overrides@.len(),
            hash == overrides_hash(overrides@.take(i as int)),
        decreases overrides@.len() - i,
    {
        let (index, ov) = overrides[i];
        proof {
            assert(overrides@.take(i + 1).drop_last() =~= overrides@.take(i as int));
        }
        hash = mix(hash, (index as u64) ^ 0x9E37_79B9_7F4A_7C15u64);
        if let Some(s) = ov.scale {
            hash = mix(hash, 1);
            hash = mix(hash, s[0] as u64);
            hash = mix(hash, s[1] as u64);
            hash = mix(hash, s[2] as u64);
        }
        if let Some(r) = ov.rotation {
            hash = mix(hash, 2);
            hash = mix(hash, r[0] as u64);
            hash = mix(hash, r[1] as u64);
            hash = mix(hash, r[2] as u64);
            hash = mix(hash, r[3] as u64);
        }
        if let Some(a) = ov.arc_offset_m {
            hash = mix(hash, 3);
            hash = mix(hash, a as u64);
        }
        i = i + 1;
    }
    proof {
        assert(overrides@.take(overrides@.len() as int) =~= overrides@);
    }
    mix(hash, overrides.len() as u64)
}

// ---------------------------------------------------------------------------
// Stamp descriptor
// ---------------------------------------------------------------------------

/// How stamps are spread along the path.
#[derive(Debug, Clone, Copy, PartialEq, Eq, Structural)]
pub enum SpacingMode {
    FixedSpacing,
    FixedCount,
}

/// What to stamp along a track and how; the spacing (meters) is carried as
/// its IEEE-754 bit pattern.
#[derive(Debug, Clone)]
pub struct PathAssetDescriptor {
    pub asset_path: String,
    pub spacing_mode: SpacingMode,
    pub spacing_value_bits: u32,
    pub count: u32,
    pub tangent_align: bool,
}

/// The bit pattern is a NaN.
pub open spec fn f32_is_nan(b: u32) -> bool {
    (b & 0x7f80_0000u32) == 0x7f80_0000u32 && (b & 0x007f_ffffu32) != 0
}

/// The bit pattern is +0.0 or -0.0.
pub open spec fn f32_is_zero(b: u32) -> bool {
    (b & 0x7fff_ffffu32) == 0
}

/// IEEE-754 equality of two `f32` given as bit patterns: NaN equals
/// nothing, the two zeros are equal, otherwise the patterns must match.
pub open spec fn f32_bits_eq(a: u32, b: u32) -> bool {
    !f32_is_nan(a) && !f32_is_nan(b) && (a == b || (f32_is_zero(a) && f32_is_zero(b)))
}

fn f32_bits_equal(a: u32, b: u32) -> (r: bool)
    ensures
        r == f32_bits_eq(a, b),
{
    let a_nan = (a & 0x7f80_0000u32) == 0x7f80_0000u32 && (a & 0x007f_ffffu32) != 0;
    let b_nan = (b & 0x7f80_0000u32) == 0x7f80_0000u32 && (b & 0x007f_ffffu32) != 0;
    !a_nan && !b_nan && (a == b || ((a & 0x7fff_ffffu32) == 0 && (b & 0x7fff_ffffu32) == 0))
}

/// Field-by-field equality of descriptors, the spacing compared as `f32`.
pub open spec fn descriptor_eq_spec(a: PathAssetDescriptor, b: PathAssetDescriptor) -> bool {
    &&& a.asset_path@ == b.asset_path@
    &&& a.spacing_mode == b.spacing_mode
    &&& f32_bits_eq(a.spacing_value_bits, b.spacing_value_bits)
    &&& a.count == b.count
    &&& a.tangent_align == b.tangent_align
}

impl PathAssetDescriptor {
    /// Whether two descriptors are equal (`==` of the descriptor type).
    pub fn same_as(&self, other: &PathAssetDescriptor) -> (r: bool)
        ensures
            r == descriptor_eq_spec(*self, *other),
    {
        str_eq(self.asset_path.as_str(), other.asset_path.as_str()) && self.spacing_mode
            == other.spacing_mode && f32_bits_equal(self.spacing_value_bits, other.spacing_value_bits)
            && self.count == other.count && self.tangent_align == other.tangent_align
    }
}

// ---------------------------------------------------------------------------
// Per-track cache of stamp inputs
// ---------------------------------------------------------------------------

/// One track's stamp inputs: its petal, its descriptor, its (flattened)
/// path points and their fingerprint.
pub struct PathAssetCacheEntry<Pt> {
    pub petal_id: String,
    pub descriptor: PathAssetDescriptor,
    pub points: Vec<Pt>,
    pub fingerprint: u64,
}

/// `track id → stamp inputs` for every track whose properties carried both
/// a stamp descriptor and path points.
pub struct PathAssetCache<Pt> {
    entries: StrMap<PathAssetCacheEntry<Pt>>,
}

impl<Pt> View for PathAssetCache<Pt> {
    type V = Map<Seq<char>, PathAssetCacheEntry<Pt>>;

    closed spec fn view(&self) -> Map<Seq<char>, PathAssetCacheEntry<Pt>> {
        self.entries@
    }
}

impl<Pt> PathAssetCache<Pt> {
    pub closed spec fn wf(&self) -> bool {
        self.entries.wf()
    }

    /// The entries in walk order.
    pub closed spec fn walk(&self) -> Seq<(String, PathAssetCacheEntry<Pt>)> {
        self.entries.pairs()
    }

    /// The walk lists each cached track once, with its entry.
    pub proof fn lemma_walk(&self)
        requires
            self.wf(),
        ensures
            crate::strmap::keys_unique(self.walk()),
            forall|k: Seq<char>| #[trigger] self@.contains_key(k) <==> crate::strmap::has_key(self.walk(), k),
            forall|i: int| 0 <= i < self.walk().len() ==> #[trigger] self@[self.walk()[i].0@] == self.walk()[i].1,
    {
        self.entries.lemma_pairs();
    }

    pub fn new() -> (r: Self)
        ensures
            r.wf(),
            r@ == Map::<Seq<char>, PathAssetCacheEntry<Pt>>::empty(),
    {
        PathAssetCache { entries: StrMap::new() }
    }

    /// The cached entry of a track.
    pub fn get(&self, track_id: &str) -> (r: Option<&PathAssetCacheEntry<Pt>>)
        requires
            self.wf(),
        ensures
            r matches Some(e) ==> self@.contains_key(track_id@) && *e == self@[track_id@],
            r is None ==> !self@.contains_key(track_id@),
    {
        self.entries.get(track_id)
    }

    /// Every cached track and its entry, in walk order.
    pub fn iter(&self) -> (r: &[(String, PathAssetCacheEntry<Pt>)])
        ensures
            r@ == self.walk(),
    {
        self.entries.as_pairs()
    }

    /// Inserts or replaces a track's entry.
    pub fn upsert(
        &mut self,
        track_id: &str,
        petal_id: &str,
        descriptor: PathAssetDescriptor,
        points: Vec<Pt>,
        fingerprint: u64,
    )
        requires
            old(self).wf(),
        ensures
            final(self).wf(),
            final(self)@ == old(self)@.insert(
                track_id@,
                PathAssetCacheEntry { petal_id: final(self)@[track_id@].petal_id, descriptor, points, fingerprint },
            ),
            final(self)@[track_id@].petal_id@ == petal_id@,
    {
        self.entries.insert(
            to_owned_string(track_id),
            PathAssetCacheEntry { petal_id: to_owned_string(petal_id), descriptor, points, fingerprint },
        );
    }

    /// Ingests a properties load for `node_id`: the track is cached when its
    /// owning petal is known, its properties carry a stamp descriptor, and
    /// its path is not empty (`path` holds the flattened points and their
    /// fingerprint); otherwise any stale entry is dropped.
    pub fn note_properties(
        &mut self,
        node_id: &str,
        petal_id: Option<&str>,
        descriptor: Option<PathAssetDescriptor>,
        path: Option<(Vec<Pt>, u64)>,
    )
        requires
            old(self).wf(),
        ensures
            final(self).wf(),
            (petal_id is None || descriptor is None || path is None) ==> final(self)@ == old(self)@.remove(node_id@),
            (petal_id is Some && descriptor is Some && path is Some) ==> {
                &&& final(self)@.dom() == old(self)@.dom().insert(node_id@)
                &&& forall|k: Seq<char>| k != node_id@ && #[trigger] old(self)@.contains_key(k) ==> final(self)@[k] == old(self)@[k]
                &&& final(self)@[node_id@].petal_id@ == petal_id->0@
                &&& final(self)@[node_id@].descriptor == descriptor->0
                &&& final(self)@[node_id@].points == (path->0).0
                &&& final(self)@[node_id@].fingerprint == (path->0).1
            },
    {
        match (petal_id, descriptor, path) {
            (Some(p), Some(d), Some((pts, fp))) => {
                self.upsert(node_id, p, d, pts, fp);
            },
            _ => {
                self.invalidate(node_id);
            },
        }
    }

    /// Drops a track's entry.
    pub fn invalidate(&mut self, track_id: &str)
        requires
            old(self).wf(),
        ensures
            final(self).wf(),
            final(self)@ == old(self)@.remove(track_id@),
    {
        self.entries.remove(track_id);
    }

    /// Drops every entry.
    pub fn clear(&mut self)
        ensures
            final(self).wf(),
            final(self)@ == Map::<Seq<char>, PathAssetCacheEntry<Pt>>::empty(),
    {
        self.entries.clear();
    }
}

/// A live stamp instance: the track it was stamped from and its petal.
#[derive(Debug, Clone)]
pub struct PathAssetInstance {
    pub source_track_id: String,
    pub petal_id: String,
}

/// A stamp is orphaned when it lives in the active petal but its track has
/// no cache entry in that petal any more.
pub open spec fn orphaned_spec<Pt>(inst: PathAssetInstance, active_petal: Seq<char>, cache: Map<Seq<char>, PathAssetCacheEntry<Pt>>) -> bool {
    inst.petal_id@ == active_petal && !(cache.contains_key(inst.source_track_id@)
        && cache[inst.source_track_id@].petal_id@ == active_petal)
}

/// Whether a live stamp must be torn down.
pub fn stamp_is_orphaned<Pt>(inst: &PathAssetInstance, active_petal: &str, cache: &PathAssetCache<Pt>) -> (r: bool)
    requires
        cache.wf(),
    ensures
        r == orphaned_spec(*inst, active_petal@, cache@),
{
    str_eq(inst.petal_id.as_str(), active_petal) && match cache.get(inst.source_track_id.as_str()) {
        Some(e) => !str_eq(e.petal_id.as_str(), active_petal),
        None => true,
    }
}

// ---------------------------------------------------------------------------
// Per-track applied gate
// ---------------------------------------------------------------------------

/// The stamp inputs last stamped for a track.
pub struct AppliedState {
    pub descriptor: PathAssetDescriptor,
    pub points_fingerprint: u64,
    pub world_scale_bits: u32,
    pub overrides_fingerprint: u64,
}

/// Per-track record of what was last stamped, so unchanged tracks are not
/// restamped.
pub struct PathAssetApplied {
    applied: StrMap<AppliedState>,
}

impl View for PathAssetApplied {
    type V = Map<Seq<char>, AppliedState>;

    closed spec fn view(&self) -> Map<Seq<char>, AppliedState> {
        self.applied@
    }
}

/// Whether the recorded state of a track matches these inputs.
pub open spec fn applied_matches(
    m: Map<Seq<char>, AppliedState>,
    track_id: Seq<char>,
    descriptor: PathAssetDescriptor,
    points_fingerprint: u64,
    world_scale_bits: u32,
    overrides_fingerprint: u64,
) -> bool {
    m.contains_key(track_id) && descriptor_eq_spec(m[track_id].descriptor, descriptor)
        && m[track_id].points_fingerprint == points_fingerprint && m[track_id].world_scale_bits
        == world_scale_bits && m[track_id].overrides_fingerprint == overrides_fingerprint
}

impl PathAssetApplied {
    pub closed spec fn wf(&self) -> bool {
        self.applied.wf()
    }

    pub fn new() -> (r: Self)
        ensures
            r.wf(),
            r@ == Map::<Seq<char>, AppliedState>::empty(),
    {
        PathAssetApplied { applied: StrMap::new() }
    }

    /// `true` when these inputs are what was last stamped for the track.
    pub fn matches(
        &self,
        track_id: &str,
        descriptor: &PathAssetDescriptor,
        points_fingerprint: u64,
        world_scale_bits: u32,
        overrides_fingerprint: u64,
    ) -> (r: bool)
        requires
            self.wf(),
        ensures
            r == applied_matches(self@, track_id@, *descriptor, points_fingerprint, world_scale_bits, overrides_fingerprint),
    {
        match self.applied.get(track_id) {
            Some(s) => s.descriptor.same_as(descriptor) && s.points_fingerprint == points_fingerprint
                && s.world_scale_bits == world_scale_bits && s.overrides_fingerprint
                == overrides_fingerprint,
            None => false,
        }
    }

    /// Records the inputs a track was just stamped with.
    pub fn remember(
        &mut self,
        track_id: &str,
        descriptor: PathAssetDescriptor,
        points_fingerprint: u64,
        world_scale_bits: u32,
        overrides_fingerprint: u64,
    )
        requires
            old(self).wf(),
        ensures
            final(self).wf(),
            final(self)@ == old(self)@.insert(
                track_id@,
                AppliedState { descriptor, points_fingerprint, world_scale_bits, overrides_fingerprint },
            ),
    {
        self.applied.insert(
            to_owned_string(track_id),
            AppliedState { descriptor, points_fingerprint, world_scale_bits, overrides_fingerprint },
        );
    }

    /// Forgets one track.
    pub fn invalidate(&mut self, track_id: &str)
        requires
            old(self).wf(),
        ensures
            final(self).wf(),
            final(self)@ == old(self)@.remove(track_id@),
    {
        self.applied.remove(track_id);
    }

    /// Forgets every track.
    pub fn clear(&mut self)
        ensures
            final(self).wf(),
            final(self)@ == Map::<Seq<char>, AppliedState>::empty(),
    {
        self.applied.clear();
    }
}

/// `PathReflow` (a point of a stamped track was deleted): the track's cached
/// stamp inputs and applied record are dropped, so it restamps once its
/// properties are fetched again. Returns the deleted stamp index, if the
/// reflow names one, after which the caller shifts the track's stamp
/// identities down by one.
pub fn apply_path_reflow<Pt>(
    path_id: &str,
    deleted_index: Option<u32>,
    cache: &mut PathAssetCache<Pt>,
    applied: &mut PathAssetApplied,
) -> (r: Option<usize>)
    requires
        old(cache).wf(),
        old(applied).wf(),
    ensures
        final(cache).wf(),
        final(cache)@ == old(cache)@.remove(path_id@),
        final(applied).wf(),
        final(applied)@ == old(applied)@.remove(path_id@),
        r == match deleted_index {
            Some(i) => Some(i as usize),
            None => None::<usize>,
        },
{
    cache.invalidate(path_id);
    applied.invalidate(path_id);
    match deleted_index {
        Some(i) => Some(i as usize),
        None => None,
    }
}

// ---------------------------------------------------------------------------
// Live edits feed the cache
// ---------------------------------------------------------------------------

/// The cache already holds exactly these inputs for `track`.
pub open spec fn cache_holds<Pt>(
    cache: Map<Seq<char>, PathAssetCacheEntry<Pt>>,
    track: Seq<char>,
    petal: Seq<char>,
    descriptor: PathAssetDescriptor,
    fingerprint: u64,
) -> bool {
    &&& cache.contains_key(track)
    &&& cache[track].petal_id@ == petal
    &&& descriptor_eq_spec(cache[track].descriptor, descriptor)
    &&& cache[track].fingerprint == fingerprint
}

/// Feeds the track open in the Paths tab into the cache while it is edited
/// (its live stamp descriptor and points; `point_bits` are the points'
/// coordinates as bit patterns, which the fingerprint is taken over). With a
/// petal open, a track being edited and a descriptor, the track's entry is
/// written when the petal, the descriptor or the fingerprint differ from
/// what the cache holds; otherwise, or without those, the cache is left as
/// it is, so the materializer stays idle. Returns whether it wrote.
pub fn reconcile_path_asset<Pt>(
    active_petal: &Option<String>,
    editing_track_id: &Option<String>,
    descriptor: Option<PathAssetDescriptor>,
    points: Vec<Pt>,
    point_bits: &Vec<[u32; 3]>,
    cache: &mut PathAssetCache<Pt>,
) -> (r: bool)
    requires
        old(cache).wf(),
    ensures
        final(cache).wf(),
        match (*active_petal, *editing_track_id, descriptor) {
            (Some(p), Some(t), Some(d)) => {
                let fp = points_hash(point_bits@) ^ (point_bits@.len() as u64);
                &&& r == !cache_holds(old(cache)@, t@, p@, d, fp)
                &&& r ==> final(cache)@ == old(cache)@.insert(
                    t@,
                    PathAssetCacheEntry { petal_id: final(cache)@[t@].petal_id, descriptor: d, points, fingerprint: fp },
                ) && final(cache)@[t@].petal_id@ == p@
                &&& !r ==> final(cache)@ == old(cache)@
            },
            _ => !r && final(cache)@ == old(cache)@,
        },
{
    let petal = match active_petal {
        Some(p) => p,
        None => {
            return false;
        },
    };
    let track = match editing_track_id {
        Some(t) => t,
        None => {
            return false;
        },
    };
    let d = match descriptor {
        Some(d) => d,
        None => {
            return false;
        },
    };
    let fingerprint = points_fingerprint(point_bits);
    let changed = match cache.get(track.as_str()) {
        Some(e) => !str_eq(e.petal_id.as_str(), petal.as_str()) || !e.descriptor.same_as(&d) || e.fingerprint
            != fingerprint,
        None => true,
    };
    if changed {
        cache.upsert(track.as_str(), petal.as_str(), d, points, fingerprint);
    }
    changed
}

// ---------------------------------------------------------------------------
// One materialization pass
// ---------------------------------------------------------------------------

/// Fingerprint of a track without stamp overrides.
pub open spec fn no_overrides_fingerprint() -> u64 {
    fnv_mix(FNV_OFFSET, 0)
}

/// The overrides fingerprint recorded for a track (none recorded: no
/// overrides).
pub open spec fn track_override_fp(ovs: Map<Seq<char>, u64>, track: Seq<char>) -> u64 {
    if ovs.contains_key(track) {
        ovs[track]
    } else {
        no_overrides_fingerprint()
    }
}

/// Entities of the live stamps that are orphaned, in order.
pub open spec fn orphan_entities<Pt>(
    ex: Seq<(u64, PathAssetInstance)>,
    active: Seq<char>,
    cache: Map<Seq<char>, PathAssetCacheEntry<Pt>>,
) -> Seq<u64>
    decreases ex.len(),
{
    if ex.len() == 0 {
        Seq::empty()
    } else {
        orphan_entities(ex.drop_last(), active, cache) + if orphaned_spec(ex.last().1, active, cache) {
            seq![ex.last().0]
        } else {
            Seq::empty()
        }
    }
}

/// The applied records left after forgetting every orphaned stamp's track.
pub open spec fn without_orphans<Pt>(
    m: Map<Seq<char>, AppliedState>,
    ex: Seq<(u64, PathAssetInstance)>,
    active: Seq<char>,
    cache: Map<Seq<char>, PathAssetCacheEntry<Pt>>,
) -> Map<Seq<char>, AppliedState>
    decreases ex.len(),
{
    if ex.len() == 0 {
        m
    } else if orphaned_spec(ex.last().1, active, cache) {
        without_orphans(m, ex.drop_last(), active, cache).remove(ex.last().1.source_track_id@)
    } else {
        without_orphans(m, ex.drop_last(), active, cache)
    }
}

/// Walk positions of the active petal's cached tracks whose stamp inputs
/// differ from what was last stamped, in walk order.
pub open spec fn restamp_positions<Pt>(
    walk: Seq<(String, PathAssetCacheEntry<Pt>)>,
    active: Seq<char>,
    applied: Map<Seq<char>, AppliedState>,
    world_scale_bits: u32,
    ovs: Map<Seq<char>, u64>,
) -> Seq<int>
    decreases walk.len(),
{
    if walk.len() == 0 {
        Seq::empty()
    } else {
        let (t, e) = walk.last();
        restamp_positions(walk.drop_last(), active, applied, world_scale_bits, ovs) + if e.petal_id@ == active
            && !applied_matches(applied, t@, e.descriptor, e.fingerprint, world_scale_bits, track_override_fp(ovs, t@)) {
            seq![walk.len() - 1]
        } else {
            Seq::empty()
        }
    }
}

/// Entities of the live stamps of `track` in petal `active`, in order.
pub open spec fn group_entities(ex: Seq<(u64, PathAssetInstance)>, track: Seq<char>, active: Seq<char>) -> Seq<u64>
    decreases ex.len(),
{
    if ex.len() == 0 {
        Seq::empty()
    } else {
        group_entities(ex.drop_last(), track, active) + if ex.last().1.source_track_id@ == track
            && ex.last().1.petal_id@ == active {
            seq![ex.last().0]
        } else {
            Seq::empty()
        }
    }
}

/// A track to restamp: its position in the cache walk and the entities of
/// its current stamp group, to despawn first.
pub struct RestampTrack {
    pub walk_index: usize,
    pub group: Vec<u64>,
}

/// What one materialization pass asks for.
pub struct PathAssetPass {
    /// The petal changed: the per-petal pick and instance data is dropped.
    pub clear_render_index: bool,
    /// Orphaned stamps to despawn (their tracks' applied records are gone).
    pub orphans: Vec<u64>,
    /// Tracks to restamp, in walk order.
    pub restamp: Vec<RestampTrack>,
}

fn collect_group(ex: &Vec<(u64, PathAssetInstance)>, track: &str, active: &str) -> (r: Vec<u64>)
    ensures
        r@ == group_entities(ex@, track@, active@),
{
    let mut out: Vec<u64> = Vec::new();
    let mut k: usize = 0;
    while k < ex.len()
        invariant
            k <= ex@.len(),
            out@ == group_entities(ex@.take(k as int), track@, active@),
        decreases ex@.len() - k,
    {
        proof {
            assert(ex@.take(k + 1).drop_last() =~= ex@.take(k as int));
            assert(ex@.take(k + 1).last() == ex@[k as int]);
        }
        if str_eq(ex[k].1.source_track_id.as_str(), track) && str_eq(ex[k].1.petal_id.as_str(), active) {
            out.push(ex[k].0);
        }
        k = k + 1;
    }
    assert(ex@.take(ex@.len() as int) =~= ex@);
    out
}

/// Plans one pass of the petal-wide path-asset materializer. It runs when
/// the cache, the petal map or the stamp overrides changed, or the petal
/// did (the petal is then recorded, and a petal change drops the render
/// index). With a petal open: every live stamp of that petal whose track
/// has no cache entry there is an orphan to despawn, its track's applied
/// record forgotten; then every cached track of the petal whose stamp
/// inputs (descriptor, points, world scale, overrides) differ from the
/// applied record is to be restamped, after despawning its current group.
/// The caller samples each restamped track, takes its stamps from the
/// budget and remembers the new inputs.
pub fn plan_path_asset_pass<Pt>(
    inputs_changed: bool,
    last_petal: &mut Option<String>,
    active_petal: &Option<String>,
    cache: &PathAssetCache<Pt>,
    applied: &mut PathAssetApplied,
    existing: &Vec<(u64, PathAssetInstance)>,
    world_scale_bits: u32,
    override_fps: &StrMap<u64>,
) -> (r: Option<PathAssetPass>)
    requires
        cache.wf(),
        old(applied).wf(),
        override_fps.wf(),
    ensures
        final(applied).wf(),
        ({
            let petal_changed = !same_opt_text(*old(last_petal), *active_petal);
            if !inputs_changed && !petal_changed {
                &&& r is None
                &&& *final(last_petal) == *old(last_petal)
                &&& final(applied)@ == old(applied)@
            } else {
                &&& r matches Some(pass)
                &&& *final(last_petal) == *active_petal
                &&& pass.clear_render_index == petal_changed
                &&& match *active_petal {
                    None => pass.orphans@.len() == 0 && pass.restamp@.len() == 0 && final(applied)@ == old(applied)@,
                    Some(a) => {
                        let positions = restamp_positions(
                            cache.walk(),
                            a@,
                            final(applied)@,
                            world_scale_bits,
                            override_fps@,
                        );
                        &&& pass.orphans@ == orphan_entities(existing@, a@, cache@)
                        &&& final(applied)@ == without_orphans(old(applied)@, existing@, a@, cache@)
                        &&& pass.restamp@.len() == positions.len()
                        &&& forall|j: int|
                            0 <= j < positions.len() ==> (#[trigger] pass.restamp@[j]).walk_index == positions[j]
                                && pass.restamp@[j].group@ == group_entities(
                                existing@,
                                cache.walk()[positions[j]].0@,
                                a@,
                            )
                    },
                }
            }
        }),
{
    let petal_changed = !opt_text_same(last_petal, active_petal);
    if !inputs_changed && !petal_changed {
        return None;
    }
    *last_petal = match active_petal {
        Some(a) => Some(a.clone()),
        None => None,
    };
    let a = match active_petal {
        Some(a) => a,
        None => {
            return Some(PathAssetPass { clear_render_index: petal_changed, orphans: Vec::new(), restamp: Vec::new() });
        },
    };
    let ghost a_view = a@;
    let ghost applied0 = applied@;
    let mut orphans: Vec<u64> = Vec::new();
    let mut k: usize = 0;
    while k < existing.len()
        invariant
            k <= existing@.len(),
            a@ == a_view,
            cache.wf(),
            applied.wf(),
            orphans@ == orphan_entities(existing@.take(k as int), a_view, cache@),
            applied@ == without_orphans(applied0, existing@.take(k as int), a_view, cache@),
        decreases existing@.len() - k,
    {
        proof {
            assert(existing@.take(k + 1).drop_last() =~= existing@.take(k as int));
            assert(existing@.take(k + 1).last() == existing@[k as int]);
        }
        if stamp_is_orphaned(&existing[k].1, a.as_str(), cache) {
            orphans.push(existing[k].0);
            applied.invalidate(existing[k].1.source_track_id.as_str());
        }
        k = k + 1;
    }
    assert(existing@.take(existing@.len() as int) =~= existing@);
    let walk = cache.iter();
    let ghost w = cache.walk();
    let mut restamp: Vec<RestampTrack> = Vec::new();
    let mut i: usize = 0;
    while i < walk.len()
        invariant
            i <= walk@.len(),
            walk@ == w,
            w == cache.walk(),
            a@ == a_view,
            applied.wf(),
            override_fps.wf(),
            restamp@.len() == restamp_positions(w.take(i as int), a_view, applied@, world_scale_bits, override_fps@).len(),
            forall|j: int|
                0 <= j < restamp@.len() ==> (#[trigger] restamp@[j]).walk_index == restamp_positions(
                    w.take(i as int),
                    a_view,
                    applied@,
                    world_scale_bits,
                    override_fps@,
                )[j] && restamp@[j].group@ == group_entities(
                    existing@,
                    w[restamp_positions(w.take(i as int), a_view, applied@, world_scale_bits, override_fps@)[j]].0@,
                    a_view,
                ),
            forall|j: int|
                0 <= j < restamp_positions(w.take(i as int), a_view, applied@, world_scale_bits, override_fps@).len()
                    ==> 0 <= #[trigger] restamp_positions(w.take(i as int), a_view, applied@, world_scale_bits, override_fps@)[j] < i,
        decreases walk@.len() - i,
    {
        let (t, e) = &walk[i];
        let ghost prev = restamp_positions(w.take(i as int), a_view, applied@, world_scale_bits, override_fps@);
        proof {
            assert(w.take(i + 1).drop_last() =~= w.take(i as int));
            assert(w.take(i + 1).last() == w[i as int]);
        }
        if str_eq(e.petal_id.as_str(), a.as_str()) {
            let fp: u64 = match override_fps.get(t.as_str()) {
                Some(v) => *v,
                None => mix(FNV_OFFSET, 0),
            };
            if !applied.matches(t.as_str(), &e.descriptor, e.fingerprint, world_scale_bits, fp) {
                let group = collect_group(existing, t.as_str(), a.as_str());
                restamp.push(RestampTrack { walk_index: i, group });
            }
        }
        proof {
            let cur = restamp_positions(w.take(i + 1), a_view, applied@, world_scale_bits, override_fps@);
            assert forall|j: int| 0 <= j < prev.len() implies cur[j] == prev[j] by {}
        }
        i = i + 1;
    }
    assert(w.take(w.len() as int) =~= w);
    Some(PathAssetPass { clear_render_index: petal_changed, orphans, restamp })
}

/// Law: right after a track's inputs are remembered, the same inputs match
/// (no restamp) as long as the spacing is not NaN; after the track is
/// invalidated, nothing matches (it restamps).
pub proof fn law_applied_gate(
    m: Map<Seq<char>, AppliedState>,
    track_id: Seq<char>,
    d: PathAssetDescriptor,
    pf: u64,
    ws: u32,
    of: u64,
)
    ensures
        !f32_is_nan(d.spacing_value_bits) ==> applied_matches(
            m.insert(track_id, AppliedState { descriptor: d, points_fingerprint: pf, world_scale_bits: ws, overrides_fingerprint: of }),
            track_id,
            d,
            pf,
            ws,
            of,
        ),
        !applied_matches(m.remove(track_id), track_id, d, pf, ws, of),
{
}


/// Law: descriptors compare equal only when every stamping input agrees —
/// the asset, the spacing mode, the stamp count, the tangent alignment, and
/// the spacing as an `f32` (the same bit pattern, or both zeros, never NaN);
/// and whenever all of these agree they compare equal. So changing any one
/// of them (the count among them) makes the applied gate restamp the track.
pub proof fn law_descriptor_equality_is_fieldwise(a: PathAssetDescriptor, b: PathAssetDescriptor)
    ensures
        descriptor_eq_spec(a, b) ==> {
            &&& a.asset_path@ == b.asset_path@
            &&& a.spacing_mode == b.spacing_mode
            &&& a.count == b.count
            &&& a.tangent_align == b.tangent_align
            &&& (a.spacing_value_bits & 0x7f80_0000u32 != 0x7f80_0000u32 || a.spacing_value_bits & 0x007f_ffffu32 == 0)
            &&& (a.spacing_value_bits == b.spacing_value_bits || (a.spacing_value_bits & 0x7fff_ffffu32 == 0
                && b.spacing_value_bits & 0x7fff_ffffu32 == 0))
        },
        (a.asset_path@ == b.asset_path@ && a.spacing_mode == b.spacing_mode && a.count == b.count
            && a.tangent_align == b.tangent_align && a.spacing_value_bits == b.spacing_value_bits
            && (a.spacing_value_bits & 0x7f80_0000u32 != 0x7f80_0000u32 || a.spacing_value_bits & 0x007f_ffffu32 == 0))
            ==> descriptor_eq_spec(a, b),
{
}

/// Law: the applied gate reports a track unchanged only when the stored
/// descriptor has the same count, asset, spacing mode and alignment as the
/// one offered, so a changed stamp count always restamps.
pub proof fn law_applied_gate_sees_every_descriptor_field(
    m: Map<Seq<char>, AppliedState>,
    track_id: Seq<char>,
    d: PathAssetDescriptor,
    pf: u64,
    ws: u32,
    of: u64,
)
    ensures
        applied_matches(m, track_id, d, pf, ws, of) ==> {
            &&& m.contains_key(track_id)
            &&& m[track_id].descriptor.count == d.count
            &&& m[track_id].descriptor.asset_path@ == d.asset_path@
            &&& m[track_id].descriptor.spacing_mode == d.spacing_mode
            &&& m[track_id].descriptor.tangent_align == d.tangent_align
            &&& m[track_id].points_fingerprint == pf
            &&& m[track_id].world_scale_bits == ws
            &&& m[track_id].overrides_fingerprint == of
        },
{
    law_descriptor_equality_is_fieldwise(m[track_id].descriptor, d);
}

/// Law: a glTF or GLB asset without a `#` label loads its first scene
/// (`#Scene0` appended); a labelled path and any other file pass through
/// unchanged.
pub proof fn law_scene_path_labels_unlabelled_gltf(p: Seq<char>)
    ensures
        p.len() >= 4 && p.subrange(p.len() - 4, p.len() as int) == ".glb"@ && !seq_has_char(p, '#')
            ==> scene_asset_path_spec(p) == p + "#Scene0"@,
        p.len() >= 5 && p.subrange(p.len() - 5, p.len() as int) == ".gltf"@ && !seq_has_char(p, '#')
            ==> scene_asset_path_spec(p) == p + "#Scene0"@,
        seq_has_char(p, '#') ==> scene_asset_path_spec(p) == p,
        !(p.len() >= 4 && p.subrange(p.len() - 4, p.len() as int) == ".glb"@) && !(p.len() >= 5 && p.subrange(
            p.len() - 5,
            p.len() as int,
        ) == ".gltf"@) ==> scene_asset_path_spec(p) == p,
{
}

} // verus!
