//! Downloading a node's asset out of the local blob store: resolving the
//! node's `blob://{hash}.{ext}` reference, choosing a safe file name to
//! suggest, and what the download status shows afterwards.
//!
//! Looking the hash up in the blob store, the save dialog and the copy are
//! the caller's; they take the hash this module extracts, never a path built
//! from user input.

use vstd::prelude::*;

use crate::hierarchy::{tree_nodes, NodeEntry, VerseManager};
use crate::text::{push_char, push_str, seq_has_char, starts_with, str_eq, to_owned_string, contains_char};

verus! {

// ---------------------------------------------------------------------------
// blob:// references
// ---------------------------------------------------------------------------

/// The reference with a leading `blob://` removed (if there is one).
pub open spec fn blob_rest(uri: Seq<char>) -> Seq<char> {
    if uri.len() >= 7 && uri.subrange(0, 7) == "blob://"@ {
        uri.skip(7)
    } else {
        uri
    }
}

/// Index of the last `c` in `s`, or -1.
pub open spec fn last_index_of(s: Seq<char>, c: char) -> int {
    if exists|i: int| 0 <= i < s.len() && s[i] == c {
        choose|i: int| 0 <= i < s.len() && s[i] == c && forall|j: int| i < j < s.len() ==> s[j] != c
    } else {
        -1
    }
}

proof fn lemma_last_index(s: Seq<char>, c: char, k: int)
    requires
        0 <= k < s.len(),
        s[k] == c,
        forall|j: int| k < j < s.len() ==> s[j] != c,
    ensures
        last_index_of(s, c) == k,
{
    assert(0 <= k < s.len() && s[k] == c && forall|j: int| k < j < s.len() ==> s[j] != c);
    let d = last_index_of(s, c);
    if d < k {
        assert(s[k] != c);
    } else if d > k {
        assert(s[d] != c);
    }
}

/// What a blob reference splits into: `(hash, extension)`, split at the
/// last dot (empty extension when there is none); refused when empty or
/// holding a path separator.
pub open spec fn parse_blob_uri_spec(uri: Seq<char>) -> Result<(Seq<char>, Seq<char>), Seq<char>> {
    let rest = blob_rest(uri);
    if rest.len() == 0 || seq_has_char(rest, '/') || seq_has_char(rest, '\\') {
        Err("malformed blob uri: "@ + uri)
    } else {
        let d = last_index_of(rest, '.');
        if d < 0 {
            Ok((rest, Seq::empty()))
        } else {
            Ok((rest.subrange(0, d), rest.subrange(d + 1, rest.len() as int)))
        }
    }
}

/// Splits a `blob://{hash}.{ext}` reference into `(hash, ext)`.
pub fn parse_blob_uri(uri: &str) -> (r: Result<(String, String), String>)
    ensures
        r matches Ok((h, e)) ==> parse_blob_uri_spec(uri@) == Ok::<(Seq<char>, Seq<char>), Seq<char>>((h@, e@)),
        r matches Err(m) ==> parse_blob_uri_spec(uri@) == Err::<(Seq<char>, Seq<char>), Seq<char>>(m@),
{
    proof {
        reveal_strlit("blob://");
    }
    let n: usize = uri.unicode_len();
    let rest: &str = if starts_with(uri, "blob://") {
        uri.substring_char(7, n)
    } else {
        uri
    };
    assert(rest@ == blob_rest(uri@));
    let m: usize = rest.unicode_len();
    if m == 0 || contains_char(rest, '/') || contains_char(rest, '\\') {
        let mut msg = to_owned_string("malformed blob uri: ");
        push_str(&mut msg, uri);
        return Err(msg);
    }
    let mut i: usize = m;
    while i > 0
        invariant
            m == rest@.len(),
            m > 0,
            rest@ == blob_rest(uri@),
            !seq_has_char(rest@, '/'),
            !seq_has_char(rest@, '\\'),
            i <= m,
            forall|j: int| i <= j < m ==> rest@[j] != '.',
        decreases i,
    {
        if rest.get_char(i - 1) == '.' {
            proof {
                lemma_last_index(rest@, '.', i - 1);
            }
            let stem = rest.substring_char(0, i - 1);
            let ext = rest.substring_char(i, m);
            return Ok((to_owned_string(stem), to_owned_string(ext)));
        }
        i = i - 1;
    }
    proof {
        assert(last_index_of(rest@, '.') == -1);
    }
    Ok((to_owned_string(rest), String::new()))
}

// ---------------------------------------------------------------------------
// Suggested file names
// ---------------------------------------------------------------------------

/// Characters a file name must not carry.
pub open spec fn is_unsafe_name_char(c: char) -> bool {
    c == '/' || c == '\\' || c == ':' || c == '*' || c == '?' || c == '"' || c == '<' || c == '>' || c == '|'
}

/// `char::is_control`: the Unicode control characters (general category Cc).
pub open spec fn is_control_char(c: char) -> bool {
    (c as u32) <= 0x1f || (0x7f <= (c as u32) && (c as u32) <= 0x9f)
}

/// `char::is_whitespace`: the Unicode `White_Space` characters.
pub open spec fn is_white_space(c: char) -> bool {
    let u: u32 = c as u32;
    (0x09 <= u && u <= 0x0d) || u == 0x20 || u == 0x85 || u == 0xa0 || u == 0x1680 || (0x2000 <= u && u
        <= 0x200a) || u == 0x2028 || u == 0x2029 || u == 0x202f || u == 0x205f || u == 0x3000
}

fn white_space(c: char) -> (r: bool)
    ensures
        r == is_white_space(c),
{
    let u: u32 = c as u32;
    (0x09 <= u && u <= 0x0d) || u == 0x20 || u == 0x85 || u == 0xa0 || u == 0x1680 || (0x2000 <= u && u
        <= 0x200a) || u == 0x2028 || u == 0x2029 || u == 0x202f || u == 0x205f || u == 0x3000
}

/// The character a node-name character becomes in a file name.
pub open spec fn safe_char(c: char) -> char {
    if is_unsafe_name_char(c) || is_control_char(c) {
        '_'
    } else {
        c
    }
}

/// `s` with every character made safe.
pub open spec fn sanitize_chars(s: Seq<char>) -> Seq<char> {
    s.map_values(|c: char| safe_char(c))
}

/// `s` with leading characters satisfying `p` removed.
pub open spec fn trim_start_by(s: Seq<char>, p: spec_fn(char) -> bool) -> Seq<char>
    decreases s.len(),
{
    if s.len() > 0 && p(s[0]) {
        trim_start_by(s.skip(1), p)
    } else {
        s
    }
}

/// `s` with trailing characters satisfying `p` removed.
pub open spec fn trim_end_by(s: Seq<char>, p: spec_fn(char) -> bool) -> Seq<char>
    decreases s.len(),
{
    if s.len() > 0 && p(s.last()) {
        trim_end_by(s.drop_last(), p)
    } else {
        s
    }
}

/// `s` with leading and trailing characters satisfying `p` removed.
pub open spec fn trim_by(s: Seq<char>, p: spec_fn(char) -> bool) -> Seq<char> {
    trim_end_by(trim_start_by(s, p), p)
}

/// `str::trim`.
pub open spec fn trim_ws(s: Seq<char>) -> Seq<char> {
    trim_by(s, |c: char| is_white_space(c))
}

/// `str::trim_matches('.')`.
pub open spec fn trim_dots(s: Seq<char>) -> Seq<char> {
    trim_by(s, |c: char| c == '.')
}

/// The file name suggested for a node's asset: the node name made safe
/// and trimmed of blanks and dots, or the hash when nothing is left; then
/// `.ext` unless the extension is empty.
pub open spec fn sanitized_file_name_spec(node_name: Seq<char>, hash_hex: Seq<char>, ext: Seq<char>) -> Seq<char> {
    let trimmed = trim_ws(trim_dots(trim_ws(sanitize_chars(node_name))));
    let base = if trimmed.len() == 0 { hash_hex } else { trimmed };
    if ext.len() == 0 {
        base
    } else {
        base + "."@ + ext
    }
}

/// `trim_start_by(s, p)` is `s` from the first character not satisfying `p`.
proof fn lemma_trim_start(s: Seq<char>, p: spec_fn(char) -> bool, k: int)
    requires
        0 <= k <= s.len(),
        forall|j: int| 0 <= j < k ==> p(#[trigger] s[j]),
        k == s.len() || !p(s[k]),
    ensures
        trim_start_by(s, p) == s.skip(k),
    decreases k,
{
    if k > 0 {
        assert(p(s[0]));
        assert forall|j: int| 0 <= j < k - 1 implies p(#[trigger] s.skip(1)[j]) by {
            assert(s.skip(1)[j] == s[j + 1]);
        }
        if k < s.len() {
            assert(s.skip(1)[k - 1] == s[k]);
        }
        lemma_trim_start(s.skip(1), p, k - 1);
        assert(s.skip(1).skip(k - 1) =~= s.skip(k));
    } else {
        assert(s.skip(0) =~= s);
    }
}

/// `trim_end_by(s, p)` is `s` up to just after the last character not
/// satisfying `p`.
proof fn lemma_trim_end(s: Seq<char>, p: spec_fn(char) -> bool, k: int)
    requires
        0 <= k <= s.len(),
        forall|j: int| k <= j < s.len() ==> p(#[trigger] s[j]),
        k == 0 || !p(s[k - 1]),
    ensures
        trim_end_by(s, p) == s.take(k),
    decreases s.len() - k,
{
    if k < s.len() {
        assert(p(s.last()));
        assert forall|j: int| k <= j < s.drop_last().len() implies p(#[trigger] s.drop_last()[j]) by {
            assert(s.drop_last()[j] == s[j]);
        }
        if k > 0 {
            assert(s.drop_last()[k - 1] == s[k - 1]);
        }
        lemma_trim_end(s.drop_last(), p, k);
        assert(s.drop_last().take(k) =~= s.take(k));
    } else {
        assert(s.take(k) =~= s);
    }
}

fn trimmed_char(c: char, dots: bool) -> (r: bool)
    ensures
        r == (if dots { c == '.' } else { is_white_space(c) }),
{
    if dots { c == '.' } else { white_space(c) }
}

/// Trims blanks (`dots == false`) or dots (`dots == true`) from both ends.
fn trim_chars(s: &Vec<char>, dots: bool) -> (r: Vec<char>)
    ensures
        dots ==> r@ == trim_dots(s@),
        !dots ==> r@ == trim_ws(s@),
{
    let ghost p: spec_fn(char) -> bool = if dots { |c: char| c == '.' } else { |c: char| is_white_space(c) };
    let n: usize = s.len();
    let mut lo: usize = 0;
    while lo < n && trimmed_char(s[lo], dots)
        invariant
            n == s@.len(),
            lo <= n,
            forall|j: int| 0 <= j < lo ==> p(#[trigger] s@[j]),
            p == (if dots { |c: char| c == '.' } else { |c: char| is_white_space(c) }),
        decreases n - lo,
    {
        lo = lo + 1;
    }
    proof {
        lemma_trim_start(s@, p, lo as int);
    }
    let ghost t = s@.skip(lo as int);
    let mut hi: usize = n;
    while hi > lo && trimmed_char(s[hi - 1], dots)
        invariant
            n == s@.len(),
            lo <= hi <= n,
            t == s@.skip(lo as int),
            forall|j: int| hi <= j < n ==> p(#[trigger] s@[j]),
            p == (if dots { |c: char| c == '.' } else { |c: char| is_white_space(c) }),
        decreases hi - lo,
    {
        hi = hi - 1;
    }
    proof {
        assert forall|j: int| hi - lo <= j < t.len() implies p(#[trigger] t[j]) by {
            assert(t[j] == s@[j + lo]);
        }
        if hi > lo {
            assert(t[hi - lo - 1] == s@[hi - 1]);
        }
        lemma_trim_end(t, p, hi - lo);
    }
    let mut r: Vec<char> = Vec::new();
    let mut i: usize = lo;
    while i < hi
        invariant
            lo <= i <= hi,
            hi <= n,
            n == s@.len(),
            r@ == s@.subrange(lo as int, i as int),
        decreases hi - i,
    {
        r.push(s[i]);
        proof {
            assert(s@.subrange(lo as int, i + 1) =~= s@.subrange(lo as int, i as int).push(s@[i as int]));
        }
        i = i + 1;
    }
    proof {
        assert(t.take(hi - lo) =~= s@.subrange(lo as int, hi as int));
    }
    r
}

/// A safe destination file name for a node's asset: separators and control
/// characters in the node name become `_`, blanks and dots are trimmed from
/// both ends, the hash stands in for an empty name, and `.ext` follows unless
/// the extension is empty.
pub fn sanitized_file_name(node_name: &str, hash_hex: &str, ext: &str) -> (r: String)
    ensures
        r@ == sanitized_file_name_spec(node_name@, hash_hex@, ext@),
{
    let n: usize = node_name.unicode_len();
    let mut mapped: Vec<char> = Vec::new();
    let mut i: usize = 0;
    while i < n
        invariant
            n == node_name@.len(),
            i <= n,
            mapped@ == sanitize_chars(node_name@.take(i as int)),
        decreases n - i,
    {
        let c = node_name.get_char(i);
        let u: u32 = c as u32;
        let bad = c == '/' || c == '\\' || c == ':' || c == '*' || c == '?' || c == '"' || c == '<' || c
            == '>' || c == '|' || u <= 0x1f || (0x7f <= u && u <= 0x9f);
        mapped.push(if bad { '_' } else { c });
        proof {
            assert(sanitize_chars(node_name@.take(i + 1)) =~= sanitize_chars(node_name@.take(i as int)).push(
                safe_char(c),
            ));
        }
        i = i + 1;
    }
    proof {
        assert(node_name@.take(n as int) =~= node_name@);
    }
    let t1 = trim_chars(&mapped, false);
    let t2 = trim_chars(&t1, true);
    let t3 = trim_chars(&t2, false);
    let mut r = String::new();
    if t3.len() == 0 {
        push_str(&mut r, hash_hex);
    } else {
        let mut k: usize = 0;
        while k < t3.len()
            invariant
                k <= t3@.len(),
                r@ == t3@.take(k as int),
            decreases t3@.len() - k,
        {
            push_char(&mut r, t3[k]);
            proof {
                assert(t3@.take(k + 1) =~= t3@.take(k as int).push(t3@[k as int]));
            }
            k = k + 1;
        }
        proof {
            assert(t3@.take(t3@.len() as int) =~= t3@);
        }
    }
    if ext.unicode_len() > 0 {
        push_char(&mut r, '.');
        push_str(&mut r, ext);
        proof {
            reveal_strlit(".");
        }
    }
    r
}

/// Law: a suggested file name never holds a path separator or a control
/// character coming from the node name.
pub proof fn law_sanitized_name_has_no_separator(s: Seq<char>, i: int)
    requires
        0 <= i < sanitize_chars(s).len(),
    ensures
        sanitize_chars(s)[i] != '/',
        sanitize_chars(s)[i] != '\\',
        !is_control_char(sanitize_chars(s)[i]),
{
}

/// Law: cleaning keeps the length and puts `_` exactly where the name held
/// a character that file systems refuse — one of `/ \\ : * ? " < > |` or a
/// control character (code points up to `0x1f` and `0x7f`..=`0x9f`) — and
/// keeps every other character as it was. No refused character survives.
pub proof fn law_sanitize_replaces_exactly_the_refused_characters(s: Seq<char>, i: int)
    requires
        0 <= i < s.len(),
    ensures
        sanitize_chars(s).len() == s.len(),
        ({
            let c = s[i];
            let refused = c == '/' || c == '\\' || c == ':' || c == '*' || c == '?' || c == '"' || c == '<'
                || c == '>' || c == '|' || (c as u32) <= 0x1f || (0x7f <= (c as u32) && (c as u32) <= 0x9f);
            &&& refused ==> sanitize_chars(s)[i] == '_'
            &&& !refused ==> sanitize_chars(s)[i] == c
        }),
        ({
            let d = sanitize_chars(s)[i];
            &&& d != '/' && d != '\\' && d != ':' && d != '*' && d != '?'
            &&& d != '"' && d != '<' && d != '>' && d != '|'
            &&& !((d as u32) <= 0x1f || (0x7f <= (d as u32) && (d as u32) <= 0x9f))
        }),
{
}

// ---------------------------------------------------------------------------
// Resolving a node's asset
// ---------------------------------------------------------------------------

/// Where a node's asset comes from and the name to suggest for it.
#[derive(Debug, Clone)]
pub struct AssetSource {
    pub hash_hex: String,
    pub ext: String,
    pub suggested_name: String,
}

/// Index of the first node of `nodes` with id `id`, or -1.
pub open spec fn first_node_with_id<P>(nodes: Seq<NodeEntry<P>>, id: Seq<char>) -> int {
    if exists|i: int| 0 <= i < nodes.len() && nodes[i].id@ == id {
        choose|i: int| 0 <= i < nodes.len() && nodes[i].id@ == id && forall|j: int| 0 <= j < i ==> nodes[j].id@ != id
    } else {
        -1
    }
}

/// The asset path of a node, when it has a non-empty one.
pub open spec fn usable_asset_path<P>(n: NodeEntry<P>) -> Option<Seq<char>> {
    match n.asset_path {
        Some(p) => if p@.len() > 0 { Some(p@) } else { None },
        None => None,
    }
}

/// The outcome of resolving node `id`'s asset in the tree `vs`, up to the
/// blob-store lookup.
pub open spec fn resolve_asset_spec<P>(vs: Seq<crate::hierarchy::VerseEntry<P>>, id: Seq<char>) -> Result<(Seq<char>, Seq<char>, Seq<char>), Seq<char>> {
    let nodes = tree_nodes(vs);
    let k = first_node_with_id(nodes, id);
    if k < 0 {
        Err("node not found"@)
    } else {
        let node = nodes[k];
        match usable_asset_path(node) {
            None => if node.has_asset {
                Err("Asset is not cached locally yet — reopen this node or re-sync to fetch it"@)
            } else {
                Err("This node has no asset"@)
            },
            Some(p) => match parse_blob_uri_spec(p) {
                Err(m) => Err(m),
                Ok((h, e)) => Ok((h, e, sanitized_file_name_spec(node.name@, h, e))),
            },
        }
    }
}

/// Resolves node `node_id`'s asset to the blob hash to look up and the file
/// name to suggest. A node found with a cached `blob://` path resolves; a
/// node with `has_asset` but no cached path, a node without asset, an
/// unknown node and a malformed reference each give their own error.
pub fn resolve_asset<P>(verse_mgr: &VerseManager<P>, node_id: &str) -> (r: Result<AssetSource, String>)
    ensures
        r matches Ok(a) ==> resolve_asset_spec(verse_mgr.verses@, node_id@) == Ok::<(Seq<char>, Seq<char>, Seq<char>), Seq<char>>((a.hash_hex@, a.ext@, a.suggested_name@)),
        r matches Err(m) ==> resolve_asset_spec(verse_mgr.verses@, node_id@) == Err::<(Seq<char>, Seq<char>, Seq<char>), Seq<char>>(m@),
{
    let nodes = verse_mgr.all_nodes();
    let ghost all = tree_nodes(verse_mgr.verses@);
    let mut i: usize = 0;
    while i < nodes.len()
        invariant
            crate::hierarchy::refs_are(nodes@, all),
            all == tree_nodes(verse_mgr.verses@),
            i <= nodes@.len(),
            forall|j: int| 0 <= j < i ==> all[j].id@ != node_id@,
        decreases nodes@.len() - i,
    {
        let node: &NodeEntry<P> = nodes[i];
        if str_eq(node.id.as_str(), node_id) {
            proof {
                assert(*nodes@[i as int] == all[i as int]);
                let k = first_node_with_id(all, node_id@);
                assert(all[i as int].id@ == node_id@);
                if k != i {
                    assert(all[k].id@ == node_id@);
                }
            }
            let path: Option<&String> = match &node.asset_path {
                Some(p) => if p.unicode_len() > 0 { Some(p) } else { None },
                None => None,
            };
            match path {
                None => {
                    if node.has_asset {
                        return Err(to_owned_string("Asset is not cached locally yet — reopen this node or re-sync to fetch it"));
                    } else {
                        return Err(to_owned_string("This node has no asset"));
                    }
                },
                Some(p) => {
                    match parse_blob_uri(p.as_str()) {
                        Err(m) => return Err(m),
                        Ok((h, e)) => {
                            let name = sanitized_file_name(node.name.as_str(), h.as_str(), e.as_str());
                            return Ok(AssetSource { hash_hex: h, ext: e, suggested_name: name });
                        },
                    }
                },
            }
        }
        proof {
            assert(*nodes@[i as int] == all[i as int]);
        }
        i = i + 1;
    }
    Err(to_owned_string("node not found"))
}

// ---------------------------------------------------------------------------
// Download status
// ---------------------------------------------------------------------------

/// What the UI shows about the last download.
#[derive(Debug, Clone)]
pub struct AssetDownloadStatus {
    pub node_id: Option<String>,
    pub saved_path: Option<String>,
    pub error: Option<String>,
}

/// How a download ended.
#[derive(Debug, Clone)]
pub enum DownloadOutcome {
    /// Copied to this path.
    Saved(String),
    /// Resolving or copying failed with this message.
    Failed(String),
    /// The user cancelled the save dialog.
    Cancelled,
}

/// The status after a download of `node_id` ends: a saved path or an error
/// is shown for that node; a cancelled dialog changes nothing (`None`).
pub fn status_after(node_id: String, outcome: DownloadOutcome) -> (r: Option<AssetDownloadStatus>)
    ensures
        outcome matches DownloadOutcome::Saved(p) ==> (r matches Some(s) && s.node_id == Some(node_id)
            && s.saved_path == Some(p) && s.error is None),
        outcome matches DownloadOutcome::Failed(e) ==> (r matches Some(s) && s.node_id == Some(node_id)
            && s.saved_path is None && s.error == Some(e)),
        outcome is Cancelled ==> r is None,
{
    match outcome {
        DownloadOutcome::Saved(p) => Some(AssetDownloadStatus { node_id: Some(node_id), saved_path: Some(p), error: None }),
        DownloadOutcome::Failed(e) => Some(AssetDownloadStatus { node_id: Some(node_id), saved_path: None, error: Some(e) }),
        DownloadOutcome::Cancelled => None,
    }
}

} // verus!
