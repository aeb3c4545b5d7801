//! Commands the webview's script side can invoke.
//!
//! Most are acknowledgements that the rest of the engine does not consume
//! yet. The asset directories are computed from the application data
//! directory, which the caller looks up, and a served asset must resolve
//! inside its petal's asset directory.

use vstd::prelude::*;

use crate::text::{contains_char, push_str, seq_has_char, str_eq, to_owned_string};

verus! {

/// `base` joined with the relative name `child` by std's path rules, for a
/// `base` without `?` (so without a verbatim `\\?\` prefix): `child` alone
/// when `base` is empty; `base + child` when `base` ends in `/`; otherwise
/// `child` after `base` with at most one separator, `/` or `\\` (which of
/// these, and whether one is put, is the platform's rule).
pub open spec fn joined_path(r: Seq<char>, base: Seq<char>, child: Seq<char>) -> bool {
    if base.len() == 0 {
        r == child
    } else if base.last() == '/' {
        r == base + child
    } else {
        r == base + child || r == base.push('/') + child || r == base.push('\\') + child
    }
}

/// A single normal path component: not empty, not `.` or `..`, and free of
/// `/`, `\\` and `:` (no separator and no drive prefix on any platform) and
/// of `?`, which no Windows file name may hold.
pub open spec fn is_normal_component(c: Seq<char>) -> bool {
    &&& c.len() > 0
    &&& c != "."@
    &&& c != ".."@
    &&& !seq_has_char(c, '/')
    &&& !seq_has_char(c, '\\')
    &&& !seq_has_char(c, ':')
    &&& !seq_has_char(c, '?')
}

/// Whether `c` is a single normal path component.
pub fn is_normal_path_component(c: &str) -> (r: bool)
    ensures
        r == is_normal_component(c@),
{
    proof {
        reveal_strlit(".");
        reveal_strlit("..");
    }
    c.unicode_len() > 0 && !str_eq(c, ".") && !str_eq(c, "..") && !contains_char(c, '/') && !contains_char(
        c,
        '\\',
    ) && !contains_char(c, ':') && !contains_char(c, '?')
}

/// `std::path::Path::join` followed by a lossless conversion back to text
/// (both inputs are UTF-8). Pushing one normal component (see
/// [`is_normal_component`]) onto a path that holds no `?`, and so has no
/// verbatim prefix, appends the component, a separator being put between
/// them when the path is not empty and does not already end in one (and,
/// on Windows, is not a bare drive such as `C:`). The contract claims that
/// shape only when `base` holds no `?`: onto a verbatim path std rebuilds
/// the path from its components, which is left unstated.
#[verifier::external_body]
fn join_path(base: &str, child: &str) -> (r: String)
    requires
        is_normal_component(child@),
    ensures
        !seq_has_char(base@, '?') ==> joined_path(r@, base@, child@),
{
    std::path::Path::new(base).join(child).to_string_lossy().into_owned()
}

/// Joining `?`-free parts gives a `?`-free path.
proof fn lemma_join_keeps_out(r: Seq<char>, base: Seq<char>, child: Seq<char>, c: char)
    requires
        joined_path(r, base, child),
        !seq_has_char(base, c),
        !seq_has_char(child, c),
        c != '/',
        c != '\\',
    ensures
        !seq_has_char(r, c),
{
    if seq_has_char(r, c) {
        let i = choose|i: int| 0 <= i < r.len() && r[i] == c;
        if base.len() == 0 {
        } else if r == base + child {
            if i < base.len() {
                assert(base[i] == c);
            } else {
                assert(child[i - base.len()] == c);
            }
        } else {
            if i < base.len() {
                assert(base[i] == c);
            } else if i > base.len() {
                assert(child[i - base.len() - 1] == c);
            }
        }
    }
}

/// The error reported when the data directory cannot be found.
pub open spec fn data_dir_error(reason: Seq<char>) -> Seq<char> {
    "Failed to get app data directory: "@ + reason
}

/// The directory assets are served from: the application data directory
/// (`Ok`) joined with `verses`; when the data directory could not be found
/// (`Err(reason)`), an error naming the reason.
pub fn get_asset_base_url(data_dir: Result<String, String>) -> (r: Result<String, String>)
    ensures
        data_dir is Ok ==> r is Ok,
        data_dir matches Ok(d) ==> (!seq_has_char(d@, '?') ==> (r matches Ok(p) && joined_path(p@, d@, "verses"@))),
        data_dir matches Err(e) ==> (r matches Err(m) && m@ == data_dir_error(e@)),
{
    match data_dir {
        Ok(d) => {
            proof {
                lemma_fixed_components();
            }
            Ok(join_path(d.as_str(), "verses"))
        },
        Err(e) => {
            let mut m = to_owned_string("Failed to get app data directory: ");
            push_str(&mut m, e.as_str());
            Err(m)
        },
    }
}

/// The fixed directory names are normal components.
proof fn lemma_fixed_components()
    ensures
        is_normal_component("verses"@),
        is_normal_component("assets"@),
{
    reveal_strlit("verses");
    reveal_strlit("assets");
    reveal_strlit(".");
    reveal_strlit("..");
    assert("verses"@.len() != "."@.len() && "verses"@.len() != ".."@.len());
    assert("assets"@.len() != "."@.len() && "assets"@.len() != ".."@.len());
}

/// The directory a petal's assets live in:
/// `<data dir>/verses/<petal id>/assets`, each part joined by std's path
/// rules. The petal id must be one normal component, so that it can name
/// no other directory.
pub fn asset_dir(data_dir: &str, petal_id: &str) -> (r: String)
    requires
        is_normal_component(petal_id@),
    ensures
        !seq_has_char(data_dir@, '?') ==> exists|verses: Seq<char>, petal: Seq<char>|
            {
                &&& joined_path(verses, data_dir@, "verses"@)
                &&& joined_path(petal, verses, petal_id@)
                &&& joined_path(r@, petal, "assets"@)
            },
{
    proof {
        lemma_fixed_components();
    }
    let verses = join_path(data_dir, "verses");
    proof {
        if !seq_has_char(data_dir@, '?') {
            lemma_join_keeps_out(verses@, data_dir@, "verses"@, '?');
        }
    }
    let petal = join_path(verses.as_str(), petal_id);
    proof {
        if !seq_has_char(data_dir@, '?') {
            lemma_join_keeps_out(petal@, verses@, petal_id@, '?');
        }
    }
    join_path(petal.as_str(), "assets")
}

// ---------------------------------------------------------------------------
// Asset path containment
// ---------------------------------------------------------------------------

/// `std::path::Path::starts_with`: whether `base`'s components are a prefix
/// of `path`'s, by the platform's own path rules (separators and prefixes
/// differ between platforms, so the result is not named). The contract
/// claims only what holds on every platform: a path starts with itself.
#[verifier::external_body]
fn path_starts_with(path: &str, base: &str) -> (r: bool)
    ensures
        path@ == base@ ==> r,
{
    std::path::Path::new(path).starts_with(base)
}

/// The error of an asset that resolves outside its petal's directory.
pub open spec fn traversal_blocked_message() -> Seq<char> {
    "Path traversal blocked"@
}

/// The verdict on a resolved asset path: allowed when it lies inside the
/// asset directory, otherwise refused as a traversal.
pub fn containment_verdict(inside: bool) -> (r: Result<(), String>)
    ensures
        r is Ok <==> inside,
        r matches Err(m) ==> m@ == traversal_blocked_message(),
{
    if inside {
        Ok(())
    } else {
        Err(to_owned_string("Path traversal blocked"))
    }
}

/// Path-traversal protection for served assets: the canonical path the
/// asset resolved to must lie inside the canonical asset directory (std's
/// `Path::starts_with`), else the traversal error. The directory itself
/// always passes.
pub fn check_asset_containment(canonical_base: &str, canonical_resolved: &str) -> (r: Result<(), String>)
    ensures
        r is Ok || (r matches Err(m) && m@ == traversal_blocked_message()),
        canonical_resolved@ == canonical_base@ ==> r is Ok,
{
    containment_verdict(path_starts_with(canonical_resolved, canonical_base))
}

/// Acknowledges a node URL change sent from the webview; nothing is stored
/// yet.
pub fn update_node_url(node_id: String, url: String) -> (r: Result<(), String>)
    ensures
        r is Ok,
{
    Ok(())
}

/// A petal as listed to the webview.
#[derive(Debug, Clone)]
pub struct PetalInfo {
    pub petal_id: String,
    pub name: String,
    pub node_count: usize,
}

/// The petals offered to the webview: none are listed yet.
pub fn list_petals() -> (r: Result<Vec<PetalInfo>, String>)
    ensures
        r matches Ok(v) && v@.len() == 0,
{
    Ok(Vec::new())
}

} // verus!
