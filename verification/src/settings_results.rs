//! Database results that fill the entity-settings dialog and the inspector:
//! API tokens (minted, revoked, listed), peer roles, scoped invite links and
//! field definitions. A result for the dialog only lands while that dialog
//! is open; the inspector always takes it.

use vstd::prelude::*;

use crate::db_routing::InspectorFormState;
use crate::text::{clone_opt_text, str_eq, to_owned_string};

verus! {

/// An API token as the store lists it.
#[derive(Debug, Clone)]
pub struct ApiTokenInfo {
    pub jti: String,
    pub scope: String,
    pub max_role: String,
    pub label: Option<String>,
    pub created_at: String,
    pub expires_at: String,
    pub revoked: bool,
    pub sub: String,
}

/// An API token as the UI lists it.
#[derive(Debug, Clone)]
pub struct ApiTokenEntry {
    pub jti: String,
    pub scope: String,
    pub max_role: String,
    pub label: Option<String>,
    pub created_at: String,
    pub expires_at: String,
    pub revoked: bool,
    pub sub: String,
}

/// A field definition as the store lists it.
#[derive(Debug, Clone)]
pub struct FieldDefInfo {
    pub field_def_id: String,
    pub scope: String,
    pub entity_type: String,
    pub key: String,
    pub value_type: String,
    pub default_val: Option<String>,
    pub created_by: String,
    pub created_at: String,
}

/// A field definition as the inspector shows it.
#[derive(Debug, Clone)]
pub struct FieldDefEntry {
    pub field_def_id: String,
    pub key: String,
    pub value_type: String,
    pub description: String,
    pub required: bool,
    pub default_val: Option<String>,
}

/// A peer and its role at the dialog's scope.
#[derive(Debug, Clone)]
pub struct PeerRoleEntry {
    pub peer_did: String,
    pub display_name: String,
    pub role: String,
    pub is_online: bool,
}

/// The parts of the open entity-settings dialog that results fill in.
#[derive(Debug, Clone)]
pub struct EntitySettingsDialog {
    pub peer_roles: Vec<PeerRoleEntry>,
    pub roles_loading: bool,
    pub generated_invite_link: Option<String>,
    pub api_tokens: Vec<ApiTokenEntry>,
    pub api_tokens_loading: bool,
    pub scoped_api_tokens: Vec<ApiTokenEntry>,
    pub scoped_tokens_loading: bool,
    pub generated_api_token: Option<String>,
}

/// The token-list query to send after a mint or revoke.
#[derive(Debug, Clone, PartialEq, Eq)]
pub enum TokenListRequest {
    /// Every token, one page.
    All { offset: u64, limit: u64 },
    /// Tokens whose scope starts with `scope_prefix`, one page.
    ByScope { scope_prefix: String, offset: u64, limit: u64 },
}

/// `e` lists token `t` field for field.
pub open spec fn entry_of(e: ApiTokenEntry, t: ApiTokenInfo) -> bool {
    &&& e.jti == t.jti
    &&& e.scope == t.scope
    &&& e.max_role == t.max_role
    &&& e.label == t.label
    &&& e.created_at == t.created_at
    &&& e.expires_at == t.expires_at
    &&& e.revoked == t.revoked
    &&& e.sub == t.sub
}

/// `es` lists the tokens `ts`, in order.
pub open spec fn entries_of(es: Seq<ApiTokenEntry>, ts: Seq<ApiTokenInfo>) -> bool {
    &&& es.len() == ts.len()
    &&& forall|k: int| 0 <= k < ts.len() ==> entry_of(#[trigger] es[k], ts[k])
}

/// Two token entries are equal field for field.
pub open spec fn same_entry(a: ApiTokenEntry, b: ApiTokenEntry) -> bool {
    &&& a.jti == b.jti
    &&& a.scope == b.scope
    &&& a.max_role == b.max_role
    &&& a.label == b.label
    &&& a.created_at == b.created_at
    &&& a.expires_at == b.expires_at
    &&& a.revoked == b.revoked
    &&& a.sub == b.sub
}

/// Two token lists are equal entry for entry.
pub open spec fn same_entries(a: Seq<ApiTokenEntry>, b: Seq<ApiTokenEntry>) -> bool {
    &&& a.len() == b.len()
    &&& forall|k: int| 0 <= k < a.len() ==> same_entry(#[trigger] a[k], b[k])
}

fn clone_entries(es: &Vec<ApiTokenEntry>) -> (r: Vec<ApiTokenEntry>)
    ensures
        same_entries(r@, es@),
{
    let mut out: Vec<ApiTokenEntry> = Vec::new();
    let mut k: usize = 0;
    while k < es.len()
        invariant
            k <= es@.len(),
            out@.len() == k,
            forall|j: int| 0 <= j < k ==> same_entry(#[trigger] out@[j], es@[j]),
        decreases es@.len() - k,
    {
        let e = &es[k];
        out.push(ApiTokenEntry {
            jti: e.jti.clone(),
            scope: e.scope.clone(),
            max_role: e.max_role.clone(),
            label: clone_opt_text(&e.label),
            created_at: e.created_at.clone(),
            expires_at: e.expires_at.clone(),
            revoked: e.revoked,
            sub: e.sub.clone(),
        });
        k = k + 1;
    }
    out
}

/// The UI entries for a token list, one per token, in order.
pub fn tokens_to_entries(tokens: &Vec<ApiTokenInfo>) -> (r: Vec<ApiTokenEntry>)
    ensures
        entries_of(r@, tokens@),
{
    let mut out: Vec<ApiTokenEntry> = Vec::new();
    let mut k: usize = 0;
    while k < tokens.len()
        invariant
            k <= tokens@.len(),
            out@.len() == k,
            forall|j: int| 0 <= j < k ==> entry_of(#[trigger] out@[j], tokens@[j]),
        decreases tokens@.len() - k,
    {
        let t = &tokens[k];
        out.push(ApiTokenEntry {
            jti: t.jti.clone(),
            scope: t.scope.clone(),
            max_role: t.max_role.clone(),
            label: clone_opt_text(&t.label),
            created_at: t.created_at.clone(),
            expires_at: t.expires_at.clone(),
            revoked: t.revoked,
            sub: t.sub.clone(),
        });
        k = k + 1;
    }
    out
}

/// The refresh query for the inspector's token list: the current page
/// (`page * page_size`, `page_size` long), all tokens when the scope filter
/// is empty, else those under the scope.
pub open spec fn token_refresh(inspector: InspectorFormState, page_size: u64) -> TokenListRequest {
    if inspector.api_token_scope_buf@.len() == 0 {
        TokenListRequest::All { offset: (inspector.api_tokens_page * page_size) as u64, limit: page_size }
    } else {
        TokenListRequest::ByScope {
            scope_prefix: inspector.api_token_scope_buf,
            offset: (inspector.api_tokens_page * page_size) as u64,
            limit: page_size,
        }
    }
}

/// The token-list refresh for the inspector's current scope and page.
pub fn refresh_inspector_tokens(inspector: &InspectorFormState, page_size: u64) -> (r: TokenListRequest)
    requires
        inspector.api_tokens_page * page_size <= u64::MAX,
    ensures
        r == token_refresh(*inspector, page_size),
{
    let offset: u64 = inspector.api_tokens_page * page_size;
    if inspector.api_token_scope_buf.as_str().is_empty() {
        TokenListRequest::All { offset, limit: page_size }
    } else {
        TokenListRequest::ByScope { scope_prefix: inspector.api_token_scope_buf.clone(), offset, limit: page_size }
    }
}

/// `ApiTokenMinted`: the fresh token is shown in the open settings dialog
/// and in the inspector; the inspector's token list is then refreshed.
pub fn handle_api_token_minted(
    token: &str,
    dialog: &mut Option<EntitySettingsDialog>,
    inspector: &mut InspectorFormState,
    page_size: u64,
) -> (r: TokenListRequest)
    requires
        old(inspector).api_tokens_page * page_size <= u64::MAX,
    ensures
        match (*old(dialog), *final(dialog)) {
            (Some(a), Some(b)) => b.generated_api_token matches Some(t) && t@ == token@
                && b == (EntitySettingsDialog { generated_api_token: b.generated_api_token, ..a }),
            (None, None) => true,
            _ => false,
        },
        final(inspector).generated_api_token matches Some(t) && t@ == token@,
        *final(inspector) == (InspectorFormState { generated_api_token: final(inspector).generated_api_token, ..*old(inspector) }),
        r == token_refresh(*old(inspector), page_size),
{
    match dialog {
        Some(d) => {
            d.generated_api_token = Some(to_owned_string(token));
        },
        None => {},
    }
    inspector.generated_api_token = Some(to_owned_string(token));
    refresh_inspector_tokens(inspector, page_size)
}

/// `ApiTokenRevoked`: the inspector's token list is refreshed (the caller
/// also broadcasts the revoked id to the API side).
pub fn handle_api_token_revoked(inspector: &InspectorFormState, page_size: u64) -> (r: TokenListRequest)
    requires
        inspector.api_tokens_page * page_size <= u64::MAX,
    ensures
        r == token_refresh(*inspector, page_size),
{
    refresh_inspector_tokens(inspector, page_size)
}

/// `ApiTokensListed`: the open settings dialog lists the tokens and stops
/// loading; so does the inspector, which also records the total.
pub fn handle_api_tokens_listed(
    tokens: &Vec<ApiTokenInfo>,
    total: u64,
    dialog: &mut Option<EntitySettingsDialog>,
    inspector: &mut InspectorFormState,
)
    ensures
        match (*old(dialog), *final(dialog)) {
            (Some(a), Some(b)) => entries_of(b.api_tokens@, tokens@) && !b.api_tokens_loading && b == (
            EntitySettingsDialog { api_tokens: b.api_tokens, api_tokens_loading: false, ..a }),
            (None, None) => true,
            _ => false,
        },
        entries_of(final(inspector).api_tokens@, tokens@),
        final(inspector).api_tokens_total == total,
        !final(inspector).api_tokens_loading,
        *final(inspector) == (InspectorFormState {
            api_tokens: final(inspector).api_tokens,
            api_tokens_total: total,
            api_tokens_loading: false,
            ..*old(inspector)
        }),
{
    let entries = tokens_to_entries(tokens);
    match dialog {
        Some(d) => {
            let copy = clone_entries(&entries);
            proof {
                assert forall|k: int| 0 <= k < tokens@.len() implies entry_of(#[trigger] copy@[k], tokens@[k]) by {
                    assert(same_entry(copy@[k], entries@[k]));
                }
            }
            d.api_tokens = copy;
            d.api_tokens_loading = false;
        },
        None => {},
    }
    inspector.api_tokens = entries;
    inspector.api_tokens_total = total;
    inspector.api_tokens_loading = false;
}

/// `ScopedApiTokensListed`: the open settings dialog lists them as its
/// scoped tokens and stops loading; the inspector lists them as its tokens,
/// records the total and stops loading.
pub fn handle_scoped_api_tokens_listed(
    tokens: &Vec<ApiTokenInfo>,
    total: u64,
    dialog: &mut Option<EntitySettingsDialog>,
    inspector: &mut InspectorFormState,
)
    ensures
        match (*old(dialog), *final(dialog)) {
            (Some(a), Some(b)) => entries_of(b.scoped_api_tokens@, tokens@) && !b.scoped_tokens_loading && b == (
            EntitySettingsDialog { scoped_api_tokens: b.scoped_api_tokens, scoped_tokens_loading: false, ..a }),
            (None, None) => true,
            _ => false,
        },
        entries_of(final(inspector).api_tokens@, tokens@),
        final(inspector).api_tokens_total == total,
        !final(inspector).api_tokens_loading,
        *final(inspector) == (InspectorFormState {
            api_tokens: final(inspector).api_tokens,
            api_tokens_total: total,
            api_tokens_loading: false,
            ..*old(inspector)
        }),
{
    let entries = tokens_to_entries(tokens);
    match dialog {
        Some(d) => {
            let copy = clone_entries(&entries);
            proof {
                assert forall|k: int| 0 <= k < tokens@.len() implies entry_of(#[trigger] copy@[k], tokens@[k]) by {
                    assert(same_entry(copy@[k], entries@[k]));
                }
            }
            d.scoped_api_tokens = copy;
            d.scoped_tokens_loading = false;
        },
        None => {},
    }
    inspector.api_tokens = entries;
    inspector.api_tokens_total = total;
    inspector.api_tokens_loading = false;
}

/// `e` shows field definition `f`: same id, key, type and default, no
/// description, not required.
pub open spec fn field_entry_of(e: FieldDefEntry, f: FieldDefInfo) -> bool {
    &&& e.field_def_id == f.field_def_id
    &&& e.key == f.key
    &&& e.value_type == f.value_type
    &&& e.description@.len() == 0
    &&& !e.required
    &&& e.default_val == f.default_val
}

/// `FieldDefsListed`: the inspector's field-definition table becomes the
/// listed definitions, in order, and stops loading.
pub fn handle_field_defs_listed(field_defs: &Vec<FieldDefInfo>, inspector: &mut InspectorFormState)
    ensures
        final(inspector).field_defs@.len() == field_defs@.len(),
        forall|k: int| 0 <= k < field_defs@.len() ==> field_entry_of(#[trigger] final(inspector).field_defs@[k], field_defs@[k]),
        *final(inspector) == (InspectorFormState {
            field_defs: final(inspector).field_defs,
            field_defs_loading: false,
            ..*old(inspector)
        }),
{
    let mut out: Vec<FieldDefEntry> = Vec::new();
    let mut k: usize = 0;
    while k < field_defs.len()
        invariant
            k <= field_defs@.len(),
            out@.len() == k,
            forall|j: int| 0 <= j < k ==> field_entry_of(#[trigger] out@[j], field_defs@[j]),
        decreases field_defs@.len() - k,
    {
        let f = &field_defs[k];
        out.push(FieldDefEntry {
            field_def_id: f.field_def_id.clone(),
            key: f.key.clone(),
            value_type: f.value_type.clone(),
            description: String::new(),
            required: false,
            default_val: clone_opt_text(&f.default_val),
        });
        k = k + 1;
    }
    inspector.field_defs = out;
    inspector.field_defs_loading = false;
}

/// `e` lists peer `did` with role `role`, no display name, offline.
pub open spec fn peer_entry_of(e: PeerRoleEntry, did: String, role: String) -> bool {
    &&& e.peer_did == did
    &&& e.display_name@.len() == 0
    &&& e.role == role
    &&& !e.is_online
}

/// `PeerRolesResolved`: the open settings dialog lists the peers with their
/// roles, in order, and stops loading.
pub fn handle_peer_roles_resolved(roles: &Vec<(String, String)>, dialog: &mut Option<EntitySettingsDialog>)
    ensures
        match (*old(dialog), *final(dialog)) {
            (Some(a), Some(b)) => {
                &&& b.peer_roles@.len() == roles@.len()
                &&& forall|k: int| 0 <= k < roles@.len() ==> peer_entry_of(#[trigger] b.peer_roles@[k], roles@[k].0, roles@[k].1)
                &&& b == (EntitySettingsDialog { peer_roles: b.peer_roles, roles_loading: false, ..a })
            },
            (None, None) => true,
            _ => false,
        },
{
    match dialog {
        Some(d) => {
            let mut out: Vec<PeerRoleEntry> = Vec::new();
            let mut k: usize = 0;
            while k < roles.len()
                invariant
                    k <= roles@.len(),
                    out@.len() == k,
                    forall|j: int| 0 <= j < k ==> peer_entry_of(#[trigger] out@[j], roles@[j].0, roles@[j].1),
                decreases roles@.len() - k,
            {
                out.push(PeerRoleEntry {
                    peer_did: roles[k].0.clone(),
                    display_name: String::new(),
                    role: roles[k].1.clone(),
                    is_online: false,
                });
                k = k + 1;
            }
            d.peer_roles = out;
            d.roles_loading = false;
        },
        None => {},
    }
}

/// Index of the first peer entry with this did.
pub open spec fn first_peer(es: Seq<PeerRoleEntry>, did: Seq<char>, i: int) -> bool {
    &&& 0 <= i < es.len()
    &&& es[i].peer_did@ == did
    &&& forall|j: int| 0 <= j < i ==> (#[trigger] es[j]).peer_did@ != did
}

/// `b` is `a` with the role of the first entry for `did` set to `role`
/// (unchanged when no entry has that did).
pub open spec fn role_set(a: Seq<PeerRoleEntry>, b: Seq<PeerRoleEntry>, did: Seq<char>, role: Seq<char>) -> bool {
    &&& b.len() == a.len()
    &&& (forall|j: int| 0 <= j < a.len() ==> (#[trigger] a[j]).peer_did@ != did) ==> b == a
    &&& forall|i: int|
        #[trigger] first_peer(a, did, i) ==> b[i].role@ == role && b == a.update(
            i,
            PeerRoleEntry { role: b[i].role, ..a[i] },
        )
}

/// Sets the role of the first entry for `did`.
fn set_peer_role(es: &mut Vec<PeerRoleEntry>, did: &str, role: &str)
    ensures
        role_set(old(es)@, final(es)@, did@, role@),
{
    let mut k: usize = 0;
    while k < es.len()
        invariant
            k <= es@.len(),
            es@ == old(es)@,
            forall|j: int| 0 <= j < k ==> (#[trigger] es@[j]).peer_did@ != did@,
        decreases es@.len() - k,
    {
        if str_eq(es[k].peer_did.as_str(), did) {
            let ghost before = es@;
            let mut e = es.remove(k);
            e.role = to_owned_string(role);
            es.insert(k, e);
            proof {
                assert(first_peer(before, did@, k as int));
                assert forall|i: int| #[trigger] first_peer(before, did@, i) implies i == k by {
                    if i < k {
                        assert(before[i].peer_did@ != did@);
                    }
                    if i > k {
                        assert(before[k as int].peer_did@ == did@);
                    }
                }
                assert(es@ =~= before.update(k as int, PeerRoleEntry { role: es@[k as int].role, ..before[k as int] }));
            }
            return;
        }
        k = k + 1;
    }
}

/// `RoleAssigned`: in the open settings dialog, the first listed entry of
/// the peer takes the new role.
pub fn handle_role_assigned(peer_did: &str, role: &str, dialog: &mut Option<EntitySettingsDialog>)
    ensures
        match (*old(dialog), *final(dialog)) {
            (Some(a), Some(b)) => role_set(a.peer_roles@, b.peer_roles@, peer_did@, role@) && b == (
            EntitySettingsDialog { peer_roles: b.peer_roles, ..a }),
            (None, None) => true,
            _ => false,
        },
{
    match dialog {
        Some(d) => set_peer_role(&mut d.peer_roles, peer_did, role),
        None => {},
    }
}

/// `RoleRevoked`: in the open settings dialog, the first listed entry of
/// the peer shows the role `"none"`.
pub fn handle_role_revoked(peer_did: &str, dialog: &mut Option<EntitySettingsDialog>)
    ensures
        match (*old(dialog), *final(dialog)) {
            (Some(a), Some(b)) => role_set(a.peer_roles@, b.peer_roles@, peer_did@, "none"@) && b == (
            EntitySettingsDialog { peer_roles: b.peer_roles, ..a }),
            (None, None) => true,
            _ => false,
        },
{
    match dialog {
        Some(d) => set_peer_role(&mut d.peer_roles, peer_did, "none"),
        None => {},
    }
}

/// `ScopedInviteGenerated`: the open settings dialog shows the invite link.
pub fn handle_scoped_invite_generated(invite_link: &str, dialog: &mut Option<EntitySettingsDialog>)
    ensures
        match (*old(dialog), *final(dialog)) {
            (Some(a), Some(b)) => b.generated_invite_link matches Some(l) && l@ == invite_link@ && b == (
            EntitySettingsDialog { generated_invite_link: b.generated_invite_link, ..a }),
            (None, None) => true,
            _ => false,
        },
{
    match dialog {
        Some(d) => {
            d.generated_invite_link = Some(to_owned_string(invite_link));
        },
        None => {},
    }
}

} // verus!
