//! The petal portal: the browser overlay opened for a selected model.
//!
//! Selecting a model with an external URL opens the portal on it; clearing
//! the selection, pressing Escape or losing the model closes it. Which tabs
//! the overlay may show depends on the session's role: only an admin sees the
//! config tab, and only for a model that has a config URL.
//!
//! Entities are carried as their 64-bit ids; the scheduling of these steps
//! (which frame, which query) is the caller's.

use vstd::prelude::*;

use crate::url_policy::{is_raw_url_allowed, parse_url, raw_url_allowed, url_allowed, url_parses, ParsedUrl};
use crate::webview::{BrowserCommand, BrowserTab};

verus! {

/// Marker for the entity the local user selected.
pub struct Selected;

/// Raised when every selection is cleared.
pub struct SelectionCleared;

/// The URLs attached to a model.
#[derive(Debug, Clone)]
pub struct ModelUrlMeta {
    pub external_url: Option<String>,
    pub config_url: Option<String>,
}

/// Which URL field the editor targets.
#[derive(Debug, Clone, Copy, PartialEq, Eq, Structural)]
pub enum UrlField {
    External,
    Config,
}

/// The editor committed a URL for a model.
#[derive(Debug, Clone)]
pub struct UrlEditorSaved {
    pub entity: u64,
    pub field: UrlField,
    pub value: String,
}

/// The model the portal is open for, if any.
#[derive(Debug, Clone, Copy)]
pub struct ActivePortal {
    pub entity: Option<u64>,
}

impl ActivePortal {
    /// No portal open.
    pub fn new() -> (r: Self)
        ensures
            r.entity is None,
    {
        ActivePortal { entity: None }
    }
}

/// Session roles, as far as tab visibility cares.
#[derive(Debug, Clone, Copy, PartialEq, Eq, Hash, Structural)]
pub enum Role {
    /// Full access, config tab included.
    Admin,
    /// Can view, not edit.
    Viewer,
    /// Can edit content, not administer.
    Editor,
}

impl Default for Role {
    fn default() -> (r: Self)
        ensures
            r == Role::Viewer,
    {
        Role::Viewer
    }
}

/// Which tabs the session may see.
#[derive(Debug, Clone, Copy)]
pub struct TabVisibilityFilter {
    pub role: Role,
}

impl Default for TabVisibilityFilter {
    fn default() -> (r: Self)
        ensures
            r.role == Role::Viewer,
    {
        TabVisibilityFilter { role: Role::Viewer }
    }
}

/// Only an admin may see the config tab.
pub open spec fn can_view_config_spec(f: TabVisibilityFilter) -> bool {
    f.role == Role::Admin
}

impl TabVisibilityFilter {
    /// `true` only for the admin role.
    pub fn can_view_config(&self) -> (r: bool)
        ensures
            r == can_view_config_spec(*self),
    {
        self.role == Role::Admin
    }
}

/// The set of tabs the overlay may currently show.
pub struct VisibleTabs {
    external_url: bool,
    config: bool,
}

impl View for VisibleTabs {
    type V = Set<BrowserTab>;

    closed spec fn view(&self) -> Set<BrowserTab> {
        Set::new(
            |t: BrowserTab|
                (t == BrowserTab::ExternalUrl && self.external_url) || (t == BrowserTab::Config
                    && self.config),
        )
    }
}

/// The tab set a closed or freshly opened portal starts from.
pub open spec fn base_tabs() -> Set<BrowserTab> {
    set![BrowserTab::ExternalUrl]
}

impl Default for VisibleTabs {
    fn default() -> (r: Self)
        ensures
            r@ == base_tabs(),
    {
        let r = VisibleTabs { external_url: true, config: false };
        proof {
            assert(r@ =~= base_tabs());
        }
        r
    }
}

impl VisibleTabs {
    /// Whether `tab` may be shown.
    pub fn contains(&self, tab: BrowserTab) -> (r: bool)
        ensures
            r == self@.contains(tab),
    {
        match tab {
            BrowserTab::ExternalUrl => self.external_url,
            BrowserTab::Config => self.config,
        }
    }

    /// Allows `tab` too.
    pub fn insert(&mut self, tab: BrowserTab)
        ensures
            final(self)@ == old(self)@.insert(tab),
    {
        match tab {
            BrowserTab::ExternalUrl => self.external_url = true,
            BrowserTab::Config => self.config = true,
        }
        proof {
            assert(self@ =~= old(self)@.insert(tab));
        }
    }

    /// Back to the external-URL tab alone.
    pub fn reset(&mut self)
        ensures
            final(self)@ == base_tabs(),
    {
        self.external_url = true;
        self.config = false;
        proof {
            assert(self@ =~= base_tabs());
        }
    }
}

/// Live validation state of a URL editor field.
#[derive(Debug, Clone, Copy, PartialEq, Eq, Structural)]
pub enum UrlValidity {
    /// Nothing typed.
    Empty,
    /// The URL may be opened.
    Valid,
    /// The URL is present but refused (or does not parse).
    Blocked,
}

/// The editor text and its validity.
#[derive(Debug, Clone)]
pub struct UrlEditorState {
    pub raw: String,
    pub validity: UrlValidity,
}

/// Validity of the editor text `s`.
pub open spec fn validity_of(s: Seq<char>) -> UrlValidity {
    if s.len() == 0 {
        UrlValidity::Empty
    } else if raw_url_allowed(s) {
        UrlValidity::Valid
    } else {
        UrlValidity::Blocked
    }
}

impl UrlEditorState {
    /// Classifies the editor text.
    pub fn from_input(s: &str) -> (r: Self)
        ensures
            r.raw@ == s@,
            r.validity == validity_of(s@),
    {
        let validity = if s.unicode_len() == 0 {
            UrlValidity::Empty
        } else if is_raw_url_allowed(s) {
            UrlValidity::Valid
        } else {
            UrlValidity::Blocked
        };
        UrlEditorState { raw: s.to_string(), validity }
    }
}

/// What the inspector panel shows.
#[derive(Debug, Default)]
pub struct InspectorPanelState {
    pub config_url_field_visible: bool,
}

impl InspectorPanelState {
    /// The config URL field is shown exactly to sessions that may see the
    /// config tab.
    pub fn for_filter(filter: &TabVisibilityFilter) -> (r: Self)
        ensures
            r.config_url_field_visible == can_view_config_spec(*filter),
    {
        InspectorPanelState { config_url_field_visible: filter.can_view_config() }
    }
}

/// The portal plugin (its systems are registered by the application).
pub struct PetalPortalPlugin;

/// Parses `url` and returns it when the policy allows it; `None` when it
/// is refused or does not parse.
pub fn emit_navigate_if_allowed(url: &str) -> (r: Option<ParsedUrl>)
    ensures
        r is Some <==> raw_url_allowed(url@),
        r matches Some(p) ==> p@ == url@,
{
    match parse_url(url) {
        Ok(parsed) => {
            if crate::url_policy::is_url_allowed(&parsed) {
                Some(parsed)
            } else {
                None
            }
        },
        Err(_) => None,
    }
}

/// Closes an open portal: forgets the model and resets the tabs. Returns
/// whether a `Close` must be sent (only when a portal was open).
pub fn clear_portal(portal: &mut ActivePortal, visible_tabs: &mut VisibleTabs) -> (r: bool)
    ensures
        r == old(portal).entity is Some,
        final(portal).entity is None,
        r ==> final(visible_tabs)@ == base_tabs(),
        !r ==> final(visible_tabs)@ == old(visible_tabs)@,
{
    if portal.entity.is_some() {
        portal.entity = None;
        visible_tabs.reset();
        true
    } else {
        false
    }
}

/// `s` has some text that is not empty.
pub open spec fn has_text(s: Option<String>) -> bool {
    s matches Some(t) && t@.len() > 0
}

/// Opens the portal on the newly selected `entity`: it becomes the active
/// model and the tabs are reset. A non-empty external URL that the policy
/// allows yields `Navigate` followed by `SwitchTab(ExternalUrl)`; an admin
/// session also gets the config tab when the model has a non-empty config
/// URL. Returns the commands to send, in order.
pub fn activate_portal(
    portal: &mut ActivePortal,
    visible_tabs: &mut VisibleTabs,
    filter: &TabVisibilityFilter,
    entity: u64,
    meta: &ModelUrlMeta,
) -> (r: Vec<BrowserCommand>)
    ensures
        final(portal).entity == Some(entity),
        final(visible_tabs)@ == if can_view_config_spec(*filter) && has_text(meta.config_url) {
            base_tabs().insert(BrowserTab::Config)
        } else {
            base_tabs()
        },
        (meta.external_url matches Some(u) && u@.len() > 0 && raw_url_allowed(u@)) ==> {
            &&& r@.len() == 2
            &&& r@[0] matches BrowserCommand::Navigate { url } && url@ == meta.external_url->0@
            &&& r@[1] == BrowserCommand::SwitchTab { tab: BrowserTab::ExternalUrl }
        },
        !(meta.external_url matches Some(u) && u@.len() > 0 && raw_url_allowed(u@)) ==> r@.len()
            == 0,
{
    portal.entity = Some(entity);
    visible_tabs.reset();
    let mut out: Vec<BrowserCommand> = Vec::new();
    if let Some(url) = &meta.external_url {
        if url.unicode_len() > 0 {
            if let Some(parsed) = emit_navigate_if_allowed(url.as_str()) {
                out.push(BrowserCommand::Navigate { url: parsed });
                out.push(BrowserCommand::SwitchTab { tab: BrowserTab::ExternalUrl });
            }
        }
    }
    if filter.can_view_config() {
        if let Some(config_url) = &meta.config_url {
            if config_url.unicode_len() > 0 {
                visible_tabs.insert(BrowserTab::Config);
            }
        }
    }
    out
}

/// Closes the portal when Escape was pressed or the selection was cleared.
/// Returns whether a `Close` must be sent.
pub fn petal_portal_deactivation(
    portal: &mut ActivePortal,
    visible_tabs: &mut VisibleTabs,
    esc_pressed: bool,
    selection_cleared: bool,
) -> (r: bool)
    ensures
        r == ((esc_pressed || selection_cleared) && old(portal).entity is Some),
        (esc_pressed || selection_cleared) ==> final(portal).entity is None,
        !(esc_pressed || selection_cleared) ==> final(portal).entity == old(portal).entity,
        r ==> final(visible_tabs)@ == base_tabs(),
        !r ==> final(visible_tabs)@ == old(visible_tabs)@,
{
    if esc_pressed || selection_cleared {
        clear_portal(portal, visible_tabs)
    } else {
        false
    }
}

/// Closes the portal when its model no longer exists. Returns whether a
/// `Close` must be sent.
pub fn portal_cleanup(portal: &mut ActivePortal, visible_tabs: &mut VisibleTabs, active_exists: bool) -> (r: bool)
    ensures
        r == (old(portal).entity is Some && !active_exists),
        r ==> final(portal).entity is None && final(visible_tabs)@ == base_tabs(),
        !r ==> final(portal).entity == old(portal).entity && final(visible_tabs)@ == old(visible_tabs)@,
{
    if portal.entity.is_some() && !active_exists {
        clear_portal(portal, visible_tabs)
    } else {
        false
    }
}

/// Drops `SwitchTab(Config)` commands of a session that may not see the
/// config tab.
pub open spec fn guard_keeps(cmd: BrowserCommand, admin: bool) -> bool {
    !(cmd == (BrowserCommand::SwitchTab { tab: BrowserTab::Config }) && !admin)
}

/// The commands of `cmds` the guard lets through, in order.
pub open spec fn guarded(cmds: Seq<BrowserCommand>, admin: bool) -> Seq<BrowserCommand>
    decreases cmds.len(),
{
    if cmds.len() == 0 {
        cmds
    } else {
        let rest = guarded(cmds.drop_last(), admin);
        if guard_keeps(cmds.last(), admin) {
            rest.push(cmds.last())
        } else {
            rest
        }
    }
}

/// Filters unauthorized config-tab switches out of the pending commands,
/// passing every other command on unchanged and in order.
pub fn tab_switch_guard(filter: &TabVisibilityFilter, cmds: Vec<BrowserCommand>) -> (r: Vec<BrowserCommand>)
    ensures
        r@ == guarded(cmds@, can_view_config_spec(*filter)),
{
    let admin = filter.can_view_config();
    let ghost all = cmds@;
    let mut rest = cmds;
    let mut out: Vec<BrowserCommand> = Vec::new();
    let mut i: usize = 0;
    let n: usize = rest.len();
    while i < n
        invariant
            n == all.len(),
            i <= all.len(),
            admin == can_view_config_spec(*filter),
            rest@ == all.skip(i as int),
            out@ == guarded(all.take(i as int), admin),
        decreases all.len() - i,
    {
        let cmd = rest.remove(0);
        proof {
            assert(cmd == all[i as int]);
            assert(all.take(i + 1).drop_last() =~= all.take(i as int));
            assert(all.take(i + 1).last() == all[i as int]);
            assert(rest@ =~= all.skip(i + 1));
        }
        let drop = match &cmd {
            BrowserCommand::SwitchTab { tab } => *tab == BrowserTab::Config && !admin,
            _ => false,
        };
        if !drop {
            out.push(cmd);
        }
        i = i + 1;
    }
    proof {
        assert(all.take(all.len() as int) =~= all);
    }
    out
}

/// The URL slot of `meta` that `field` names.
pub open spec fn field_value(meta: ModelUrlMeta, field: UrlField) -> Option<String> {
    match field {
        UrlField::External => meta.external_url,
        UrlField::Config => meta.config_url,
    }
}

/// Commits an editor save. A URL the policy refuses changes nothing.
/// Otherwise the model's URL field (when the model still has its URL meta)
/// takes the value, and when the portal is open on that model and the
/// external URL was edited, a `Navigate` to it is returned.
pub fn url_editor_commit(event: &UrlEditorSaved, meta: &mut Option<ModelUrlMeta>, portal: &ActivePortal) -> (r: Option<BrowserCommand>)
    ensures
        !raw_url_allowed(event.value@) ==> r is None && *final(meta) == *old(meta),
        raw_url_allowed(event.value@) ==> {
            &&& (*old(meta) is None ==> *final(meta) is None)
            &&& (*old(meta) matches Some(m0) ==> *final(meta) matches Some(m1) && field_value(m1, event.field)
                matches Some(v) && v@ == event.value@ && (event.field == UrlField::External
                ==> m1.config_url == m0.config_url) && (event.field == UrlField::Config
                ==> m1.external_url == m0.external_url))
            &&& (portal.entity == Some(event.entity) && event.field == UrlField::External) ==> (r matches Some(
                BrowserCommand::Navigate { url },
            ) && url@ == event.value@)
            &&& !(portal.entity == Some(event.entity) && event.field == UrlField::External) ==> r is None
        },
{
    if !is_raw_url_allowed(event.value.as_str()) {
        return None;
    }
    match meta {
        Some(m) => {
            match event.field {
                UrlField::External => m.external_url = Some(event.value.clone()),
                UrlField::Config => m.config_url = Some(event.value.clone()),
            }
        },
        None => {},
    }
    if portal.entity == Some(event.entity) && event.field == UrlField::External {
        match parse_url(event.value.as_str()) {
            Ok(parsed) => Some(BrowserCommand::Navigate { url: parsed }),
            Err(_) => None,
        }
    } else {
        None
    }
}

/// Law: the tabs a session can ever see after opening a portal include the
/// config tab only for an admin.
pub proof fn law_config_tab_admin_only(filter: TabVisibilityFilter, meta: ModelUrlMeta)
    ensures
        (if can_view_config_spec(filter) && has_text(meta.config_url) {
            base_tabs().insert(BrowserTab::Config)
        } else {
            base_tabs()
        }).contains(BrowserTab::Config) ==> filter.role == Role::Admin,
{
}

} // verus!
