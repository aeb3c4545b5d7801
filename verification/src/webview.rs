//! The embedded browser: window geometry, the messages exchanged with the
//! rest of the application, the navigation bookkeeping a native webview
//! backend keeps, and the decisions taken on each command and each
//! navigation request.
//!
//! The native window work (creating the webview, loading a URL, showing or
//! hiding the popup) is done by the caller; this module says when it is
//! needed and what state follows.

use vstd::prelude::*;

use crate::portal::{can_view_config_spec, TabVisibilityFilter};
use crate::text::{push_str, to_owned_string};
use crate::url_policy::{
    is_url_allowed, parse_url, url_error_text, url_allowed, url_as_string, url_parses,
    url_serialization, ParsedUrl,
};

verus! {

/// Screen-space rectangle in physical pixels.
#[derive(Debug, Clone, Copy)]
pub struct WindowGeometry {
    pub x: i32,
    pub y: i32,
    pub width: u32,
    pub height: u32,
}

/// Bounds of the webview inside its own popup window.
#[derive(Debug, Clone, Copy)]
pub struct FillRect {
    pub x: i32,
    pub y: i32,
    pub width: u32,
    pub height: u32,
}

/// The webview fills the whole popup, so its bounds sit at the origin with
/// the popup's size.
pub fn webview_fill_rect(g: &WindowGeometry) -> (r: FillRect)
    ensures
        r.x == 0,
        r.y == 0,
        r.width == g.width,
        r.height == g.height,
{
    FillRect { x: 0, y: 0, width: g.width, height: g.height }
}

/// Events a backend reports.
#[derive(Debug, Clone)]
pub enum BackendEvent {
    UrlChanged(ParsedUrl),
    LoadComplete,
    Error(String),
    /// The backend's window was closed from outside.
    WindowClosed,
}

/// The two tabs of the portal.
#[derive(Debug, Clone, Copy, PartialEq, Eq, Hash, Structural)]
pub enum BrowserTab {
    ExternalUrl,
    Config,
}

/// Commands sent to the browser.
#[derive(Debug, Clone)]
pub enum BrowserCommand {
    Navigate { url: ParsedUrl },
    GoBack,
    Close,
    GetUrl,
    SwitchTab { tab: BrowserTab },
}

/// Events the browser reports to the application.
#[derive(Debug, Clone)]
pub enum BrowserEvent {
    UrlChanged { url: ParsedUrl },
    LoadComplete,
    Error { message: String },
    TabChanged { tab: BrowserTab },
}

/// Script injected into every page: a fixed top banner naming the page as
/// an external website.
pub const TRUST_BAR_JS: &'static str = r#"
    const bar = document.createElement('div');
    bar.style.cssText = 'position:fixed;top:0;left:0;right:0;height:24px;background:#1a1a2e;color:#8888cc;font-family:sans-serif;font-size:11px;padding:4px 8px;z-index:2147483647;pointer-events:none;';
    bar.textContent = '🌐 External Website: ' + location.hostname;
    document.body.prepend(bar);
"#;

// ---------------------------------------------------------------------------
// Navigation decision
// ---------------------------------------------------------------------------

/// The event recorded for a navigation request to `raw` that is refused
/// although it parses.
pub open spec fn blocked_message(raw: Seq<char>) -> Seq<char> {
    "Navigation blocked: URL not allowed: "@ + url_serialization(raw)
}

/// The event recorded for a navigation request to text that does not
/// parse: the text and the parser's reason.
pub open spec fn invalid_message(raw: Seq<char>) -> Seq<char> {
    "Navigation blocked: invalid URL '"@ + raw + "': "@ + url_error_text(raw)
}

/// Navigation-request decision: allow exactly the URLs the security policy
/// allows, and record one event for the request: `UrlChanged` when allowed,
/// an `Error` naming the URL otherwise.
pub fn decide_navigation(raw_url: &str, events: &mut Vec<BackendEvent>) -> (r: bool)
    ensures
        r == (url_parses(raw_url@) && url_allowed(raw_url@)),
        final(events)@.len() == old(events)@.len() + 1,
        final(events)@.drop_last() == old(events)@,
        r ==> (final(events)@.last() matches BackendEvent::UrlChanged(u) && u@ == raw_url@),
        !r && url_parses(raw_url@) ==> (final(events)@.last() matches BackendEvent::Error(m) && m@
            == blocked_message(raw_url@)),
        !url_parses(raw_url@) ==> (final(events)@.last() matches BackendEvent::Error(m) && m@
            == invalid_message(raw_url@)),
{
    let ghost start = events@;
    match parse_url(raw_url) {
        Ok(parsed) => {
            if is_url_allowed(&parsed) {
                events.push(BackendEvent::UrlChanged(parsed));
                proof {
                    assert(events@.drop_last() =~= start);
                }
                true
            } else {
                let mut msg = to_owned_string("Navigation blocked: URL not allowed: ");
                let shown = url_as_string(&parsed);
                push_str(&mut msg, shown.as_str());
                events.push(BackendEvent::Error(msg));
                proof {
                    reveal_strlit("Navigation blocked: URL not allowed: ");
                    assert(events@.drop_last() =~= start);
                }
                false
            }
        },
        Err(reason) => {
            let mut msg = to_owned_string("Navigation blocked: invalid URL '");
            push_str(&mut msg, raw_url);
            push_str(&mut msg, "': ");
            push_str(&mut msg, reason.as_str());
            events.push(BackendEvent::Error(msg));
            proof {
                assert(events@.drop_last() =~= start);
            }
            false
        },
    }
}

// ---------------------------------------------------------------------------
// Backend navigation bookkeeping
// ---------------------------------------------------------------------------

/// What a native backend remembers between calls: whether its window is
/// shown, whether it still exists, and the last URL it loaded (to skip
/// repeated loads of the same page).
pub struct BackendNavState {
    pub visible: bool,
    pub alive: bool,
    pub current_url: Option<ParsedUrl>,
}

/// Whether a navigation to `url` must load: it must unless the backend is
/// already at a URL with the same serialization.
pub open spec fn wants_load(s: BackendNavState, url: Seq<char>) -> bool {
    !(s.current_url matches Some(c) && url_serialization(c@) == url_serialization(url))
}

impl BackendNavState {
    /// A freshly created backend: alive, hidden, at no URL.
    pub fn new() -> (r: Self)
        ensures
            r.alive,
            !r.visible,
            r.current_url is None,
    {
        BackendNavState { visible: false, alive: true, current_url: None }
    }

    /// Whether navigating to `url` has to load it (`false`: already there).
    pub fn navigate_needs_load(&self, url: &ParsedUrl) -> (r: bool)
        ensures
            r == wants_load(*self, url@),
    {
        match &self.current_url {
            Some(c) => !c.same_url(url),
            None => true,
        }
    }

    /// Records that `url` was loaded.
    pub fn record_loaded(&mut self, url: ParsedUrl)
        ensures
            final(self).current_url == Some(url),
            final(self).visible == old(self).visible,
            final(self).alive == old(self).alive,
    {
        self.current_url = Some(url);
    }

    /// Completes a navigation whose load was attempted: the URL is
    /// remembered only when the load succeeded, so that a failed load stays
    /// retryable; the load's result is passed on.
    pub fn after_load(&mut self, url: ParsedUrl, load: Result<(), String>) -> (r: Result<(), String>)
        ensures
            r == load,
            load is Ok ==> final(self).current_url == Some(url),
            load is Err ==> final(self).current_url == old(self).current_url,
            final(self).visible == old(self).visible,
            final(self).alive == old(self).alive,
    {
        if load.is_ok() {
            self.current_url = Some(url);
        }
        load
    }

    /// Completes a `show`: the window counts as visible only when making it
    /// visible succeeded.
    pub fn after_show(&mut self, shown: Result<(), String>) -> (r: Result<(), String>)
        ensures
            r == shown,
            shown is Ok ==> final(self).visible,
            shown is Err ==> final(self).visible == old(self).visible,
            final(self).current_url == old(self).current_url,
            final(self).alive == old(self).alive,
    {
        if shown.is_ok() {
            self.visible = true;
        }
        shown
    }

    /// Completes a `hide`: only when hiding succeeded is the window hidden
    /// and the remembered URL dropped (so the same page can open again).
    pub fn after_hide(&mut self, hidden: Result<(), String>) -> (r: Result<(), String>)
        ensures
            r == hidden,
            hidden is Ok ==> !final(self).visible && final(self).current_url is None,
            hidden is Err ==> final(self).visible == old(self).visible && final(self).current_url == old(
                self,
            ).current_url,
            final(self).alive == old(self).alive,
    {
        if hidden.is_ok() {
            self.visible = false;
            self.current_url = None;
        }
        hidden
    }

    /// Whether `show` has to make the window visible.
    pub fn show_needed(&self) -> (r: bool)
        ensures
            r == !self.visible,
    {
        !self.visible
    }

    /// Records that the window was made visible.
    pub fn record_shown(&mut self)
        ensures
            final(self).visible,
            final(self).alive == old(self).alive,
            final(self).current_url == old(self).current_url,
    {
        self.visible = true;
    }

    /// Whether `hide` has to hide the window.
    pub fn hide_needed(&self) -> (r: bool)
        ensures
            r == self.visible,
    {
        self.visible
    }

    /// Records that the window was hidden; the remembered URL is dropped so
    /// the same page can be opened again after a close.
    pub fn record_hidden(&mut self)
        ensures
            !final(self).visible,
            final(self).current_url is None,
            final(self).alive == old(self).alive,
    {
        self.visible = false;
        self.current_url = None;
    }

    /// Marks the backend destroyed; `true` when it was alive, so that the
    /// native window still has to be destroyed.
    pub fn destroy(&mut self) -> (r: bool)
        ensures
            r == old(self).alive,
            !final(self).alive,
            final(self).visible == old(self).visible,
            final(self).current_url == old(self).current_url,
    {
        if self.alive {
            self.alive = false;
            true
        } else {
            false
        }
    }

    /// Takes the events the webview queued. A dead backend reports nothing
    /// and leaves the queue alone; a backend whose window vanished becomes
    /// dead and reports only `WindowClosed`. Otherwise every queued event is
    /// handed out in order, and the last `UrlChanged` among them becomes the
    /// remembered URL (in-page navigation counts for the load dedup).
    pub fn drain_events(&mut self, window_gone: bool, queued: &mut Vec<BackendEvent>) -> (r: Vec<BackendEvent>)
        ensures
            !old(self).alive ==> r@.len() == 0 && *final(self) == *old(self) && final(queued)@ == old(queued)@,
            old(self).alive && window_gone ==> r@.len() == 1 && r@[0] is WindowClosed && !final(self).alive
                && final(self).visible == old(self).visible && final(self).current_url == old(self).current_url
                && final(queued)@ == old(queued)@,
            old(self).alive && !window_gone ==> {
                &&& r@ == old(queued)@
                &&& final(queued)@.len() == 0
                &&& final(self).alive && final(self).visible == old(self).visible
                &&& opt_url_view(final(self).current_url) == last_url_change(old(queued)@, opt_url_view(old(self).current_url))
            },
    {
        if !self.alive {
            return Vec::new();
        }
        if window_gone {
            self.alive = false;
            let mut v = Vec::new();
            v.push(BackendEvent::WindowClosed);
            return v;
        }
        let mut drained: Vec<BackendEvent> = Vec::new();
        std::mem::swap(&mut drained, queued);
        let mut i: usize = 0;
        while i < drained.len()
            invariant
                i <= drained@.len(),
                self.alive,
                self.visible == old(self).visible,
                opt_url_view(self.current_url) == last_url_change(drained@.take(i as int), opt_url_view(old(self).current_url)),
            decreases drained@.len() - i,
        {
            proof {
                assert(drained@.take(i + 1).drop_last() =~= drained@.take(i as int));
            }
            if let BackendEvent::UrlChanged(u) = &drained[i] {
                self.current_url = Some(u.clone());
                proof {
                    assert(drained@.take(i + 1).last() == drained@[i as int]);
                }
            }
            i = i + 1;
        }
        proof {
            assert(drained@.take(drained@.len() as int) =~= drained@);
        }
        drained
    }
}

/// The text of an optional URL.
pub open spec fn opt_url_view(o: Option<ParsedUrl>) -> Option<Seq<char>> {
    match o {
        Some(u) => Some(u@),
        None => None,
    }
}

/// The URL remembered after the events `evs` were handed out, starting from
/// `cur`: the last `UrlChanged` among them, or `cur` when there is none.
pub open spec fn last_url_change(evs: Seq<BackendEvent>, cur: Option<Seq<char>>) -> Option<Seq<char>>
    decreases evs.len(),
{
    if evs.len() == 0 {
        cur
    } else {
        match evs.last() {
            BackendEvent::UrlChanged(u) => Some(u@),
            _ => last_url_change(evs.drop_last(), cur),
        }
    }
}

/// Law: right after a URL was loaded, navigating to it again does not load
/// it again.
pub proof fn law_navigate_dedups(s: BackendNavState, url: ParsedUrl)
    requires
        s.current_url == Some(url),
    ensures
        !wants_load(s, url@),
{
}

/// Law: once the window is hidden, any URL loads again, the one that was
/// showing included.
pub proof fn law_hidden_reopens(s: BackendNavState, url: Seq<char>)
    requires
        s.current_url is None,
    ensures
        wants_load(s, url),
{
}

// ---------------------------------------------------------------------------
// The no-webview backend
// ---------------------------------------------------------------------------

/// Backend used when no webview is built in: URLs are handed to the system
/// browser, and everything else is a no-op.
pub struct StubBackend {
    alive: bool,
}

impl StubBackend {
    /// Whether the backend has not been destroyed.
    pub closed spec fn alive_spec(&self) -> bool {
        self.alive
    }

    /// Creates the backend; nothing can fail.
    pub fn create(geometry: WindowGeometry, trust_bar_js: &str) -> (r: Result<StubBackend, String>)
        ensures
            r matches Ok(b) && b.alive_spec(),
    {
        Ok(StubBackend { alive: true })
    }

    /// The text to open in the system browser for `url`: its serialization.
    /// The caller launches the browser.
    pub fn navigate(&mut self, url: &ParsedUrl) -> (r: String)
        ensures
            r@ == url_serialization(url@),
            final(self).alive_spec() == old(self).alive_spec(),
    {
        url_as_string(url)
    }

    pub fn go_back(&mut self) -> (r: Result<(), String>)
        ensures
            r is Ok,
            final(self).alive_spec() == old(self).alive_spec(),
    {
        Ok(())
    }

    pub fn show(&mut self) -> (r: Result<(), String>)
        ensures
            r is Ok,
            final(self).alive_spec() == old(self).alive_spec(),
    {
        Ok(())
    }

    pub fn hide_window(&mut self) -> (r: Result<(), String>)
        ensures
            r is Ok,
            final(self).alive_spec() == old(self).alive_spec(),
    {
        Ok(())
    }

    pub fn reposition(&mut self, geometry: WindowGeometry) -> (r: Result<(), String>)
        ensures
            r is Ok,
            final(self).alive_spec() == old(self).alive_spec(),
    {
        Ok(())
    }

    pub fn destroy(&mut self)
        ensures
            !final(self).alive_spec(),
    {
        self.alive = false;
    }

    pub fn drain_events(&mut self) -> (r: Vec<BackendEvent>)
        ensures
            r@.len() == 0,
            final(self).alive_spec() == old(self).alive_spec(),
    {
        Vec::new()
    }

    pub fn is_alive(&self) -> (r: bool)
        ensures
            r == self.alive_spec(),
    {
        self.alive
    }
}

/// Holds the active backend, or `None` when creating it failed.
pub struct WebViewBackendRes {
    pub backend: Option<StubBackend>,
}

/// The browser plugin (its systems are registered by the application).
pub struct WebViewPlugin;

/// What a portal is opened for.
pub struct WebViewConfig {
    pub petal_id: String,
    pub initial_url: Option<ParsedUrl>,
    pub role: String,
}

/// Records the initialization scripts a webview builder would be given.
pub struct WryBrowserSurfaceBuilderSpy {
    pub init_scripts: Vec<String>,
}

impl WryBrowserSurfaceBuilderSpy {
    /// The trust bar is always the (only) initialization script.
    pub fn new(config: WebViewConfig) -> (r: Self)
        ensures
            r.init_scripts@.len() == 1,
            r.init_scripts@[0]@ == TRUST_BAR_JS@,
    {
        let mut v = Vec::new();
        v.push(to_owned_string(TRUST_BAR_JS));
        WryBrowserSurfaceBuilderSpy { init_scripts: v }
    }

    pub fn init_scripts(&self) -> (r: &[String])
        ensures
            r@ == self.init_scripts@,
    {
        self.init_scripts.as_slice()
    }
}

// ---------------------------------------------------------------------------
// Command dispatch and event forwarding
// ---------------------------------------------------------------------------

/// A call to make on the backend.
#[derive(Debug, Clone)]
pub enum BackendCall {
    Navigate(ParsedUrl),
    GoBack,
    Hide,
}

/// One step of dispatching a command: call the backend, or report an event.
#[derive(Debug, Clone)]
pub enum DispatchStep {
    Call(BackendCall),
    Emit(BrowserEvent),
}

/// What dispatching one command yields.
pub open spec fn dispatch_spec(cmd: BrowserCommand, admin: bool) -> Option<DispatchStep> {
    match cmd {
        BrowserCommand::Navigate { url } => if url_allowed(url@) {
            Some(DispatchStep::Call(BackendCall::Navigate(url)))
        } else {
            None
        },
        BrowserCommand::GoBack => Some(DispatchStep::Call(BackendCall::GoBack)),
        BrowserCommand::Close => Some(DispatchStep::Call(BackendCall::Hide)),
        BrowserCommand::GetUrl => None,
        BrowserCommand::SwitchTab { tab } => if tab == BrowserTab::Config && !admin {
            None
        } else {
            Some(DispatchStep::Emit(BrowserEvent::TabChanged { tab }))
        },
    }
}

/// The message reported when a navigation command is refused.
pub open spec fn url_blocked_message(url: Seq<char>) -> Seq<char> {
    "URL blocked: "@ + url_serialization(url)
}

/// Dispatches one command: a refused `Navigate` is reported as an `Error`
/// event instead of reaching the backend; `GoBack` and `Close` become backend
/// calls (`Close` hides the window); `GetUrl` does nothing; `SwitchTab` is
/// reported back as `TabChanged`, except that the config tab is dropped for
/// a session that may not see it.
pub fn dispatch_command(cmd: BrowserCommand, filter: &TabVisibilityFilter) -> (r: Option<DispatchStep>)
    ensures
        cmd is Navigate && !url_allowed(cmd->url@) ==> (r matches Some(
            DispatchStep::Emit(BrowserEvent::Error { message }),
        ) && message@ == url_blocked_message(cmd->url@)),
        !(cmd is Navigate && !url_allowed(cmd->url@)) ==> r == dispatch_spec(
            cmd,
            can_view_config_spec(*filter),
        ),
{
    match cmd {
        BrowserCommand::Navigate { url } => {
            if is_url_allowed(&url) {
                Some(DispatchStep::Call(BackendCall::Navigate(url)))
            } else {
                let mut message = to_owned_string("URL blocked: ");
                let shown = url_as_string(&url);
                push_str(&mut message, shown.as_str());
                proof {
                    reveal_strlit("URL blocked: ");
                }
                Some(DispatchStep::Emit(BrowserEvent::Error { message }))
            }
        },
        BrowserCommand::GoBack => Some(DispatchStep::Call(BackendCall::GoBack)),
        BrowserCommand::Close => Some(DispatchStep::Call(BackendCall::Hide)),
        BrowserCommand::GetUrl => None,
        BrowserCommand::SwitchTab { tab } => {
            if tab == BrowserTab::Config && !filter.can_view_config() {
                None
            } else {
                Some(DispatchStep::Emit(BrowserEvent::TabChanged { tab }))
            }
        },
    }
}

/// The event a backend event is forwarded as (`WindowClosed` is only logged).
pub open spec fn forwarded(e: BackendEvent) -> Option<BrowserEvent> {
    match e {
        BackendEvent::UrlChanged(url) => Some(BrowserEvent::UrlChanged { url }),
        BackendEvent::LoadComplete => Some(BrowserEvent::LoadComplete),
        BackendEvent::Error(message) => Some(BrowserEvent::Error { message }),
        BackendEvent::WindowClosed => None,
    }
}

/// The forwarded events of `evs`, in order.
pub open spec fn forward_all(evs: Seq<BackendEvent>) -> Seq<BrowserEvent>
    decreases evs.len(),
{
    if evs.len() == 0 {
        Seq::empty()
    } else {
        let rest = forward_all(evs.drop_last());
        match forwarded(evs.last()) {
            Some(b) => rest.push(b),
            None => rest,
        }
    }
}

/// Converts drained backend events into browser events, in order.
pub fn forward_backend_events(drained: Vec<BackendEvent>) -> (r: Vec<BrowserEvent>)
    ensures
        r@ == forward_all(drained@),
{
    let mut out: Vec<BrowserEvent> = Vec::new();
    let mut i: usize = 0;
    let ghost all = drained@;
    let mut rest = drained;
    let n: usize = rest.len();
    while i < n
        invariant
            n == all.len(),
            i <= all.len(),
            rest@ == all.skip(i as int),
            out@ == forward_all(all.take(i as int)),
        decreases all.len() - i,
    {
        let e = rest.remove(0);
        proof {
            assert(e == all[i as int]);
            assert(all.take(i + 1).drop_last() =~= all.take(i as int));
            assert(all.take(i + 1).last() == all[i as int]);
        }
        match e {
            BackendEvent::UrlChanged(url) => out.push(BrowserEvent::UrlChanged { url }),
            BackendEvent::LoadComplete => out.push(BrowserEvent::LoadComplete),
            BackendEvent::Error(message) => out.push(BrowserEvent::Error { message }),
            BackendEvent::WindowClosed => {},
        }
        i = i + 1;
    }
    proof {
        assert(all.take(all.len() as int) =~= all);
    }
    out
}

/// Law: dispatching never shows the config tab to a session that may not
/// see it, always lets other tab switches through, turns `Close` into
/// hiding the window and `GoBack` into going back, and does nothing for
/// `GetUrl`.
pub proof fn law_dispatch_commands(cmd: BrowserCommand, admin: bool)
    ensures
        cmd == (BrowserCommand::SwitchTab { tab: BrowserTab::Config }) && !admin ==> dispatch_spec(cmd, admin)
            is None,
        forall|tab: BrowserTab|
            cmd == (BrowserCommand::SwitchTab { tab }) && (tab != BrowserTab::Config || admin) ==> #[trigger] dispatch_spec(
                BrowserCommand::SwitchTab { tab },
                admin,
            ) == Some(DispatchStep::Emit(BrowserEvent::TabChanged { tab })),
        cmd is Close ==> dispatch_spec(cmd, admin) == Some(DispatchStep::Call(BackendCall::Hide)),
        cmd is GoBack ==> dispatch_spec(cmd, admin) == Some(DispatchStep::Call(BackendCall::GoBack)),
        cmd is GetUrl ==> dispatch_spec(cmd, admin) is None,
{
}

/// Law: every backend event but a window close reaches the browser side,
/// unchanged; a window close is not forwarded.
pub proof fn law_forward_all_but_window_closed(e: BackendEvent)
    ensures
        e is WindowClosed <==> forwarded(e) is None,
        e matches BackendEvent::UrlChanged(u) ==> forwarded(e) == Some(BrowserEvent::UrlChanged { url: u }),
        e matches BackendEvent::Error(m) ==> forwarded(e) == Some(BrowserEvent::Error { message: m }),
        e is LoadComplete ==> forwarded(e) == Some(BrowserEvent::LoadComplete),
{
}

} // verus!
