use fractalengine::portal::{
    activate_portal, clear_portal, petal_portal_deactivation, portal_cleanup, url_editor_commit,
    ActivePortal, InspectorPanelState, ModelUrlMeta, Role, TabVisibilityFilter, UrlEditorSaved,
    UrlEditorState, UrlField, UrlValidity, VisibleTabs,
};
use fractalengine::url_policy::{is_url_allowed, ParsedUrl};
use fractalengine::webview::{
    decide_navigation, dispatch_command, forward_backend_events, webview_fill_rect, BackendCall,
    BackendEvent, BackendNavState, BrowserCommand, BrowserEvent, BrowserTab, DispatchStep,
    StubBackend, WebViewConfig, WindowGeometry, WryBrowserSurfaceBuilderSpy, TRUST_BAR_JS,
};

fn url(s: &str) -> fractalengine::url_policy::ParsedUrl {
    ParsedUrl::parse(s).unwrap()
}

// --- trust bar ---

#[test]
fn trust_bar_js_constant_is_non_empty() {
    assert!(!TRUST_BAR_JS.trim().is_empty());
}

fn make_config() -> WebViewConfig {
    WebViewConfig {
        petal_id: "01HZX3Q8Y7V5N2K4M6P8R0T2W4".to_string(),
        initial_url: None,
        role: "viewer".to_string(),
    }
}

#[test]
fn wry_browser_surface_builder_spy_includes_trust_bar_init_script() {
    let config = make_config();
    let spy = WryBrowserSurfaceBuilderSpy::new(config);
    assert!(
        spy.init_scripts().iter().any(|s| s.contains("External Website")),
        "TRUST_BAR_JS must be present in init_scripts"
    );
}

// --- geometry ---

#[test]
fn test_window_geometry_creation() {
    let geo = WindowGeometry { x: 100, y: 200, width: 800, height: 600 };
    assert_eq!(geo.x, 100);
    assert_eq!(geo.y, 200);
    assert_eq!(geo.width, 800);
    assert_eq!(geo.height, 600);
}

#[test]
fn test_window_geometry_clone() {
    let geo = WindowGeometry { x: 100, y: 200, width: 800, height: 600 };
    let geo_clone = geo;
    assert_eq!(geo.x, geo_clone.x);
}

#[test]
fn test_empty_window_geometry() {
    let geo = WindowGeometry { x: 0, y: 0, width: 0, height: 0 };
    assert_eq!(geo.x, 0);
    assert_eq!(geo.y, 0);
    assert_eq!(geo.width, 0);
    assert_eq!(geo.height, 0);
}

#[test]
fn test_window_geometry_reposition() {
    let initial = WindowGeometry { x: 0, y: 0, width: 1920, height: 1080 };
    let repositioned = WindowGeometry { x: 100, y: 100, width: 1280, height: 720 };
    assert_ne!(initial.x, repositioned.x);
    assert_ne!(initial.y, repositioned.y);
    assert_ne!(initial.width, repositioned.width);
    assert_ne!(initial.height, repositioned.height);
}

#[test]
fn test_feature_flag_gating() {
    let _stub: Option<StubBackend> = None;
}

#[test]
fn webview_fill_rect_sits_at_origin_with_popup_size() {
    let r = webview_fill_rect(&WindowGeometry { x: 40, y: -7, width: 320, height: 600 });
    assert_eq!((r.x, r.y, r.width, r.height), (0, 0, 320, 600));
}

// --- backend events ---

#[test]
fn test_backend_event_variants() {
    let u = url("https://example.com");
    let event = BackendEvent::UrlChanged(u.clone());
    assert!(matches!(event, BackendEvent::UrlChanged(ref v) if v.same_url(&u)));
    let event = BackendEvent::LoadComplete;
    assert!(matches!(event, BackendEvent::LoadComplete));
    let event = BackendEvent::Error("test error".to_string());
    assert!(matches!(event, BackendEvent::Error(ref e) if e == "test error"));
    let event = BackendEvent::WindowClosed;
    assert!(matches!(event, BackendEvent::WindowClosed));
}

#[test]
fn test_backend_event_clone() {
    let event = BackendEvent::Error("test".to_string());
    let cloned = event.clone();
    assert!(matches!(cloned, BackendEvent::Error(e) if e == "test"));
}

// --- navigation decision ---

#[test]
fn decide_navigation_allows_public_https_and_emits_url_changed() {
    let mut events = Vec::new();
    assert!(decide_navigation("https://example.com/", &mut events));
    assert_eq!(events.len(), 1);
    assert!(matches!(
        &events[0],
        BackendEvent::UrlChanged(u) if u.as_text() == "https://example.com/"
    ));
}

#[test]
fn decide_navigation_blocks_private_ip_and_emits_error() {
    let mut events = Vec::new();
    assert!(!decide_navigation("http://192.168.1.1/admin", &mut events));
    assert_eq!(events.len(), 1);
    assert!(matches!(&events[0], BackendEvent::Error(msg) if msg.contains("Navigation blocked")));
}

#[test]
fn decide_navigation_blocks_localhost_and_emits_error() {
    let mut events = Vec::new();
    assert!(!decide_navigation("http://localhost:8080/", &mut events));
    assert_eq!(events.len(), 1);
    assert!(matches!(&events[0], BackendEvent::Error(_)));
}

#[test]
fn decide_navigation_blocks_non_http_scheme_and_emits_error() {
    let mut events = Vec::new();
    assert!(!decide_navigation("ftp://example.com/", &mut events));
    assert_eq!(events.len(), 1);
    assert!(matches!(&events[0], BackendEvent::Error(_)));
}

#[test]
fn decide_navigation_blocks_unparseable_url_and_emits_error() {
    let mut events = Vec::new();
    assert!(!decide_navigation("not a url at all", &mut events));
    assert_eq!(events.len(), 1);
    assert!(matches!(&events[0], BackendEvent::Error(msg) if msg.contains("invalid URL")));
}

#[test]
fn decide_navigation_does_not_emit_url_changed_when_blocked() {
    let mut events = Vec::new();
    decide_navigation("http://127.0.0.1/", &mut events);
    assert!(
        !events.iter().any(|e| matches!(e, BackendEvent::UrlChanged(_))),
        "blocked navigation must not record a UrlChanged event"
    );
}

#[test]
fn decide_navigation_messages_name_the_url() {
    let mut events = Vec::new();
    decide_navigation("http://10.1.2.3/x", &mut events);
    decide_navigation("/relative", &mut events);
    assert!(matches!(
        &events[0],
        BackendEvent::Error(m) if m == "Navigation blocked: URL not allowed: http://10.1.2.3/x"
    ));
    assert!(matches!(
        &events[1],
        BackendEvent::Error(m) if m == "Navigation blocked: invalid URL '/relative': relative URL without a base"
    ));
}

#[test]
fn parse_error_carries_the_parsers_description() {
    let e = ParsedUrl::parse("/relative").unwrap_err();
    assert_eq!(e.message, "relative URL without a base");
    let e = ParsedUrl::parse("http://[::1/").unwrap_err();
    assert_eq!(e.message, "invalid IPv6 address");
}

// --- backend bookkeeping ---

#[test]
fn navigate_dedups_until_hidden() {
    let mut s = BackendNavState::new();
    let a = url("https://example.com/a");
    assert!(s.navigate_needs_load(&a));
    s.record_loaded(a.clone());
    assert!(s.show_needed());
    s.record_shown();
    assert!(!s.navigate_needs_load(&url("https://example.com/a")));
    assert!(s.navigate_needs_load(&url("https://example.com/b")));
    assert!(s.hide_needed());
    s.record_hidden();
    assert!(!s.hide_needed());
    assert!(s.navigate_needs_load(&a));
}

#[test]
fn failed_load_stays_retryable_and_failed_hide_keeps_state() {
    let mut s = BackendNavState::new();
    let a = url("https://example.com/a");
    assert!(s.after_load(a.clone(), Err("load_url failed".to_string())).is_err());
    assert!(s.navigate_needs_load(&a), "a failed load is tried again");
    assert!(s.after_load(a.clone(), Ok(())).is_ok());
    assert!(!s.navigate_needs_load(&a));
    assert!(s.after_show(Err("set_visible failed".to_string())).is_err());
    assert!(s.show_needed());
    assert!(s.after_show(Ok(())).is_ok());
    assert!(!s.show_needed());
    assert!(s.after_hide(Err("set_visible failed".to_string())).is_err());
    assert!(s.hide_needed() && !s.navigate_needs_load(&a));
    assert!(s.after_hide(Ok(())).is_ok());
    assert!(!s.hide_needed() && s.navigate_needs_load(&a));
}

#[test]
fn drain_tracks_in_page_navigation() {
    let mut s = BackendNavState::new();
    let mut queued = vec![
        BackendEvent::LoadComplete,
        BackendEvent::UrlChanged(url("https://example.com/x")),
        BackendEvent::UrlChanged(url("https://example.com/y")),
    ];
    let drained = s.drain_events(false, &mut queued);
    assert_eq!(drained.len(), 3);
    assert!(queued.is_empty());
    assert!(!s.navigate_needs_load(&url("https://example.com/y")));
    assert!(s.navigate_needs_load(&url("https://example.com/x")));
}

#[test]
fn drain_reports_window_closed_once_then_nothing() {
    let mut s = BackendNavState::new();
    let mut queued = vec![BackendEvent::LoadComplete];
    let first = s.drain_events(true, &mut queued);
    assert_eq!(first.len(), 1);
    assert!(matches!(first[0], BackendEvent::WindowClosed));
    assert!(!s.alive);
    let second = s.drain_events(false, &mut queued);
    assert!(second.is_empty());
    assert_eq!(queued.len(), 1);
}

#[test]
fn destroy_reports_only_the_first_time() {
    let mut s = BackendNavState::new();
    assert!(s.destroy());
    assert!(!s.destroy());
}

#[test]
fn stub_backend_hands_url_to_system_browser() {
    let mut b = StubBackend::create(WindowGeometry { x: 0, y: 0, width: 1, height: 1 }, TRUST_BAR_JS).unwrap();
    assert!(b.is_alive());
    assert_eq!(b.navigate(&url("https://example.com")), "https://example.com/");
    assert!(b.go_back().is_ok() && b.show().is_ok() && b.hide_window().is_ok());
    assert!(b.drain_events().is_empty());
    b.destroy();
    assert!(!b.is_alive());
}

// --- dispatch ---

#[test]
fn dispatch_blocks_private_navigate_with_error_event() {
    let f = TabVisibilityFilter::default();
    let step = dispatch_command(BrowserCommand::Navigate { url: url("http://10.0.0.1/") }, &f);
    assert!(matches!(
        step,
        Some(DispatchStep::Emit(BrowserEvent::Error { ref message })) if message == "URL blocked: http://10.0.0.1/"
    ));
    let step = dispatch_command(BrowserCommand::Navigate { url: url("https://example.com/") }, &f);
    assert!(matches!(step, Some(DispatchStep::Call(BackendCall::Navigate(_)))));
}

#[test]
fn dispatch_close_hides_and_config_switch_needs_admin() {
    let viewer = TabVisibilityFilter { role: Role::Viewer };
    let admin = TabVisibilityFilter { role: Role::Admin };
    assert!(matches!(dispatch_command(BrowserCommand::Close, &viewer), Some(DispatchStep::Call(BackendCall::Hide))));
    assert!(dispatch_command(BrowserCommand::GetUrl, &viewer).is_none());
    assert!(dispatch_command(BrowserCommand::SwitchTab { tab: BrowserTab::Config }, &viewer).is_none());
    assert!(matches!(
        dispatch_command(BrowserCommand::SwitchTab { tab: BrowserTab::Config }, &admin),
        Some(DispatchStep::Emit(BrowserEvent::TabChanged { tab: BrowserTab::Config }))
    ));
    assert!(matches!(
        dispatch_command(BrowserCommand::SwitchTab { tab: BrowserTab::ExternalUrl }, &viewer),
        Some(DispatchStep::Emit(BrowserEvent::TabChanged { tab: BrowserTab::ExternalUrl }))
    ));
}

#[test]
fn window_closed_is_not_forwarded() {
    let out = forward_backend_events(vec![
        BackendEvent::LoadComplete,
        BackendEvent::WindowClosed,
        BackendEvent::Error("boom".to_string()),
    ]);
    assert_eq!(out.len(), 2);
    assert!(matches!(out[0], BrowserEvent::LoadComplete));
    assert!(matches!(&out[1], BrowserEvent::Error { message } if message == "boom"));
}

// --- security policy ---

#[test]
fn test_localhost_blocked() {
    assert!(!is_url_allowed(&url("http://localhost/")));
}

#[test]
fn test_127_blocked() {
    assert!(!is_url_allowed(&url("http://127.0.0.1/")));
}

#[test]
fn test_10_x_x_x_blocked() {
    assert!(!is_url_allowed(&url("http://10.0.0.1/")));
}

#[test]
fn test_172_16_blocked() {
    assert!(!is_url_allowed(&url("http://172.16.0.1/")));
}

#[test]
fn test_192_168_blocked() {
    assert!(!is_url_allowed(&url("http://192.168.1.1/")));
}

#[test]
fn test_public_allowed() {
    assert!(is_url_allowed(&url("https://example.com")));
}

#[test]
fn test_ipv6_ula_blocked() {
    assert!(!is_url_allowed(&url("http://[fc00::1]/")));
}

#[test]
fn test_rfc1918_url_blocked() {
    let blocked = [
        "http://10.0.0.1/",
        "http://172.16.0.1/",
        "http://192.168.1.1/",
        "http://127.0.0.1/",
        "http://localhost/",
    ];
    for u in &blocked {
        assert!(!is_url_allowed(&url(u)), "should block: {}", u);
    }
}

#[test]
fn ipv6_loopback_blocked_though_bracketed() {
    assert!(!is_url_allowed(&url("http://[::1]/")));
    assert!(!is_url_allowed(&url("https://[::1]:8080/x")));
    assert!(!is_url_allowed(&url("http://127.0.0.1:3000/")));
    assert!(is_url_allowed(&url("http://[2001:db8::1]/")));
}

#[test]
fn link_local_and_zero_host_blocked_public_ip_allowed() {
    assert!(!is_url_allowed(&url("http://169.254.10.1/")));
    assert!(!is_url_allowed(&url("http://0.0.0.0/")));
    assert!(!is_url_allowed(&url("file:///etc/passwd")));
    assert!(is_url_allowed(&url("http://172.32.0.1/")));
    assert!(is_url_allowed(&url("https://8.8.8.8/")));
}

// --- portal ---

#[test]
fn active_portal_starts_empty() {
    let portal = ActivePortal::new();
    assert!(portal.entity.is_none());
}

#[test]
fn selecting_model_with_allowed_url_sets_active_portal() {
    let mut portal = ActivePortal::new();
    let mut tabs = VisibleTabs::default();
    let meta = ModelUrlMeta { external_url: Some("https://example.com".to_string()), config_url: None };
    let cmds = activate_portal(&mut portal, &mut tabs, &TabVisibilityFilter::default(), 7, &meta);
    assert_eq!(portal.entity, Some(7));
    assert_eq!(cmds.len(), 2);
    assert!(matches!(cmds[0], BrowserCommand::Navigate { .. }));
    assert!(matches!(cmds[1], BrowserCommand::SwitchTab { tab: BrowserTab::ExternalUrl }));
}

#[test]
fn selecting_model_with_no_url_sets_active_portal_but_no_navigate() {
    let mut portal = ActivePortal::new();
    let mut tabs = VisibleTabs::default();
    let meta = ModelUrlMeta { external_url: None, config_url: None };
    let cmds = activate_portal(&mut portal, &mut tabs, &TabVisibilityFilter::default(), 9, &meta);
    assert_eq!(portal.entity, Some(9));
    assert!(cmds.is_empty());
}

#[test]
fn active_portal_cleared_after_selection_cleared_event() {
    let mut portal = ActivePortal { entity: Some(3) };
    let mut tabs = VisibleTabs::default();
    let close = petal_portal_deactivation(&mut portal, &mut tabs, false, true);
    assert!(close);
    assert!(portal.entity.is_none());
}

#[test]
fn scene_unload_closes_overlay_without_panic() {
    let mut portal = ActivePortal { entity: Some(3) };
    let mut tabs = VisibleTabs::default();
    assert!(portal.entity.is_some());
    let close = portal_cleanup(&mut portal, &mut tabs, false);
    assert!(close);
    assert!(portal.entity.is_none());
}

#[test]
fn clearing_a_closed_portal_sends_nothing() {
    let mut portal = ActivePortal::new();
    let mut tabs = VisibleTabs::default();
    assert!(!clear_portal(&mut portal, &mut tabs));
    assert!(!petal_portal_deactivation(&mut portal, &mut tabs, true, false));
    let mut open = ActivePortal { entity: Some(1) };
    assert!(!portal_cleanup(&mut open, &mut tabs, true));
    assert_eq!(open.entity, Some(1));
}

#[test]
fn tab_visibility_filter_default_is_not_admin() {
    let filter = TabVisibilityFilter::default();
    assert!(!filter.can_view_config());
}

#[test]
fn tab_visibility_filter_admin_can_view_config() {
    let filter = TabVisibilityFilter { role: Role::Admin };
    assert!(filter.can_view_config());
}

#[test]
fn tab_visibility_filter_non_admin_cannot_view_config() {
    for role in [Role::Viewer, Role::Editor] {
        let filter = TabVisibilityFilter { role };
        assert!(!filter.can_view_config());
    }
}

#[test]
fn visible_tabs_default_contains_only_external_url() {
    let tabs = VisibleTabs::default();
    assert!(tabs.contains(BrowserTab::ExternalUrl));
    assert!(!tabs.contains(BrowserTab::Config));
}

#[test]
fn admin_selecting_model_with_config_url_populates_visible_tabs() {
    let mut portal = ActivePortal::new();
    let mut tabs = VisibleTabs::default();
    let meta = ModelUrlMeta {
        external_url: Some("https://example.com".to_string()),
        config_url: Some("https://admin.example.com/config".to_string()),
    };
    activate_portal(&mut portal, &mut tabs, &TabVisibilityFilter { role: Role::Admin }, 1, &meta);
    assert!(tabs.contains(BrowserTab::Config));
}

#[test]
fn non_admin_selecting_model_with_config_url_does_not_see_config_tab() {
    let mut portal = ActivePortal::new();
    let mut tabs = VisibleTabs::default();
    let meta = ModelUrlMeta {
        external_url: Some("https://example.com".to_string()),
        config_url: Some("https://admin.example.com/config".to_string()),
    };
    activate_portal(&mut portal, &mut tabs, &TabVisibilityFilter { role: Role::Viewer }, 1, &meta);
    assert!(!tabs.contains(BrowserTab::Config));
}

#[test]
fn url_editor_validation_state_allowed_url_is_valid() {
    let state = UrlEditorState::from_input("https://example.com");
    assert_eq!(state.validity, UrlValidity::Valid);
}

#[test]
fn url_editor_validation_state_blocked_url_is_invalid() {
    let state = UrlEditorState::from_input("http://192.168.1.1/dashboard");
    assert_eq!(state.validity, UrlValidity::Blocked);
}

#[test]
fn url_editor_validation_state_empty_is_neutral() {
    let state = UrlEditorState::from_input("");
    assert_eq!(state.validity, UrlValidity::Empty);
}

#[test]
fn url_editor_save_updates_model_url_meta() {
    let portal = ActivePortal { entity: Some(5) };
    let mut meta = Some(ModelUrlMeta {
        external_url: Some("https://old.example.com".to_string()),
        config_url: None,
    });
    let event = UrlEditorSaved {
        entity: 5,
        field: UrlField::External,
        value: "https://new.example.com".to_string(),
    };
    let cmd = url_editor_commit(&event, &mut meta, &portal);
    assert_eq!(meta.unwrap().external_url.as_deref(), Some("https://new.example.com"));
    assert!(matches!(cmd, Some(BrowserCommand::Navigate { .. })));
}

#[test]
fn url_editor_save_blocked_url_does_not_update_meta() {
    let portal = ActivePortal::new();
    let mut meta = Some(ModelUrlMeta {
        external_url: Some("https://original.example.com".to_string()),
        config_url: None,
    });
    let event = UrlEditorSaved {
        entity: 5,
        field: UrlField::External,
        value: "http://10.0.0.1/secret".to_string(),
    };
    let cmd = url_editor_commit(&event, &mut meta, &portal);
    assert!(cmd.is_none());
    assert_eq!(meta.unwrap().external_url.as_deref(), Some("https://original.example.com"));
}

#[test]
fn config_url_editor_visibility_follows_role() {
    let viewer_state = InspectorPanelState::for_filter(&TabVisibilityFilter { role: Role::Viewer });
    let admin_state = InspectorPanelState::for_filter(&TabVisibilityFilter { role: Role::Admin });
    assert!(!viewer_state.config_url_field_visible);
    assert!(admin_state.config_url_field_visible);
}

#[test]
fn tab_switch_guard_drops_only_unauthorized_config_switches() {
    let viewer = TabVisibilityFilter { role: Role::Viewer };
    let out = fractalengine::portal::tab_switch_guard(
        &viewer,
        vec![
            BrowserCommand::SwitchTab { tab: BrowserTab::Config },
            BrowserCommand::Close,
            BrowserCommand::SwitchTab { tab: BrowserTab::ExternalUrl },
        ],
    );
    assert_eq!(out.len(), 2);
    assert!(matches!(out[0], BrowserCommand::Close));
    let admin = TabVisibilityFilter { role: Role::Admin };
    let out = fractalengine::portal::tab_switch_guard(&admin, vec![BrowserCommand::SwitchTab { tab: BrowserTab::Config }]);
    assert_eq!(out.len(), 1);
}
