use fractalengine::db_routing::InspectorFormState;
use fractalengine::settings_results::{
    handle_api_token_minted, handle_api_token_revoked, handle_api_tokens_listed, handle_field_defs_listed,
    handle_peer_roles_resolved, handle_role_assigned, handle_role_revoked, handle_scoped_api_tokens_listed,
    handle_scoped_invite_generated, tokens_to_entries, ApiTokenInfo, EntitySettingsDialog, FieldDefInfo,
    TokenListRequest,
};

fn dialog() -> EntitySettingsDialog {
    EntitySettingsDialog {
        peer_roles: vec![],
        roles_loading: true,
        generated_invite_link: None,
        api_tokens: vec![],
        api_tokens_loading: true,
        scoped_api_tokens: vec![],
        scoped_tokens_loading: true,
        generated_api_token: None,
    }
}

fn info(jti: &str) -> ApiTokenInfo {
    ApiTokenInfo {
        jti: jti.into(),
        scope: "VERSE#v1".into(),
        max_role: "viewer".into(),
        label: Some("ci".into()),
        created_at: "t0".into(),
        expires_at: "t1".into(),
        revoked: false,
        sub: "did:me".into(),
    }
}

#[test]
fn api_tokens_listed_populates_inspector() {
    let mut ui: Option<EntitySettingsDialog> = None;
    let mut ins = InspectorFormState::new();
    ins.api_tokens_loading = true;
    let infos = vec![info("j1")];
    handle_api_tokens_listed(&infos, 1, &mut ui, &mut ins);
    assert_eq!(ins.api_tokens.len(), 1);
    assert_eq!(ins.api_tokens[0].jti, "j1");
    assert_eq!(ins.api_tokens_total, 1);
    assert!(!ins.api_tokens_loading);
}

#[test]
fn api_tokens_listed_fills_open_settings_dialog() {
    let mut ui = Some(dialog());
    let mut ins = InspectorFormState::new();
    handle_api_tokens_listed(&vec![info("j1"), info("j2")], 2, &mut ui, &mut ins);
    let d = ui.unwrap();
    assert_eq!(d.api_tokens.len(), 2);
    assert_eq!(d.api_tokens[1].jti, "j2");
    assert_eq!(d.api_tokens[0].label.as_deref(), Some("ci"));
    assert!(!d.api_tokens_loading);
    assert!(d.scoped_tokens_loading, "other lists untouched");
}

#[test]
fn scoped_tokens_listed_fill_scoped_view() {
    let mut ui = Some(dialog());
    let mut ins = InspectorFormState::new();
    ins.api_tokens_loading = true;
    handle_scoped_api_tokens_listed(&vec![info("s1")], 9, &mut ui, &mut ins);
    let d = ui.unwrap();
    assert_eq!(d.scoped_api_tokens.len(), 1);
    assert!(!d.scoped_tokens_loading);
    assert!(d.api_tokens_loading);
    assert_eq!(ins.api_tokens[0].jti, "s1");
    assert_eq!(ins.api_tokens_total, 9);
    assert!(!ins.api_tokens_loading);
}

#[test]
fn tokens_convert_field_for_field() {
    let entries = tokens_to_entries(&vec![info("j1")]);
    assert_eq!(entries[0].scope, "VERSE#v1");
    assert_eq!(entries[0].max_role, "viewer");
    assert_eq!(entries[0].created_at, "t0");
    assert_eq!(entries[0].expires_at, "t1");
    assert_eq!(entries[0].sub, "did:me");
    assert!(!entries[0].revoked);
}

#[test]
fn minted_token_is_shown_and_list_refreshed_at_current_page() {
    let mut ui = Some(dialog());
    let mut ins = InspectorFormState::new();
    ins.api_tokens_page = 3;
    let req = handle_api_token_minted("tok-123", &mut ui, &mut ins, 20);
    assert_eq!(ui.unwrap().generated_api_token.as_deref(), Some("tok-123"));
    assert_eq!(ins.generated_api_token.as_deref(), Some("tok-123"));
    assert_eq!(req, TokenListRequest::All { offset: 60, limit: 20 });
}

#[test]
fn revoked_token_refreshes_scoped_list() {
    let mut ins = InspectorFormState::new();
    ins.api_token_scope_buf = "VERSE#v1".into();
    let req = handle_api_token_revoked(&ins, 10);
    assert_eq!(
        req,
        TokenListRequest::ByScope { scope_prefix: "VERSE#v1".into(), offset: 0, limit: 10 }
    );
}

#[test]
fn field_defs_listed_populates_inspector() {
    let mut ins = InspectorFormState::new();
    ins.field_defs_loading = true;
    let defs = vec![FieldDefInfo {
        field_def_id: "fd1".into(),
        scope: "VERSE#v1".into(),
        entity_type: "node".into(),
        key: "temp".into(),
        value_type: "number".into(),
        default_val: None,
        created_by: "did:x".into(),
        created_at: "now".into(),
    }];
    handle_field_defs_listed(&defs, &mut ins);
    assert_eq!(ins.field_defs.len(), 1);
    assert_eq!(ins.field_defs[0].key, "temp");
    assert!(!ins.field_defs_loading);
}

#[test]
fn peer_roles_fill_the_dialog_and_follow_assign_and_revoke() {
    let mut ui = Some(dialog());
    handle_peer_roles_resolved(
        &vec![("did:a".to_string(), "viewer".to_string()), ("did:b".to_string(), "editor".to_string())],
        &mut ui,
    );
    {
        let d = ui.as_ref().unwrap();
        assert_eq!(d.peer_roles.len(), 2);
        assert!(!d.roles_loading);
        assert_eq!(d.peer_roles[1].role, "editor");
        assert!(d.peer_roles[0].display_name.is_empty());
        assert!(!d.peer_roles[0].is_online);
    }
    handle_role_assigned("did:a", "manager", &mut ui);
    assert_eq!(ui.as_ref().unwrap().peer_roles[0].role, "manager");
    handle_role_revoked("did:b", &mut ui);
    assert_eq!(ui.as_ref().unwrap().peer_roles[1].role, "none");
    handle_role_assigned("did:zzz", "owner", &mut ui);
    assert_eq!(ui.as_ref().unwrap().peer_roles[0].role, "manager");
    assert_eq!(ui.as_ref().unwrap().peer_roles[1].role, "none");
}

#[test]
fn results_without_open_dialog_change_nothing_there() {
    let mut ui: Option<EntitySettingsDialog> = None;
    handle_peer_roles_resolved(&vec![("did:a".to_string(), "viewer".to_string())], &mut ui);
    handle_scoped_invite_generated("fe://invite", &mut ui);
    assert!(ui.is_none());
}

#[test]
fn scoped_invite_link_is_shown() {
    let mut ui = Some(dialog());
    handle_scoped_invite_generated("fe://invite/abc", &mut ui);
    assert_eq!(ui.unwrap().generated_invite_link.as_deref(), Some("fe://invite/abc"));
}
