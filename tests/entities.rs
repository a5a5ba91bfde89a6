use flowy_sync::cloud::{
    DocumentEvent, PgPoolMode, SupabaseFolderCloudServiceImpl, SupabaseUserAuthServiceImpl,
};
use flowy_sync::row::{CreateRowPayloadPB, ErrorCode, InsertedRowPB, RowDataPB, RowIdPB, RowPB};
use flowy_sync::sidecar::{Plugin, PluginId, SidecarState};
use flowy_sync::user::{login_email, login_password, random_email, UpdateUserProfilePayloadPB};

fn row(id: &str) -> RowPB {
    RowPB { id: id.to_string(), height: 60 }
}

#[test]
fn inserted_row_constructors() {
    let a = InsertedRowPB::new(row("r1"));
    assert_eq!(a.row, row("r1"));
    assert_eq!(a.index, None);
    assert!(!a.is_new);
    let b = InsertedRowPB::with_index(row("r2"), 3);
    assert_eq!(b.index, Some(3));
    assert!(!b.is_new);
}

#[test]
fn row_id_requires_both_ids() {
    let ok = RowIdPB { view_id: "v".to_string(), row_id: "r".to_string() }.into_params().unwrap();
    assert_eq!(ok.view_id, "v");
    assert_eq!(ok.row_id, "r");
    let no_view = RowIdPB { view_id: String::new(), row_id: "r".to_string() };
    assert_eq!(no_view.into_params().err(), Some(ErrorCode::DatabaseIdIsEmpty));
    let no_row = RowIdPB { view_id: "v".to_string(), row_id: String::new() };
    assert_eq!(no_row.into_params().err(), Some(ErrorCode::RowIdIsEmpty));
}

#[test]
fn create_row_payload_checks_ids() {
    let mut data = RowDataPB::default();
    data.cell_data_by_field_id.insert("f1".to_string(), "hello".to_string());
    let payload = CreateRowPayloadPB {
        view_id: "v".to_string(),
        start_row_id: Some("r0".to_string()),
        group_id: Some("g".to_string()),
        data: Some(data),
    };
    let params = payload.into_params().unwrap();
    assert_eq!(params.view_id, "v");
    assert_eq!(params.start_row_id.as_deref(), Some("r0"));
    assert_eq!(params.group_id.as_deref(), Some("g"));
    assert_eq!(params.cell_data_by_field_id.unwrap().get("f1").map(|s| s.as_str()), Some("hello"));

    let no_view = CreateRowPayloadPB::default();
    assert_eq!(no_view.into_params().err(), Some(ErrorCode::ViewIdIsInvalid));
    let empty_start = CreateRowPayloadPB {
        view_id: "v".to_string(),
        start_row_id: Some(String::new()),
        ..Default::default()
    };
    assert_eq!(empty_start.into_params().err(), Some(ErrorCode::RowIdIsEmpty));
}

#[test]
fn update_profile_builder_sets_fields() {
    let p = UpdateUserProfilePayloadPB::new("u1")
        .name("Annie")
        .email("annie@appflowy.io")
        .password("pw")
        .icon_url("icon.png")
        .openai_key("key");
    assert_eq!(p.id, "u1");
    assert_eq!(p.name.as_deref(), Some("Annie"));
    assert_eq!(p.email.as_deref(), Some("annie@appflowy.io"));
    assert_eq!(p.password.as_deref(), Some("pw"));
    assert_eq!(p.icon_url.as_deref(), Some("icon.png"));
    assert_eq!(p.openai_key.as_deref(), Some("key"));
    let q = UpdateUserProfilePayloadPB::new("u2").email("e");
    assert_eq!(q.name, None);
    assert_eq!(q.email.as_deref(), Some("e"));
}

#[test]
fn test_account_and_random_email() {
    assert_eq!(login_email(), "annie2@appflowy.io");
    assert_eq!(login_password(), "HelloWorld!123");
    let e = random_email();
    assert_eq!(e.chars().count(), 32);
    assert!(e.ends_with("@appflowy.io"));
    assert!(e[..20]
        .chars()
        .all(|c| c == '_' || c == '-' || c.is_ascii_alphanumeric()));
    assert_ne!(random_email(), e);
}

#[test]
fn pool_mode_prepared_statements() {
    assert!(PgPoolMode::default().support_prepare_cached());
    assert!(PgPoolMode::Session.support_prepare_cached());
    assert!(!PgPoolMode::Transaction.support_prepare_cached());
}

#[test]
fn service_holders_keep_their_server() {
    assert_eq!(SupabaseFolderCloudServiceImpl::new(7u8).server, 7);
    assert_eq!(SupabaseUserAuthServiceImpl::new("s").server, "s");
    assert_ne!(DocumentEvent::DocumentRedo, DocumentEvent::DocumentUndo);
}

#[test]
fn sidecar_registry_connect_and_disconnect() {
    let mut state = SidecarState::new();
    state.plugin_connect(Ok(Plugin { id: PluginId(1), name: "a".to_string() }));
    state.plugin_connect(Err(std::io::Error::new(std::io::ErrorKind::Other, "spawn failed")));
    state.plugin_connect(Ok(Plugin { id: PluginId(2), name: "b".to_string() }));
    assert_eq!(state.plugins.len(), 2);
    assert!(state.plugin_disconnect(PluginId(9)).is_none());
    let gone = state.plugin_disconnect(PluginId(1)).unwrap();
    assert_eq!(gone.name, "a");
    assert_eq!(state.plugins.len(), 1);
    assert_eq!(state.plugins[0].id, PluginId(2));
}
