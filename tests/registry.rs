use flowy_sync::delta::Delta;
use flowy_sync::document::ServerDocument;
use flowy_sync::error::SyncError;
use flowy_sync::registry::SyncRegistry;
use flowy_sync::synchronizer::{ConnectionState, SyncAction, SyncState};

fn doc(id: &str, text: &str) -> ServerDocument {
    let mut d = Delta::new();
    d.insert(text);
    ServerDocument::from_operations(id, &d).unwrap()
}

#[test]
fn registry_opens_each_object_once() {
    let mut reg = SyncRegistry::new();
    assert_eq!(reg.open(doc("a", "x"), 1, 3), Ok(()));
    assert_eq!(reg.open(doc("b", "y"), 7, 3), Ok(()));
    assert_eq!(reg.open(doc("a", "z"), 2, 3), Err(SyncError::InvariantViolation));
    assert_eq!(reg.entries.len(), 2);
    assert_eq!(reg.find("b"), Some(1));
    assert_eq!(reg.find("c"), None);
    assert_eq!(reg.entries[1].acked_rev_id, 7);
}

#[test]
fn registry_broadcasts_connection_state() {
    let mut reg = SyncRegistry::new();
    reg.open(doc("a", "x"), 1, 3).unwrap();
    reg.open(doc("b", "y"), 1, 3).unwrap();
    let mut edit = Delta::new();
    edit.retain(1);
    edit.insert("!");
    let k = reg.find("b").unwrap();
    assert!(matches!(reg.entries[k].local_edit(edit), Ok(SyncAction::Nothing)));
    let actions = reg.broadcast(&ConnectionState::Connected);
    assert_eq!(actions.len(), 2);
    assert!(matches!(actions[0], SyncAction::Nothing));
    match &actions[1] {
        SyncAction::Send(r) => {
            assert_eq!(r.object_id, "b");
            assert_eq!(r.rev_id, 2);
        },
        other => panic!("expected a send, got {:?}", other),
    }
    assert!(reg.connected);
    assert!(reg.entries.iter().all(|s| s.connected));
    reg.open(doc("c", ""), 0, 3).unwrap();
    assert!(reg.entries[2].connected);
    let actions = reg.broadcast(&ConnectionState::Disconnected);
    assert!(actions.iter().all(|a| matches!(a, SyncAction::Nothing)));
    assert!(!reg.entries[1].connected);
}

#[test]
fn registry_close_releases_the_id() {
    let mut reg = SyncRegistry::new();
    reg.open(doc("a", "x"), 1, 3).unwrap();
    let closed = reg.close("a").unwrap();
    assert_eq!(closed.state, SyncState::Closed);
    assert!(reg.close("a").is_none());
    assert_eq!(reg.open(doc("a", "again"), 4, 3), Ok(()));
    assert_eq!(reg.entries[0].document.text(), "again");
}
