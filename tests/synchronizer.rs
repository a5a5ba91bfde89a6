use flowy_sync::delta::{Delta, DeltaOp};
use flowy_sync::document::ServerDocument;
use flowy_sync::error::SyncError;
use flowy_sync::revision::{checksum_of, Revision};
use flowy_sync::synchronizer::{ConnectionState, RevisionSynchronizer, SyncAction, SyncState};

fn chars(s: &str) -> Vec<char> {
    s.chars().collect()
}

fn text(v: &[char]) -> String {
    v.iter().collect()
}

fn inserted(s: &str) -> Delta {
    let mut d = Delta::new();
    d.insert(s);
    d
}

fn edit(before: usize, ins: &str, after: usize) -> Delta {
    let mut d = Delta::new();
    d.retain(before);
    d.insert(ins);
    d.retain(after);
    d
}

fn opened(content: &str, rev_id: u64) -> RevisionSynchronizer {
    let doc = ServerDocument::from_operations("doc", &inserted(content)).unwrap();
    let mut sync = RevisionSynchronizer::new(doc, rev_id, 2);
    assert!(matches!(
        sync.connection_changed(&ConnectionState::Connected),
        SyncAction::Nothing
    ));
    sync
}

fn remote(base: u64, rev_id: u64, delta: Delta, after: &str) -> Revision {
    Revision::new("doc", base, rev_id, delta, checksum_of(&chars(after)))
}

#[test]
fn checksum_is_md5_of_the_text() {
    let empty = checksum_of(&Vec::new());
    assert_eq!(
        empty,
        vec![
            0xd4, 0x1d, 0x8c, 0xd9, 0x8f, 0x00, 0xb2, 0x04, 0xe9, 0x80, 0x09, 0x98, 0xec, 0xf8,
            0x42, 0x7e
        ]
    );
    let abc = checksum_of(&chars("abc"));
    assert_eq!(abc[0], 0x90);
    assert_eq!(abc[15], 0x72);
}

#[test]
fn document_compose_and_snapshot() {
    let mut doc = ServerDocument::from_operations("d1", &inserted("AB")).unwrap();
    assert_eq!(doc.object_id(), "d1");
    assert_eq!(doc.text(), "AB");
    assert_eq!(doc.compose(&edit(1, "X", 1)), Ok(()));
    assert_eq!(text(&doc.materialize()), "AXB");
    assert_eq!(doc.compose(&edit(1, "X", 1)), Err(SyncError::StructuralMismatch));
    assert_eq!(text(&doc.materialize()), "AXB");
    assert_eq!(doc.set_operations(&edit(0, "Q", 1)), Err(SyncError::StructuralMismatch));
    assert_eq!(doc.set_operations(&inserted("new")), Ok(()));
    assert_eq!(doc.text(), "new");
    assert_eq!(doc.operations().ops, vec![DeltaOp::Insert(chars("new"))]);
    assert!(ServerDocument::from_operations("d2", &edit(1, "", 0)).is_err());
}

#[test]
fn document_transform_against_insert_only_delta() {
    let doc = ServerDocument::from_operations("d1", &inserted("AB")).unwrap();
    let (mine, theirs) = doc.transform(&inserted("C")).unwrap();
    assert_eq!(mine.ops, vec![DeltaOp::Insert(chars("AB")), DeltaOp::Retain(1)]);
    assert_eq!(theirs.ops, vec![DeltaOp::Retain(2), DeltaOp::Insert(chars("C"))]);
    assert_eq!(doc.transform(&edit(1, "C", 0)), Err(SyncError::StructuralMismatch));
}

#[test]
fn concurrent_inserts_converge_to_yaxb() {
    let mut sync = opened("AB", 5);
    let sent = match sync.local_edit(edit(1, "X", 1)).unwrap() {
        SyncAction::Send(r) => r,
        other => panic!("expected a send, got {:?}", other),
    };
    assert_eq!(sent.base_rev_id, 5);
    assert_eq!(sent.rev_id, 6);
    assert_eq!(sent.checksum, checksum_of(&chars("AXB")));
    assert_eq!(sync.state, SyncState::Syncing);
    assert_eq!(sync.document.text(), "AXB");

    let incoming = remote(5, 6, edit(0, "Y", 2), "YAB");
    assert!(matches!(sync.receive_remote(&incoming), Ok(SyncAction::Nothing)));
    assert_eq!(sync.document.text(), "YAXB");
    assert_eq!(text(&sync.synced), "YAB");
    assert_eq!(sync.acked_rev_id, 6);
    assert_eq!(sync.pending.len(), 1);
    let rebased = &sync.pending[0];
    assert_eq!(rebased.base_rev_id, 6);
    assert_eq!(rebased.rev_id, 7);
    assert_eq!(rebased.delta, edit(2, "X", 1));
    assert_eq!(rebased.checksum, checksum_of(&chars("YAXB")));

    assert!(matches!(sync.receive_ack(7), SyncAction::Nothing));
    assert_eq!(sync.state, SyncState::Idle);
    assert_eq!(text(&sync.synced), "YAXB");
    assert!(sync.pending.is_empty());
}

#[test]
fn resent_remote_revision_is_ignored() {
    let mut sync = opened("AB", 5);
    let incoming = remote(5, 6, edit(0, "Y", 2), "YAB");
    assert!(matches!(sync.receive_remote(&incoming), Ok(SyncAction::Nothing)));
    assert_eq!(sync.document.text(), "YAB");
    assert!(matches!(sync.receive_remote(&incoming), Ok(SyncAction::Nothing)));
    assert_eq!(sync.document.text(), "YAB");
    assert_eq!(sync.acked_rev_id, 6);
    assert_eq!(sync.state, SyncState::Idle);
}

#[test]
fn pending_queue_drains_in_order() {
    let mut sync = opened("", 0);
    assert!(matches!(sync.local_edit(inserted("a")), Ok(SyncAction::Send(_))));
    assert!(matches!(sync.local_edit(edit(1, "b", 0)), Ok(SyncAction::Nothing)));
    assert!(matches!(sync.local_edit(edit(2, "c", 0)), Ok(SyncAction::Nothing)));
    assert_eq!(sync.pending.len(), 3);
    // Only the head can be acknowledged.
    assert!(matches!(sync.receive_ack(2), SyncAction::Nothing));
    assert_eq!(sync.pending.len(), 3);
    match sync.receive_ack(1) {
        SyncAction::Send(r) => assert_eq!(r.rev_id, 2),
        other => panic!("expected a send, got {:?}", other),
    }
    // A repeated acknowledgment changes nothing.
    assert!(matches!(sync.receive_ack(1), SyncAction::Nothing));
    assert_eq!(sync.pending.len(), 2);
    assert!(matches!(sync.receive_ack(2), SyncAction::Send(_)));
    assert!(matches!(sync.receive_ack(3), SyncAction::Nothing));
    assert_eq!(sync.state, SyncState::Idle);
    assert_eq!(text(&sync.synced), "abc");
    assert_eq!(sync.acked_rev_id, 3);
}

#[test]
fn gap_forces_recovery_and_snapshot_restores() {
    let mut sync = opened("AB", 5);
    assert!(matches!(sync.local_edit(edit(2, "!", 0)), Ok(SyncAction::Send(_))));
    let far = remote(8, 9, edit(0, "Z", 2), "ZAB");
    assert!(matches!(sync.receive_remote(&far), Ok(SyncAction::FetchSnapshot)));
    assert_eq!(sync.state, SyncState::Recovering);
    assert!(matches!(sync.snapshot_failed(), SyncAction::FetchSnapshot));
    assert!(matches!(sync.local_edit(edit(3, "?", 0)), Ok(SyncAction::Nothing)));

    let snapshot = inserted("fresh");
    let wrong = checksum_of(&chars("stale"));
    assert_eq!(sync.apply_snapshot(&snapshot, 9, &wrong), Err(SyncError::ChecksumMismatch));
    assert_eq!(sync.state, SyncState::Recovering);
    assert_eq!(
        sync.apply_snapshot(&edit(1, "x", 0), 9, &checksum_of(&chars("fresh"))),
        Err(SyncError::StructuralMismatch)
    );
    let right = checksum_of(&chars("fresh"));
    assert_eq!(sync.apply_snapshot(&snapshot, 9, &right), Ok(()));
    assert_eq!(sync.document.text(), "fresh");
    assert_eq!(checksum_of(&sync.document.materialize()), right);
    assert!(sync.pending.is_empty());
    assert_eq!(sync.acked_rev_id, 9);
    assert_eq!(sync.state, SyncState::Idle);
    match sync.local_edit(edit(5, "!", 0)).unwrap() {
        SyncAction::Send(r) => assert!(r.rev_id > 9),
        other => panic!("expected a send, got {:?}", other),
    }
    assert_eq!(sync.apply_snapshot(&snapshot, 9, &right), Err(SyncError::InvariantViolation));
}

#[test]
fn corrupt_remote_revision_forces_recovery() {
    let mut sync = opened("AB", 5);
    let bad_sum = remote(5, 6, edit(0, "Y", 2), "nope");
    assert!(matches!(sync.receive_remote(&bad_sum), Ok(SyncAction::FetchSnapshot)));
    assert_eq!(sync.state, SyncState::Recovering);
    assert_eq!(sync.document.text(), "AB");

    let mut sync = opened("AB", 5);
    let bad_len = remote(5, 6, edit(0, "Y", 3), "YAB");
    assert!(matches!(sync.receive_remote(&bad_len), Ok(SyncAction::FetchSnapshot)));
    assert_eq!(sync.state, SyncState::Recovering);

    let mut sync = opened("AB", 5);
    let other = Revision::new("other", 5, 6, edit(0, "Y", 2), checksum_of(&chars("YAB")));
    assert!(matches!(sync.receive_remote(&other), Err(SyncError::InvariantViolation)));
}

#[test]
fn local_edit_with_wrong_length_is_refused() {
    let mut sync = opened("AB", 5);
    assert!(matches!(
        sync.local_edit(edit(3, "X", 0)),
        Err(SyncError::StructuralMismatch)
    ));
    assert_eq!(sync.state, SyncState::Idle);
    assert!(sync.pending.is_empty());
}

#[test]
fn reconnect_resends_head_unchanged() {
    let mut sync = opened("AB", 5);
    assert!(matches!(
        sync.connection_changed(&ConnectionState::Disconnected),
        SyncAction::Nothing
    ));
    assert!(matches!(sync.local_edit(edit(0, "X", 2)), Ok(SyncAction::Nothing)));
    assert_eq!(sync.state, SyncState::Syncing);
    let head = sync.pending[0].duplicate();
    assert!(matches!(
        sync.connection_changed(&ConnectionState::Connecting),
        SyncAction::Nothing
    ));
    match sync.connection_changed(&ConnectionState::Connected) {
        SyncAction::Send(r) => assert_eq!(r, head),
        other => panic!("expected a send, got {:?}", other),
    }
    assert!(matches!(
        sync.connection_changed(&ConnectionState::Error("reset".to_string())),
        SyncAction::Nothing
    ));
    assert!(!sync.connected);
}

#[test]
fn send_failures_retry_until_the_ceiling() {
    let mut sync = opened("AB", 5);
    assert!(matches!(sync.local_edit(edit(0, "X", 2)), Ok(SyncAction::Send(_))));
    assert!(matches!(sync.send_failed(), SyncAction::Send(_)));
    assert!(matches!(sync.send_failed(), SyncAction::Send(_)));
    assert!(matches!(sync.send_failed(), SyncAction::ReportOffline));
    assert_eq!(sync.failures, 3);
    assert!(matches!(sync.local_edit(edit(3, "Y", 0)), Ok(SyncAction::Nothing)));
    assert_eq!(sync.document.text(), "XABY");
    assert!(matches!(sync.receive_ack(6), SyncAction::Send(_)));
    assert_eq!(sync.failures, 0);
}

#[test]
fn closed_synchronizer_accepts_nothing() {
    let mut sync = opened("AB", 5);
    sync.close();
    assert_eq!(sync.state, SyncState::Closed);
    assert!(matches!(sync.local_edit(edit(0, "X", 2)), Err(SyncError::ObjectClosed)));
    let incoming = remote(5, 6, edit(0, "Y", 2), "YAB");
    assert!(matches!(sync.receive_remote(&incoming), Err(SyncError::ObjectClosed)));
    assert!(matches!(
        sync.connection_changed(&ConnectionState::Connected),
        SyncAction::Nothing
    ));
    assert_eq!(sync.document.text(), "AB");
}

#[test]
fn structural_mismatch_against_length_four() {
    let mut doc = ServerDocument::from_operations("d", &inserted("ABCD")).unwrap();
    let mut d = Delta::new();
    d.retain(2);
    d.insert("Z");
    d.delete(1);
    assert_eq!(doc.compose(&d), Err(SyncError::StructuralMismatch));
    assert_eq!(doc.text(), "ABCD");
    let mut sync = RevisionSynchronizer::new(doc, 0, 1);
    assert!(matches!(sync.local_edit(d), Err(SyncError::StructuralMismatch)));
    assert!(sync.pending.is_empty());
}

#[test]
fn remote_revision_rebases_every_pending_revision() {
    let mut sync = opened("abc", 10);
    assert!(matches!(sync.local_edit(edit(3, "1", 0)), Ok(SyncAction::Send(_))));
    assert!(matches!(sync.local_edit(edit(0, "2", 4)), Ok(SyncAction::Nothing)));
    assert_eq!(sync.document.text(), "2abc1");
    let mut del = Delta::new();
    del.retain(1);
    del.delete(1);
    del.retain(1);
    let incoming = remote(10, 11, del, "ac");
    assert!(matches!(sync.receive_remote(&incoming), Ok(SyncAction::Nothing)));
    assert_eq!(sync.document.text(), "2ac1");
    assert_eq!(text(&sync.synced), "ac");
    assert_eq!(sync.pending.len(), 2);
    assert_eq!(sync.pending[0].rev_id, 12);
    assert_eq!(sync.pending[0].base_rev_id, 11);
    assert_eq!(sync.pending[0].delta, edit(2, "1", 0));
    assert_eq!(sync.pending[0].checksum, checksum_of(&chars("ac1")));
    assert_eq!(sync.pending[1].rev_id, 13);
    assert_eq!(sync.pending[1].delta, edit(0, "2", 3));
    assert_eq!(sync.pending[1].checksum, checksum_of(&chars("2ac1")));
    assert!(matches!(sync.receive_ack(12), SyncAction::Send(_)));
    assert!(matches!(sync.receive_ack(13), SyncAction::Nothing));
    assert_eq!(text(&sync.synced), "2ac1");
}
