use flowy_sync::algebra::UnitOp;
use flowy_sync::delta::{Delta, DeltaOp};
use flowy_sync::error::SyncError;

fn chars(s: &str) -> Vec<char> {
    s.chars().collect()
}

fn text(v: &[char]) -> String {
    v.iter().collect()
}

fn delta(ops: &[(&str, &str)]) -> Delta {
    let mut d = Delta::new();
    for (kind, arg) in ops {
        match *kind {
            "r" => d.retain(arg.parse().unwrap()),
            "i" => d.insert(arg),
            "d" => d.delete(arg.parse().unwrap()),
            _ => unreachable!(),
        }
    }
    d
}

#[test]
fn builders_skip_empty_runs() {
    let d = delta(&[("r", "0"), ("i", ""), ("d", "0"), ("r", "2")]);
    assert_eq!(d.ops, vec![DeltaOp::Retain(2)]);
    assert_eq!(d.base_len(), 2);
    assert_eq!(d.target_len(), 2);
}

#[test]
fn apply_insert_in_the_middle() {
    let d = delta(&[("r", "1"), ("i", "X"), ("r", "1")]);
    let out = d.apply(&chars("AB")).unwrap();
    assert_eq!(text(&out), "AXB");
}

#[test]
fn apply_rejects_length_mismatch() {
    // retain(2) + insert("Z") + delete(1) consumes 3 characters, not 4.
    let d = delta(&[("r", "2"), ("i", "Z"), ("d", "1")]);
    assert_eq!(d.base_len(), 3);
    assert_eq!(d.apply(&chars("ABCD")), Err(SyncError::StructuralMismatch));
    assert_eq!(text(&d.apply(&chars("ABC")).unwrap()), "ABZ");
}

#[test]
fn compose_rejects_length_mismatch() {
    let a = delta(&[("r", "2"), ("i", "Z")]);
    let b = delta(&[("r", "4")]);
    assert_eq!(a.compose(&b), Err(SyncError::StructuralMismatch));
}

#[test]
fn compose_is_canonical() {
    let a = delta(&[("r", "1"), ("r", "1"), ("i", "X")]);
    let b = delta(&[("r", "3"), ("i", "Y")]);
    let c = a.compose(&b).unwrap();
    assert_eq!(
        c.ops,
        vec![DeltaOp::Retain(2), DeltaOp::Insert(vec!['X', 'Y'])]
    );
}

#[test]
fn compose_drops_a_deleted_insert() {
    let a = delta(&[("i", "ab"), ("r", "2")]);
    let b = delta(&[("r", "1"), ("d", "2"), ("r", "1")]);
    let c = a.compose(&b).unwrap();
    assert_eq!(
        c.ops,
        vec![DeltaOp::Insert(vec!['a']), DeltaOp::Delete(1), DeltaOp::Retain(1)]
    );
    let base = chars("CD");
    let direct = b.apply(&a.apply(&base).unwrap()).unwrap();
    assert_eq!(c.apply(&base).unwrap(), direct);
    assert_eq!(text(&direct), "aD");
}

#[test]
fn compose_is_associative_on_an_example() {
    let a = delta(&[("r", "1"), ("i", "xy"), ("d", "1")]);
    let b = delta(&[("d", "1"), ("r", "2"), ("i", "z")]);
    let c = delta(&[("r", "1"), ("i", "w"), ("d", "1"), ("r", "1")]);
    let left = a.compose(&b).unwrap().compose(&c).unwrap();
    let right = a.compose(&b.compose(&c).unwrap()).unwrap();
    assert_eq!(left, right);
    assert_eq!(text(&left.apply(&chars("PQ")).unwrap()), "xwz");
}

#[test]
fn transform_shifts_concurrent_insert() {
    // Local: insert "X" at 1 of "AB"; remote: insert "Y" at 0.
    let local = delta(&[("r", "1"), ("i", "X"), ("r", "1")]);
    let remote = delta(&[("i", "Y"), ("r", "2")]);
    let (local2, remote2) = local.transform(&remote).unwrap();
    assert_eq!(
        local2.ops,
        vec![DeltaOp::Retain(2), DeltaOp::Insert(vec!['X']), DeltaOp::Retain(1)]
    );
    assert_eq!(remote2.ops, vec![DeltaOp::Insert(vec!['Y']), DeltaOp::Retain(3)]);
    let here = remote2.apply(&local.apply(&chars("AB")).unwrap()).unwrap();
    let there = local2.apply(&remote.apply(&chars("AB")).unwrap()).unwrap();
    assert_eq!(text(&here), "YAXB");
    assert_eq!(text(&there), "YAXB");
}

#[test]
fn transform_tie_puts_left_insert_first() {
    let a = delta(&[("i", "ab")]);
    let b = delta(&[("i", "cd")]);
    let (a2, b2) = a.transform(&b).unwrap();
    let one = b2.apply(&a.apply(&Vec::new()).unwrap()).unwrap();
    let two = a2.apply(&b.apply(&Vec::new()).unwrap()).unwrap();
    assert_eq!(text(&one), "abcd");
    assert_eq!(one, two);
}

#[test]
fn transform_keeps_insert_inside_deleted_range() {
    let a = delta(&[("d", "3")]);
    let b = delta(&[("r", "1"), ("i", "Q"), ("r", "2")]);
    let (a2, b2) = a.transform(&b).unwrap();
    let one = b2.apply(&a.apply(&chars("XYZ")).unwrap()).unwrap();
    let two = a2.apply(&b.apply(&chars("XYZ")).unwrap()).unwrap();
    assert_eq!(text(&one), "Q");
    assert_eq!(one, two);
    assert_eq!(a2.ops, vec![DeltaOp::Delete(1), DeltaOp::Retain(1), DeltaOp::Delete(2)]);
}

#[test]
fn transform_rejects_different_bases() {
    let a = delta(&[("r", "2")]);
    let b = delta(&[("r", "3")]);
    assert_eq!(a.transform(&b), Err(SyncError::StructuralMismatch));
}

#[test]
fn convergence_on_mixed_edits() {
    let base = chars("hello world");
    let a = delta(&[("r", "5"), ("d", "6"), ("i", "!")]);
    let b = delta(&[("i", ">> "), ("r", "6"), ("d", "1"), ("i", "W"), ("r", "4")]);
    let (a2, b2) = a.transform(&b).unwrap();
    let one = a.compose(&b2).unwrap().apply(&base).unwrap();
    let two = b.compose(&a2).unwrap().apply(&base).unwrap();
    assert_eq!(one, two);
    assert_eq!(text(&one), ">> helloW!");
}

#[test]
fn invert_undoes_a_delta() {
    let base = chars("abcdef");
    let d = delta(&[("r", "1"), ("d", "2"), ("i", "XY"), ("r", "3")]);
    let after = d.apply(&base).unwrap();
    assert_eq!(text(&after), "aXYdef");
    let inv = d.invert(&base).unwrap();
    assert_eq!(
        inv.ops,
        vec![
            DeltaOp::Retain(1),
            DeltaOp::Insert(vec!['b', 'c']),
            DeltaOp::Delete(2),
            DeltaOp::Retain(3)
        ]
    );
    assert_eq!(inv.apply(&after).unwrap(), base);
    assert_eq!(d.invert(&chars("ab")), Err(SyncError::StructuralMismatch));
}

#[test]
fn units_expand_runs() {
    let d = delta(&[("r", "2"), ("i", "q"), ("d", "1")]);
    assert_eq!(
        d.units(),
        vec![UnitOp::Keep, UnitOp::Keep, UnitOp::Put('q'), UnitOp::Drop]
    );
    let back = Delta::from_units(&d.units());
    assert_eq!(back, d);
}

#[test]
fn error_classes() {
    assert!(SyncError::TransportFailure.is_retriable());
    assert!(SyncError::SnapshotFetchFailure.is_retriable());
    assert!(!SyncError::StructuralMismatch.is_retriable());
    assert!(SyncError::StructuralMismatch.forces_recovery());
    assert!(SyncError::ChecksumMismatch.forces_recovery());
    assert!(!SyncError::InvariantViolation.forces_recovery());
}

#[test]
fn convergence_composed_onto_the_document() {
    let base = delta(&[("i", "hello world")]);
    let a = delta(&[("r", "5"), ("d", "6"), ("i", "!")]);
    let b = delta(&[("i", ">> "), ("r", "6"), ("d", "1"), ("i", "W"), ("r", "4")]);
    let (a2, b2) = a.transform(&b).unwrap();
    let left = base.compose(&a.compose(&b2).unwrap()).unwrap();
    let right = base.compose(&b.compose(&a2).unwrap()).unwrap();
    assert_eq!(left, right);
    assert_eq!(left.ops, vec![DeltaOp::Insert(chars(">> helloW!"))]);
}
