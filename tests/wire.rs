use flowy_sync::delta::Delta;
use flowy_sync::revision::{checksum_of, Revision};
use flowy_sync::wire::{decode_envelope, encode_envelope, DocumentKind};

fn sample() -> Revision {
    let mut d = Delta::new();
    d.retain(2);
    d.insert("é😀x");
    d.delete(1);
    Revision::new("doc-1", 41, 42, d, checksum_of(&"abé😀x".chars().collect()))
}

#[test]
fn envelope_round_trips_every_field() {
    for kind in [DocumentKind::TextDocument, DocumentKind::NodeTree, DocumentKind::TabularGrid] {
        let rev = sample();
        let bytes = encode_envelope(kind, &rev);
        let (k, back) = decode_envelope(&bytes).unwrap();
        assert_eq!(k, kind);
        assert_eq!(back, rev);
    }
}

#[test]
fn envelope_bytes_are_exact() {
    let mut d = Delta::new();
    d.retain(3);
    let rev = Revision::new("d", 5, 6, d, vec![0xAB]);
    let bytes = encode_envelope(DocumentKind::NodeTree, &rev);
    let expected: Vec<u8> = vec![
        1, // kind
        1, 0, 0, 0, 0, 0, 0, 0, // id length
        0x64, 0, 0, 0, // 'd'
        5, 0, 0, 0, 0, 0, 0, 0, // base
        6, 0, 0, 0, 0, 0, 0, 0, // rev
        1, 0, 0, 0, 0, 0, 0, 0, // one run
        0, 3, 0, 0, 0, 0, 0, 0, 0, // retain 3
        1, 0, 0, 0, 0, 0, 0, 0, 0xAB, // checksum
    ];
    assert_eq!(bytes, expected);
}

#[test]
fn envelope_rejects_malformed_bytes() {
    let bytes = encode_envelope(DocumentKind::TextDocument, &sample());
    assert!(decode_envelope(&Vec::new()).is_none());
    let truncated = bytes[..bytes.len() - 1].to_vec();
    assert!(decode_envelope(&truncated).is_none());
    let mut trailing = bytes.clone();
    trailing.push(0);
    assert!(decode_envelope(&trailing).is_none());
    let mut bad_tag = bytes.clone();
    bad_tag[0] = 7;
    assert!(decode_envelope(&bad_tag).is_none());
    // The first character of the id replaced by a surrogate code.
    let mut surrogate = bytes.clone();
    surrogate[9] = 0x00;
    surrogate[10] = 0xD8;
    surrogate[11] = 0;
    surrogate[12] = 0;
    assert!(decode_envelope(&surrogate).is_none());
    // A run with an unknown tag.
    let mut d = Delta::new();
    d.retain(1);
    let one = encode_envelope(DocumentKind::TextDocument, &Revision::new("", 0, 1, d, vec![]));
    let mut bad_run = one.clone();
    bad_run[33] = 9;
    assert!(decode_envelope(&one).is_some());
    assert!(decode_envelope(&bad_run).is_none());
}
