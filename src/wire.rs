//! The byte encoding of revision envelopes.
use vstd::prelude::*;

use crate::delta::{collect_chars, op_units, units_of, Delta, DeltaOp};
use crate::revision::Revision;

verus! {

/// The little-endian bytes of a 64-bit integer.
#[verifier::opaque]
pub open spec fn enc_u64(x: u64) -> Seq<u8> {
    seq![
        x as u8,
        (x >> 8u64) as u8,
        (x >> 16u64) as u8,
        (x >> 24u64) as u8,
        (x >> 32u64) as u8,
        (x >> 40u64) as u8,
        (x >> 48u64) as u8,
        (x >> 56u64) as u8,
    ]
}

/// The 64-bit integer of eight little-endian bytes.
#[verifier::opaque]
pub open spec fn dec_u64(b: Seq<u8>) -> u64 {
    (b[0] as u64) | ((b[1] as u64) << 8u64) | ((b[2] as u64) << 16u64) | ((b[3] as u64) << 24u64)
        | ((b[4] as u64) << 32u64) | ((b[5] as u64) << 40u64) | ((b[6] as u64) << 48u64) | ((
    b[7] as u64) << 56u64)
}

/// The little-endian bytes of a 32-bit integer.
#[verifier::opaque]
pub open spec fn enc_u32(x: u32) -> Seq<u8> {
    seq![x as u8, (x >> 8u32) as u8, (x >> 16u32) as u8, (x >> 24u32) as u8]
}

/// The 32-bit integer of four little-endian bytes.
#[verifier::opaque]
pub open spec fn dec_u32(b: Seq<u8>) -> u32 {
    (b[0] as u32) | ((b[1] as u32) << 8u32) | ((b[2] as u32) << 16u32) | ((b[3] as u32) << 24u32)
}

proof fn lemma_u64_round_trip(x: u64)
    ensures
        enc_u64(x).len() == 8,
        dec_u64(enc_u64(x)) == x,
{
    reveal(enc_u64);
    reveal(dec_u64);
    assert(((x as u8) as u64) | ((((x >> 8u64) as u8) as u64) << 8u64) | ((((
    x >> 16u64) as u8) as u64) << 16u64) | ((((x >> 24u64) as u8) as u64) << 24u64) | ((((
    x >> 32u64) as u8) as u64) << 32u64) | ((((x >> 40u64) as u8) as u64) << 40u64) | ((((
    x >> 48u64) as u8) as u64) << 48u64) | ((((x >> 56u64) as u8) as u64) << 56u64) == x)
        by (bit_vector);
}

proof fn lemma_u32_round_trip(x: u32)
    ensures
        enc_u32(x).len() == 4,
        dec_u32(enc_u32(x)) == x,
{
    reveal(enc_u32);
    reveal(dec_u32);
    assert(((x as u8) as u32) | ((((x >> 8u32) as u8) as u32) << 8u32) | ((((
    x >> 16u32) as u8) as u32) << 16u32) | ((((x >> 24u32) as u8) as u32) << 24u32) == x)
        by (bit_vector);
}

/// Appends the little-endian bytes of `x`.
pub fn put_u64(out: &mut Vec<u8>, x: u64)
    ensures
        final(out)@ == old(out)@ + enc_u64(x),
{
    reveal(enc_u64);
    out.push(x as u8);
    out.push((x >> 8u64) as u8);
    out.push((x >> 16u64) as u8);
    out.push((x >> 24u64) as u8);
    out.push((x >> 32u64) as u8);
    out.push((x >> 40u64) as u8);
    out.push((x >> 48u64) as u8);
    out.push((x >> 56u64) as u8);
    assert(out@ =~= old(out)@ + enc_u64(x));
}

/// Appends the little-endian bytes of `x`.
pub fn put_u32(out: &mut Vec<u8>, x: u32)
    ensures
        final(out)@ == old(out)@ + enc_u32(x),
{
    reveal(enc_u32);
    out.push(x as u8);
    out.push((x >> 8u32) as u8);
    out.push((x >> 16u32) as u8);
    out.push((x >> 24u32) as u8);
    assert(out@ =~= old(out)@ + enc_u32(x));
}

/// Reads eight little-endian bytes at `pos`.
pub fn get_u64(b: &Vec<u8>, pos: usize) -> (r: u64)
    requires
        pos + 8 <= b@.len(),
    ensures
        r == dec_u64(b@.subrange(pos as int, pos + 8)),
{
    let _n = b.len();
    reveal(dec_u64);
    (b[pos] as u64) | ((b[pos + 1] as u64) << 8u64) | ((b[pos + 2] as u64) << 16u64) | ((b[pos
        + 3] as u64) << 24u64) | ((b[pos + 4] as u64) << 32u64) | ((b[pos + 5] as u64) << 40u64)
        | ((b[pos + 6] as u64) << 48u64) | ((b[pos + 7] as u64) << 56u64)
}

/// Reads four little-endian bytes at `pos`.
pub fn get_u32(b: &Vec<u8>, pos: usize) -> (r: u32)
    requires
        pos + 4 <= b@.len(),
    ensures
        r == dec_u32(b@.subrange(pos as int, pos + 4)),
{
    let _n = b.len();
    reveal(dec_u32);
    (b[pos] as u32) | ((b[pos + 1] as u32) << 8u32) | ((b[pos + 2] as u32) << 16u32) | ((b[pos
        + 3] as u32) << 24u32)
}

/// The channel of an envelope: which kind of document a revision belongs to.
#[derive(Clone, Copy, Debug, PartialEq, Eq, Structural)]
pub enum DocumentKind {
    TextDocument,
    NodeTree,
    TabularGrid,
}

/// A run of a delta as it travels: counts as numbers, text as characters.
pub enum OpView {
    Retain(nat),
    Insert(Seq<char>),
    Delete(nat),
}

/// The wire view of a run.
pub open spec fn op_view(op: DeltaOp) -> OpView {
    match op {
        DeltaOp::Retain(n) => OpView::Retain(n as nat),
        DeltaOp::Insert(s) => OpView::Insert(s@),
        DeltaOp::Delete(n) => OpView::Delete(n as nat),
    }
}

/// The wire view of a sequence of runs.
pub open spec fn ops_view(ops: Seq<DeltaOp>) -> Seq<OpView> {
    ops.map_values(|op: DeltaOp| op_view(op))
}

/// The fields of a revision as an envelope carries them.
pub struct WireRevision {
    pub object_id: Seq<char>,
    pub base_rev_id: u64,
    pub rev_id: u64,
    pub ops: Seq<OpView>,
    pub checksum: Seq<u8>,
}

/// The scalar value of a character.
pub open spec fn char_code(c: char) -> u32 {
    c as u32
}

/// The character whose scalar value is `x`: none for a surrogate or a value
/// past the last code point.
pub open spec fn code_char(x: u32) -> Option<char> {
    if x < 0xD800 || (0xE000 <= x && x <= 0x10FFFF) {
        Some(x as char)
    } else {
        None
    }
}

/// The codes of characters, four bytes each.
pub open spec fn enc_codes(s: Seq<char>) -> Seq<u8>
    decreases s.len(),
{
    if s.len() == 0 {
        Seq::empty()
    } else {
        enc_u32(char_code(s[0])) + enc_codes(s.drop_first())
    }
}

/// A text: its length, then its character codes.
pub open spec fn enc_chars(s: Seq<char>) -> Seq<u8> {
    enc_u64(s.len() as u64) + enc_codes(s)
}

/// A byte string: its length, then its bytes.
pub open spec fn enc_bytes(b: Seq<u8>) -> Seq<u8> {
    enc_u64(b.len() as u64) + b
}

/// A run: a tag byte, then its count or its text.
pub open spec fn enc_op(op: OpView) -> Seq<u8> {
    match op {
        OpView::Retain(n) => seq![0u8] + enc_u64(n as u64),
        OpView::Insert(s) => seq![1u8] + enc_chars(s),
        OpView::Delete(n) => seq![2u8] + enc_u64(n as u64),
    }
}

/// Runs one after the other.
pub open spec fn enc_ops(ops: Seq<OpView>) -> Seq<u8>
    decreases ops.len(),
{
    if ops.len() == 0 {
        Seq::empty()
    } else {
        enc_op(ops[0]) + enc_ops(ops.drop_first())
    }
}

/// The tag byte of a document kind.
pub open spec fn kind_tag(k: DocumentKind) -> u8 {
    match k {
        DocumentKind::TextDocument => 0,
        DocumentKind::NodeTree => 1,
        DocumentKind::TabularGrid => 2,
    }
}

/// An envelope: the kind tag, the object id, both revision ids, the runs of
/// the delta and the checksum.
pub open spec fn enc_envelope(kind: DocumentKind, r: WireRevision) -> Seq<u8> {
    seq![kind_tag(kind)] + enc_chars(r.object_id) + enc_u64(r.base_rev_id) + enc_u64(r.rev_id)
        + enc_u64(r.ops.len() as u64) + enc_ops(r.ops) + enc_bytes(r.checksum)
}

/// Reads a 64-bit integer.
pub open spec fn parse_u64(b: Seq<u8>) -> Option<(u64, Seq<u8>)> {
    if b.len() >= 8 {
        Some((dec_u64(b.take(8)), b.skip(8)))
    } else {
        None
    }
}

/// Reads `n` character codes after those already in `acc`.
pub open spec fn parse_codes(b: Seq<u8>, n: nat, acc: Seq<char>) -> Option<(Seq<char>, Seq<u8>)>
    decreases n,
{
    if n == 0 {
        Some((acc, b))
    } else if b.len() < 4 {
        None
    } else {
        match code_char(dec_u32(b.take(4))) {
            Some(c) => parse_codes(b.skip(4), (n - 1) as nat, acc.push(c)),
            None => None,
        }
    }
}

/// Reads a text.
pub open spec fn parse_chars(b: Seq<u8>) -> Option<(Seq<char>, Seq<u8>)> {
    match parse_u64(b) {
        Some((n, rest)) => parse_codes(rest, n as nat, Seq::empty()),
        None => None,
    }
}

/// Reads a byte string.
pub open spec fn parse_bytes(b: Seq<u8>) -> Option<(Seq<u8>, Seq<u8>)> {
    match parse_u64(b) {
        Some((n, rest)) => if n <= rest.len() {
            Some((rest.take(n as int), rest.skip(n as int)))
        } else {
            None
        },
        None => None,
    }
}

/// Reads a run; a count must fit in `usize`.
pub open spec fn parse_op(b: Seq<u8>) -> Option<(OpView, Seq<u8>)> {
    if b.len() == 0 {
        None
    } else if b[0] == 1 {
        match parse_chars(b.drop_first()) {
            Some((s, rest)) => Some((OpView::Insert(s), rest)),
            None => None,
        }
    } else if b[0] == 0 || b[0] == 2 {
        match parse_u64(b.drop_first()) {
            Some((n, rest)) => if n <= usize::MAX {
                let op = if b[0] == 0 {
                    OpView::Retain(n as nat)
                } else {
                    OpView::Delete(n as nat)
                };
                Some((op, rest))
            } else {
                None
            },
            None => None,
        }
    } else {
        None
    }
}

/// Reads `n` runs after those already in `acc`.
pub open spec fn parse_ops(b: Seq<u8>, n: nat, acc: Seq<OpView>) -> Option<(Seq<OpView>, Seq<u8>)>
    decreases n,
{
    if n == 0 {
        Some((acc, b))
    } else {
        match parse_op(b) {
            Some((op, rest)) => parse_ops(rest, (n - 1) as nat, acc.push(op)),
            None => None,
        }
    }
}

/// The kind of a tag byte.
pub open spec fn tag_kind(t: u8) -> Option<DocumentKind> {
    if t == 0 {
        Some(DocumentKind::TextDocument)
    } else if t == 1 {
        Some(DocumentKind::NodeTree)
    } else if t == 2 {
        Some(DocumentKind::TabularGrid)
    } else {
        None
    }
}

/// Reads a whole envelope; every byte must be used.
pub open spec fn parse_envelope(b: Seq<u8>) -> Option<(DocumentKind, WireRevision)> {
    if b.len() == 0 {
        None
    } else {
        match (tag_kind(b[0]), parse_chars(b.drop_first())) {
            (Some(kind), Some((id, b1))) => match (parse_u64(b1)) {
                Some((base, b2)) => match parse_u64(b2) {
                    Some((rev, b3)) => match parse_u64(b3) {
                        Some((n, b4)) => match parse_ops(b4, n as nat, Seq::empty()) {
                            Some((ops, b5)) => match parse_bytes(b5) {
                                Some((sum, b6)) => if b6.len() == 0 {
                                    Some(
                                        (
                                            kind,
                                            WireRevision {
                                                object_id: id,
                                                base_rev_id: base,
                                                rev_id: rev,
                                                ops,
                                                checksum: sum,
                                            },
                                        ),
                                    )
                                } else {
                                    None
                                },
                                None => None,
                            },
                            None => None,
                        },
                        None => None,
                    },
                    None => None,
                },
                None => None,
            },
            _ => None,
        }
    }
}

proof fn lemma_parse_u64(x: u64, rest: Seq<u8>)
    ensures
        parse_u64(enc_u64(x) + rest) == Some((x, rest)),
{
    lemma_u64_round_trip(x);
    let b = enc_u64(x) + rest;
    assert(b.take(8) =~= enc_u64(x));
    assert(b.skip(8) =~= rest);
}

proof fn lemma_code_char(c: char)
    ensures
        code_char(char_code(c)) == Some(c),
{
}

proof fn lemma_parse_codes(s: Seq<char>, rest: Seq<u8>, acc: Seq<char>)
    ensures
        parse_codes(enc_codes(s) + rest, s.len(), acc) == Some((acc + s, rest)),
    decreases s.len(),
{
    if s.len() == 0 {
        assert(acc + s =~= acc);
        assert(enc_codes(s) + rest =~= rest);
    } else {
        let c = s[0];
        let t = s.drop_first();
        let b = enc_codes(s) + rest;
        lemma_u32_round_trip(char_code(c));
        lemma_code_char(c);
        assert(b =~= enc_u32(char_code(c)) + (enc_codes(t) + rest));
        assert(b.take(4) =~= enc_u32(char_code(c)));
        assert(b.skip(4) =~= enc_codes(t) + rest);
        lemma_parse_codes(t, rest, acc.push(c));
        assert(acc.push(c) + t =~= acc + s);
    }
}

proof fn lemma_parse_chars(s: Seq<char>, rest: Seq<u8>)
    requires
        s.len() <= u64::MAX,
    ensures
        parse_chars(enc_chars(s) + rest) == Some((s, rest)),
{
    lemma_parse_u64(s.len() as u64, enc_codes(s) + rest);
    assert(enc_chars(s) + rest =~= enc_u64(s.len() as u64) + (enc_codes(s) + rest));
    lemma_parse_codes(s, rest, Seq::empty());
    assert(Seq::<char>::empty() + s =~= s);
}

proof fn lemma_parse_bytes(b: Seq<u8>, rest: Seq<u8>)
    requires
        b.len() <= u64::MAX,
    ensures
        parse_bytes(enc_bytes(b) + rest) == Some((b, rest)),
{
    lemma_parse_u64(b.len() as u64, b + rest);
    assert(enc_bytes(b) + rest =~= enc_u64(b.len() as u64) + (b + rest));
    assert((b + rest).take(b.len() as int) =~= b);
    assert((b + rest).skip(b.len() as int) =~= rest);
}

/// Whether every count and length of a run fits the encoding.
pub open spec fn op_fits(op: OpView) -> bool {
    match op {
        OpView::Retain(n) => n <= usize::MAX,
        OpView::Insert(s) => s.len() <= u64::MAX,
        OpView::Delete(n) => n <= usize::MAX,
    }
}

proof fn lemma_parse_op(op: OpView, rest: Seq<u8>)
    requires
        op_fits(op),
    ensures
        parse_op(enc_op(op) + rest) == Some((op, rest)),
{
    let b = enc_op(op) + rest;
    match op {
        OpView::Insert(s) => {
            assert(b.drop_first() =~= enc_chars(s) + rest);
            lemma_parse_chars(s, rest);
        },
        OpView::Retain(n) => {
            assert(b.drop_first() =~= enc_u64(n as u64) + rest);
            lemma_parse_u64(n as u64, rest);
        },
        OpView::Delete(n) => {
            assert(b.drop_first() =~= enc_u64(n as u64) + rest);
            lemma_parse_u64(n as u64, rest);
        },
    }
}

proof fn lemma_parse_ops(ops: Seq<OpView>, rest: Seq<u8>, acc: Seq<OpView>)
    requires
        forall|i: int| 0 <= i < ops.len() ==> op_fits(#[trigger] ops[i]),
    ensures
        parse_ops(enc_ops(ops) + rest, ops.len(), acc) == Some((acc + ops, rest)),
    decreases ops.len(),
{
    if ops.len() == 0 {
        assert(acc + ops =~= acc);
        assert(enc_ops(ops) + rest =~= rest);
    } else {
        let t = ops.drop_first();
        assert(op_fits(ops[0]));
        assert(enc_ops(ops) + rest =~= enc_op(ops[0]) + (enc_ops(t) + rest));
        lemma_parse_op(ops[0], enc_ops(t) + rest);
        lemma_parse_ops(t, rest, acc.push(ops[0]));
        assert(acc.push(ops[0]) + t =~= acc + ops);
    }
}

/// Whether every length and count of a revision fits the encoding.
pub open spec fn wire_fits(r: WireRevision) -> bool {
    &&& r.object_id.len() <= u64::MAX
    &&& r.ops.len() <= u64::MAX
    &&& r.checksum.len() <= u64::MAX
    &&& forall|i: int| 0 <= i < r.ops.len() ==> op_fits(#[trigger] r.ops[i])
}

/// Decoding an encoded envelope gives back its kind and every field of its
/// revision.
pub proof fn law_envelope_round_trip(kind: DocumentKind, r: WireRevision)
    requires
        wire_fits(r),
    ensures
        parse_envelope(enc_envelope(kind, r)) == Some((kind, r)),
{
    let tail6 = enc_bytes(r.checksum);
    let tail5 = enc_ops(r.ops) + tail6;
    let tail4 = enc_u64(r.ops.len() as u64) + tail5;
    let tail3 = enc_u64(r.rev_id) + tail4;
    let tail2 = enc_u64(r.base_rev_id) + tail3;
    let tail1 = enc_chars(r.object_id) + tail2;
    let b = enc_envelope(kind, r);
    assert(b =~= seq![kind_tag(kind)] + tail1);
    assert(b.drop_first() =~= tail1);
    lemma_parse_chars(r.object_id, tail2);
    lemma_parse_u64(r.base_rev_id, tail3);
    lemma_parse_u64(r.rev_id, tail4);
    lemma_parse_u64(r.ops.len() as u64, tail5);
    lemma_parse_ops(r.ops, tail6, Seq::empty());
    assert(Seq::<OpView>::empty() + r.ops =~= r.ops);
    lemma_parse_bytes(r.checksum, Seq::empty());
    assert(tail6 + Seq::<u8>::empty() =~= tail6);
}

/// The fields of a revision as an envelope carries them.
pub open spec fn wire_of(rev: Revision) -> WireRevision {
    WireRevision {
        object_id: rev.object_id@,
        base_rev_id: rev.base_rev_id,
        rev_id: rev.rev_id,
        ops: ops_view(rev.delta.ops@),
        checksum: rev.checksum@,
    }
}

/// Relies on `char::from_u32`, which returns the character whose scalar
/// value is `x`, and `None` for a surrogate or a value above `0x10FFFF`.
#[verifier::external_body]
fn char_of_code(x: u32) -> (r: Option<char>)
    ensures
        r == code_char(x),
{
    char::from_u32(x)
}

proof fn lemma_enc_codes_push(s: Seq<char>, c: char)
    ensures
        enc_codes(s.push(c)) == enc_codes(s) + enc_u32(char_code(c)),
    decreases s.len(),
{
    let p = s.push(c);
    if s.len() == 0 {
        assert(p.drop_first() =~= Seq::<char>::empty());
        assert(p[0] == c);
        assert(enc_codes(p) == enc_u32(char_code(p[0])) + enc_codes(p.drop_first()));
        assert(enc_codes(p) =~= enc_codes(s) + enc_u32(char_code(c)));
    } else {
        assert(p.drop_first() =~= s.drop_first().push(c));
        assert(p[0] == s[0]);
        lemma_enc_codes_push(s.drop_first(), c);
        assert(enc_codes(p) =~= enc_codes(s) + enc_u32(char_code(c)));
    }
}

proof fn lemma_enc_ops_push(ops: Seq<OpView>, op: OpView)
    ensures
        enc_ops(ops.push(op)) == enc_ops(ops) + enc_op(op),
    decreases ops.len(),
{
    let p = ops.push(op);
    if ops.len() == 0 {
        assert(p.drop_first() =~= Seq::<OpView>::empty());
        assert(p[0] == op);
        assert(enc_ops(p) == enc_op(p[0]) + enc_ops(p.drop_first()));
        assert(enc_ops(p) =~= enc_ops(ops) + enc_op(op));
    } else {
        assert(p.drop_first() =~= ops.drop_first().push(op));
        assert(p[0] == ops[0]);
        lemma_enc_ops_push(ops.drop_first(), op);
        assert(enc_ops(p) =~= enc_ops(ops) + enc_op(op));
    }
}

/// Appends a text.
fn put_chars(out: &mut Vec<u8>, s: &Vec<char>)
    ensures
        final(out)@ == old(out)@ + enc_chars(s@),
{
    put_u64(out, s.len() as u64);
    let ghost start = out@;
    let mut i: usize = 0;
    assert(s@.take(0) =~= Seq::<char>::empty());
    assert(start + enc_codes(s@.take(0)) =~= start);
    while i < s.len()
        invariant
            i <= s@.len(),
            out@ == start + enc_codes(s@.take(i as int)),
        decreases s.len() - i,
    {
        let c = s[i];
        proof {
            assert(s@.take(i + 1) =~= s@.take(i as int).push(c));
            lemma_enc_codes_push(s@.take(i as int), c);
        }
        put_u32(out, c as u32);
        i += 1;
        assert(out@ =~= start + enc_codes(s@.take(i as int)));
    }
    assert(s@.take(i as int) =~= s@);
    assert(out@ =~= old(out)@ + enc_chars(s@));
}

/// Appends a byte string.
fn put_bytes(out: &mut Vec<u8>, b: &Vec<u8>)
    ensures
        final(out)@ == old(out)@ + enc_bytes(b@),
{
    put_u64(out, b.len() as u64);
    let ghost start = out@;
    let mut i: usize = 0;
    while i < b.len()
        invariant
            i <= b@.len(),
            out@ == start + b@.take(i as int),
        decreases b.len() - i,
    {
        out.push(b[i]);
        i += 1;
        assert(out@ =~= start + b@.take(i as int));
    }
    assert(b@.take(i as int) =~= b@);
    assert(out@ =~= old(out)@ + enc_bytes(b@));
}

/// Appends a run.
fn put_op(out: &mut Vec<u8>, op: &DeltaOp)
    ensures
        final(out)@ == old(out)@ + enc_op(op_view(*op)),
{
    match op {
        DeltaOp::Retain(n) => {
            out.push(0u8);
            put_u64(out, *n as u64);
        },
        DeltaOp::Insert(s) => {
            out.push(1u8);
            put_chars(out, s);
        },
        DeltaOp::Delete(n) => {
            out.push(2u8);
            put_u64(out, *n as u64);
        },
    }
    assert(out@ =~= old(out)@ + enc_op(op_view(*op)));
}

/// The bytes of an envelope of kind `kind` that carries `rev`.
pub fn encode_envelope(kind: DocumentKind, rev: &Revision) -> (r: Vec<u8>)
    ensures
        r@ == enc_envelope(kind, wire_of(*rev)),
{
    let mut out: Vec<u8> = Vec::new();
    let tag: u8 = match kind {
        DocumentKind::TextDocument => 0,
        DocumentKind::NodeTree => 1,
        DocumentKind::TabularGrid => 2,
    };
    out.push(tag);
    put_chars(&mut out, &rev.object_id_chars());
    put_u64(&mut out, rev.base_rev_id);
    put_u64(&mut out, rev.rev_id);
    let ops = &rev.delta.ops;
    put_u64(&mut out, ops.len() as u64);
    let ghost start = out@;
    let mut i: usize = 0;
    assert(ops_view(ops@.take(0)) =~= Seq::<OpView>::empty());
    assert(start + enc_ops(ops_view(ops@.take(0))) =~= start);
    while i < ops.len()
        invariant
            i <= ops@.len(),
            out@ == start + enc_ops(ops_view(ops@.take(i as int))),
        decreases ops.len() - i,
    {
        proof {
            assert(ops_view(ops@.take(i + 1)) =~= ops_view(ops@.take(i as int)).push(
                op_view(ops@[i as int]),
            ));
            lemma_enc_ops_push(ops_view(ops@.take(i as int)), op_view(ops@[i as int]));
        }
        put_op(&mut out, &ops[i]);
        i += 1;
        assert(out@ =~= start + enc_ops(ops_view(ops@.take(i as int))));
    }
    assert(ops@.take(i as int) =~= ops@);
    put_bytes(&mut out, &rev.checksum);
    assert(out@ =~= enc_envelope(kind, wire_of(*rev)));
    out
}

/// Reads a 64-bit integer at `pos`.
fn read_u64(b: &Vec<u8>, pos: usize) -> (r: Option<(u64, usize)>)
    requires
        pos <= b@.len(),
    ensures
        match parse_u64(b@.skip(pos as int)) {
            None => r is None,
            Some((x, rest)) => r is Some && r->Some_0.0 == x && r->Some_0.1 <= b@.len()
                && b@.skip(r->Some_0.1 as int) == rest,
        },
{
    if b.len() - pos < 8 {
        return None;
    }
    let x = get_u64(b, pos);
    assert(b@.skip(pos as int).take(8) =~= b@.subrange(pos as int, pos + 8));
    assert(b@.skip(pos as int).skip(8) =~= b@.skip(pos + 8));
    Some((x, pos + 8))
}

/// Reads a text at `pos`.
fn read_chars(b: &Vec<u8>, pos: usize) -> (r: Option<(Vec<char>, usize)>)
    requires
        pos <= b@.len(),
    ensures
        match parse_chars(b@.skip(pos as int)) {
            None => r is None,
            Some((s, rest)) => r is Some && r->Some_0.0@ == s && r->Some_0.1 <= b@.len()
                && b@.skip(r->Some_0.1 as int) == rest,
        },
{
    let (n, mut p) = match read_u64(b, pos) {
        None => return None,
        Some(x) => x,
    };
    let mut out: Vec<char> = Vec::new();
    let mut k: u64 = 0;
    while k < n
        invariant
            p <= b@.len(),
            k <= n,
            parse_chars(b@.skip(pos as int)) == parse_codes(
                b@.skip(p as int),
                (n - k) as nat,
                out@,
            ),
        decreases n - k,
    {
        if b.len() - p < 4 {
            return None;
        }
        let x = get_u32(b, p);
        proof {
            assert(b@.skip(p as int).take(4) =~= b@.subrange(p as int, p + 4));
            assert(b@.skip(p as int).skip(4) =~= b@.skip(p + 4));
        }
        match char_of_code(x) {
            None => return None,
            Some(c) => out.push(c),
        }
        p = p + 4;
        k = k + 1;
    }
    Some((out, p))
}

/// Reads a byte string at `pos`.
fn read_bytes(b: &Vec<u8>, pos: usize) -> (r: Option<(Vec<u8>, usize)>)
    requires
        pos <= b@.len(),
    ensures
        match parse_bytes(b@.skip(pos as int)) {
            None => r is None,
            Some((s, rest)) => r is Some && r->Some_0.0@ == s && r->Some_0.1 <= b@.len()
                && b@.skip(r->Some_0.1 as int) == rest,
        },
{
    let (n, p) = match read_u64(b, pos) {
        None => return None,
        Some(x) => x,
    };
    if n > (b.len() - p) as u64 {
        return None;
    }
    let m = n as usize;
    let blen = b.len();
    let mut out: Vec<u8> = Vec::new();
    let mut i: usize = 0;
    while i < m
        invariant
            blen == b@.len(),
            p + m <= blen,
            i <= m,
            out@ == b@.subrange(p as int, p + i),
        decreases m - i,
    {
        out.push(b[p + i]);
        i += 1;
        assert(out@ =~= b@.subrange(p as int, p + i));
    }
    assert(b@.skip(p as int).take(m as int) =~= out@);
    assert(b@.skip(p as int).skip(m as int) =~= b@.skip(p + m));
    Some((out, p + m))
}

/// Reads a run at `pos`.
fn read_op(b: &Vec<u8>, pos: usize) -> (r: Option<(DeltaOp, usize)>)
    requires
        pos <= b@.len(),
    ensures
        match parse_op(b@.skip(pos as int)) {
            None => r is None,
            Some((o, rest)) => r is Some && op_view(r->Some_0.0) == o && r->Some_0.1 <= b@.len()
                && b@.skip(r->Some_0.1 as int) == rest,
        },
{
    if pos >= b.len() {
        return None;
    }
    let t = b[pos];
    assert(b@.skip(pos as int).drop_first() =~= b@.skip(pos + 1));
    if t == 1 {
        match read_chars(b, pos + 1) {
            None => None,
            Some((s, p)) => Some((DeltaOp::Insert(s), p)),
        }
    } else if t == 0 || t == 2 {
        match read_u64(b, pos + 1) {
            None => None,
            Some((n, p)) => {
                if n > usize::MAX as u64 {
                    None
                } else if t == 0 {
                    Some((DeltaOp::Retain(n as usize), p))
                } else {
                    Some((DeltaOp::Delete(n as usize), p))
                }
            },
        }
    } else {
        None
    }
}

/// Reads `n` runs at `pos`.
fn read_ops(b: &Vec<u8>, pos: usize, n: u64) -> (r: Option<(Vec<DeltaOp>, usize)>)
    requires
        pos <= b@.len(),
    ensures
        match parse_ops(b@.skip(pos as int), n as nat, Seq::empty()) {
            None => r is None,
            Some((ops, rest)) => r is Some && ops_view(r->Some_0.0@) == ops && r->Some_0.1
                <= b@.len() && b@.skip(r->Some_0.1 as int) == rest,
        },
{
    let mut out: Vec<DeltaOp> = Vec::new();
    let mut p = pos;
    let mut k: u64 = 0;
    assert(ops_view(out@) =~= Seq::<OpView>::empty());
    while k < n
        invariant
            p <= b@.len(),
            k <= n,
            parse_ops(b@.skip(pos as int), n as nat, Seq::empty()) == parse_ops(
                b@.skip(p as int),
                (n - k) as nat,
                ops_view(out@),
            ),
        decreases n - k,
    {
        match read_op(b, p) {
            None => return None,
            Some((op, p2)) => {
                proof {
                    assert(ops_view(out@.push(op)) =~= ops_view(out@).push(op_view(op)));
                }
                out.push(op);
                p = p2;
            },
        }
        k = k + 1;
    }
    Some((out, p))
}

/// The kind and revision of an envelope, if `b` is exactly one envelope.
pub fn decode_envelope(b: &Vec<u8>) -> (r: Option<(DocumentKind, Revision)>)
    ensures
        r is Some <==> parse_envelope(b@) is Some,
        r is Some ==> parse_envelope(b@) == Some((r->Some_0.0, wire_of(r->Some_0.1))),
{
    if b.len() == 0 {
        return None;
    }
    let kind = match b[0] {
        0 => DocumentKind::TextDocument,
        1 => DocumentKind::NodeTree,
        2 => DocumentKind::TabularGrid,
        _ => return None,
    };
    assert(b@.drop_first() =~= b@.skip(1));
    let (id, p1) = match read_chars(b, 1) {
        None => return None,
        Some(x) => x,
    };
    let (base_rev_id, p2) = match read_u64(b, p1) {
        None => return None,
        Some(x) => x,
    };
    let (rev_id, p3) = match read_u64(b, p2) {
        None => return None,
        Some(x) => x,
    };
    let (n, p4) = match read_u64(b, p3) {
        None => return None,
        Some(x) => x,
    };
    let (ops, p5) = match read_ops(b, p4, n) {
        None => return None,
        Some(x) => x,
    };
    let (checksum, p6) = match read_bytes(b, p5) {
        None => return None,
        Some(x) => x,
    };
    if p6 != b.len() {
        return None;
    }
    let rev = Revision {
        object_id: collect_chars(&id),
        base_rev_id,
        rev_id,
        delta: Delta { ops },
        checksum,
    };
    Some((kind, rev))
}

proof fn lemma_units_by_view(a: Seq<DeltaOp>, b: Seq<DeltaOp>)
    requires
        ops_view(a) == ops_view(b),
    ensures
        units_of(a) == units_of(b),
    decreases a.len(),
{
    assert(a.len() == ops_view(a).len());
    assert(b.len() == ops_view(b).len());
    if a.len() > 0 {
        assert(op_view(a[0]) == ops_view(a)[0]);
        assert(op_view(b[0]) == ops_view(b)[0]);
        assert(op_units(a[0]) =~= op_units(b[0]));
        assert(ops_view(a.drop_first()) =~= ops_view(a).drop_first());
        assert(ops_view(b.drop_first()) =~= ops_view(b).drop_first());
        lemma_units_by_view(a.drop_first(), b.drop_first());
    }
}

/// What an envelope carries determines the revision: two revisions with the
/// same wire fields have the same id, revision numbers, delta and checksum.
pub proof fn law_wire_determines_revision(a: Revision, b: Revision)
    requires
        wire_of(a) == wire_of(b),
    ensures
        a@ == b@,
{
    lemma_units_by_view(a.delta.ops@, b.delta.ops@);
}

} // verus!
