//! Revisions: immutable, positioned deltas with a content checksum.
use vstd::prelude::*;

use crate::algebra::{apply, base_len, UnitOp};
use crate::delta::{copy_chars, Delta};

verus! {

/// The MD5 digest of the UTF-8 encoding of a text.
pub uninterp spec fn content_digest(content: Seq<char>) -> Seq<u8>;

/// Relies on `md5::compute`, which returns the 16-byte MD5 digest of the bytes
/// it is given; here those are the UTF-8 bytes of the characters.
#[verifier::external_body]
fn md5_of_chars(content: &Vec<char>) -> (r: Vec<u8>)
    ensures
        r@ == content_digest(content@),
        r@.len() == 16,
{
    let text: String = content.iter().collect();
    md5::compute(text.as_bytes()).0.to_vec()
}

/// The checksum of a materialized text.
pub fn checksum_of(content: &Vec<char>) -> (r: Vec<u8>)
    ensures
        r@ == content_digest(content@),
        r@.len() == 16,
{
    md5_of_chars(content)
}

/// Whether two byte strings are equal.
pub fn bytes_equal(a: &Vec<u8>, b: &Vec<u8>) -> (r: bool)
    ensures
        r <==> a@ == b@,
{
    if a.len() != b.len() {
        return false;
    }
    let mut i: usize = 0;
    while i < a.len()
        invariant
            a.len() == b.len(),
            i <= a.len(),
            forall|k: int| 0 <= k < i ==> a@[k] == b@[k],
        decreases a.len() - i,
    {
        if a[i] != b[i] {
            return false;
        }
        i += 1;
    }
    assert(a@ =~= b@);
    true
}

/// Copies a byte string.
pub fn copy_bytes(v: &Vec<u8>) -> (r: Vec<u8>)
    ensures
        r@ == v@,
{
    let mut r: Vec<u8> = Vec::new();
    let mut i: usize = 0;
    while i < v.len()
        invariant
            i <= v.len(),
            r@ == v@.take(i as int),
        decreases v.len() - i,
    {
        r.push(v[i]);
        i += 1;
        assert(r@ =~= v@.take(i as int));
    }
    assert(v@.take(v.len() as int) =~= v@);
    r
}

/// One edit of one object: the delta made against revision `base_rev_id`,
/// which yields revision `rev_id` whose content hashes to `checksum`.
#[derive(Debug, PartialEq, Eq)]
pub struct Revision {
    pub object_id: String,
    pub base_rev_id: u64,
    pub rev_id: u64,
    pub delta: Delta,
    pub checksum: Vec<u8>,
}

/// The mathematical content of a revision.
pub struct RevisionView {
    pub object_id: Seq<char>,
    pub base_rev_id: u64,
    pub rev_id: u64,
    pub delta: Seq<UnitOp>,
    pub checksum: Seq<u8>,
}

impl View for Revision {
    type V = RevisionView;

    open spec fn view(&self) -> RevisionView {
        RevisionView {
            object_id: self.object_id@,
            base_rev_id: self.base_rev_id,
            rev_id: self.rev_id,
            delta: self.delta@,
            checksum: self.checksum@,
        }
    }
}

/// The content reached from `s` by applying the deltas of `revs` in order.
pub open spec fn replay(s: Seq<char>, revs: Seq<RevisionView>) -> Seq<char>
    decreases revs.len(),
{
    if revs.len() == 0 {
        s
    } else {
        replay(apply(s, revs[0].delta), revs.drop_first())
    }
}

/// Whether each delta of `revs` starts from the content its predecessors
/// reach from `s`.
pub open spec fn replays_cleanly(s: Seq<char>, revs: Seq<RevisionView>) -> bool
    decreases revs.len(),
{
    if revs.len() == 0 {
        true
    } else {
        s.len() == base_len(revs[0].delta) && replays_cleanly(
            apply(s, revs[0].delta),
            revs.drop_first(),
        )
    }
}

/// Replaying one more revision.
pub proof fn lemma_replay_push(s: Seq<char>, revs: Seq<RevisionView>, r: RevisionView)
    ensures
        replay(s, revs.push(r)) == apply(replay(s, revs), r.delta),
        replays_cleanly(s, revs.push(r)) <==> (replays_cleanly(s, revs) && replay(s, revs).len()
            == base_len(r.delta)),
    decreases revs.len(),
{
    let p = revs.push(r);
    if revs.len() == 0 {
        assert(p.drop_first() =~= Seq::<RevisionView>::empty());
        assert(p[0] == r);
        assert(replay(apply(s, r.delta), p.drop_first()) == apply(s, r.delta));
        assert(replays_cleanly(apply(s, r.delta), p.drop_first()));
    } else {
        assert(p.drop_first() =~= revs.drop_first().push(r));
        assert(p[0] == revs[0]);
        lemma_replay_push(apply(s, revs[0].delta), revs.drop_first(), r);
    }
}

impl Revision {
    /// A revision of `object_id` from `base_rev_id` to `rev_id`.
    pub fn new(
        object_id: &str,
        base_rev_id: u64,
        rev_id: u64,
        delta: Delta,
        checksum: Vec<u8>,
    ) -> (r: Revision)
        ensures
            r@ == (RevisionView {
                object_id: object_id@,
                base_rev_id,
                rev_id,
                delta: delta@,
                checksum: checksum@,
            }),
    {
        Revision { object_id: object_id.to_owned(), base_rev_id, rev_id, delta, checksum }
    }

    /// The characters of the object id.
    pub fn object_id_chars(&self) -> (r: Vec<char>)
        ensures
            r@ == self.object_id@,
    {
        crate::delta::chars_of(self.object_id.as_str())
    }

    /// A copy of this revision.
    pub fn duplicate(&self) -> (r: Revision)
        ensures
            r@ == self@,
    {
        Revision {
            object_id: self.object_id.clone(),
            base_rev_id: self.base_rev_id,
            rev_id: self.rev_id,
            delta: self.delta.duplicate(),
            checksum: copy_bytes(&self.checksum),
        }
    }
}

} // verus!
