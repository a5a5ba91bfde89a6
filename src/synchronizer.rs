//! The revision synchronizer: the state machine that applies local and remote
//! revisions to one document and decides what to send.
use vstd::prelude::*;

use crate::algebra::{
    apply, apply_units, base_len, lemma_apply_len, lemma_transform_converges, transform,
    transform_units, units_base_len, UnitOp,
};
use crate::delta::{copy_chars, Delta};
use crate::document::ServerDocument;
use crate::error::SyncError;
use crate::revision::{
    bytes_equal, checksum_of, content_digest, lemma_replay_push, replay, replays_cleanly, Revision,
    RevisionView,
};

verus! {

/// Where a synchronizer stands with its object.
#[derive(Clone, Copy, Debug, PartialEq, Eq, Structural)]
pub enum SyncState {
    /// Nothing is waiting for an acknowledgment.
    Idle,
    /// The head of the pending queue is in flight.
    Syncing,
    /// A revision gap or a corrupt state was found; a snapshot is awaited.
    Recovering,
    /// The editing session is over.
    Closed,
}

/// A state of the transport, as its connection-state stream reports it.
#[derive(Debug)]
pub enum ConnectionState {
    Disconnected,
    Connecting,
    Connected,
    Error(String),
}

/// What the transport side should do after an event.
#[derive(Debug)]
pub enum SyncAction {
    Nothing,
    /// Send this revision.
    Send(Revision),
    /// Fetch a full snapshot of the object.
    FetchSnapshot,
    /// Retries are exhausted: tell the host the object is offline.
    ReportOffline,
}

/// The synchronizer of one document.
#[derive(Debug)]
pub struct RevisionSynchronizer {
    /// The local materialized state: the acknowledged content followed by
    /// every pending revision.
    pub document: ServerDocument,
    /// The content at the last acknowledged revision.
    pub synced: Vec<char>,
    pub acked_rev_id: u64,
    /// Local revisions not yet acknowledged, oldest first.
    pub pending: Vec<Revision>,
    pub state: SyncState,
    pub connected: bool,
    /// Failed sends of the current head since it was last acknowledged.
    pub failures: u32,
    /// Failed sends after which the host is told that the object is offline.
    pub retry_ceiling: u32,
}

/// The mathematical content of a synchronizer.
pub struct SyncView {
    pub object_id: Seq<char>,
    pub content: Seq<char>,
    pub synced: Seq<char>,
    pub acked_rev_id: u64,
    pub pending: Seq<RevisionView>,
    pub state: SyncState,
    pub connected: bool,
    pub failures: u32,
    pub retry_ceiling: u32,
}

/// The views of a sequence of revisions.
pub open spec fn views_of(revs: Seq<Revision>) -> Seq<RevisionView> {
    revs.map_values(|r: Revision| r@)
}

/// A remote delta rebased over pending revisions, oldest first: the pending
/// deltas as they apply after the remote one, and the remote delta as it
/// applies after all pending ones.
pub open spec fn rebase(pending: Seq<RevisionView>, r: Seq<UnitOp>) -> (
    Seq<Seq<UnitOp>>,
    Seq<UnitOp>,
)
    decreases pending.len(),
{
    if pending.len() == 0 {
        (Seq::empty(), r)
    } else {
        let (p2, r2) = transform(pending[0].delta, r);
        let (rest, last) = rebase(pending.drop_first(), r2);
        (seq![p2] + rest, last)
    }
}

proof fn lemma_rebase_len(pending: Seq<RevisionView>, r: Seq<UnitOp>)
    ensures
        rebase(pending, r).0.len() == pending.len(),
    decreases pending.len(),
{
    if pending.len() > 0 {
        lemma_rebase_len(pending.drop_first(), transform(pending[0].delta, r).1);
    }
}

/// Rebases `pending`, made on top of `synced`, over the remote units `remote`
/// made against `synced`; the rebased revisions follow `synced2`, the remote
/// result, and are numbered from `acked2`.
fn rebase_pending(
    pending: &Vec<Revision>,
    synced: &Vec<char>,
    remote: Vec<UnitOp>,
    synced2: &Vec<char>,
    object_id: &String,
    acked2: u64,
) -> (r: (Vec<Revision>, Vec<UnitOp>))
    requires
        replays_cleanly(synced@, views_of(pending@)),
        base_len(remote@) == synced@.len(),
        synced2@ == apply(synced@, remote@),
        acked2 + pending@.len() <= u64::MAX,
    ensures
        r.1@ == rebase(views_of(pending@), remote@).1,
        views_of(r.0@).len() == pending@.len(),
        forall|k: int|
            0 <= k < pending@.len() ==> views_of(r.0@)[k].delta == rebase(
                views_of(pending@),
                remote@,
            ).0[k],
        forall|k: int|
            0 <= k < pending@.len() ==> #[trigger] entry_ok(
                object_id@,
                synced2@,
                acked2,
                views_of(r.0@),
                k,
            ),
        replays_cleanly(synced2@, views_of(r.0@)),
        replay(synced2@, views_of(r.0@)) == apply(
            replay(synced@, views_of(pending@)),
            r.1@,
        ),
{
    let ghost p = views_of(pending@);
    let ghost rb = rebase(p, remote@);
    let n = pending.len();
    let mut out: Vec<Revision> = Vec::new();
    let mut ru = remote;
    let mut cur = copy_chars(synced2);
    let mut k: usize = 0;
    proof {
        lemma_rebase_len(p, remote@);
        assert(p.skip(0) =~= p);
        assert(rb.0.skip(0) =~= rb.0);
        assert(p.take(0) =~= Seq::<RevisionView>::empty());
        assert(views_of(out@) =~= Seq::<RevisionView>::empty());
    }
    while k < n
        invariant
            n == pending@.len(),
            p == views_of(pending@),
            rb == rebase(p, remote@),
            rb.0.len() == n,
            k <= n,
            acked2 + n <= u64::MAX,
            views_of(out@).len() == k,
            rebase(p.skip(k as int), ru@).0 == rb.0.skip(k as int),
            rebase(p.skip(k as int), ru@).1 == rb.1,
            forall|j: int| 0 <= j < k ==> views_of(out@)[j].delta == rb.0[j],
            replays_cleanly(replay(synced@, p.take(k as int)), p.skip(k as int)),
            base_len(ru@) == replay(synced@, p.take(k as int)).len(),
            cur@ == replay(synced2@, views_of(out@)),
            replays_cleanly(synced2@, views_of(out@)),
            cur@ == apply(replay(synced@, p.take(k as int)), ru@),
            forall|j: int|
                0 <= j < k ==> #[trigger] entry_ok(
                    object_id@,
                    synced2@,
                    acked2,
                    views_of(out@),
                    j,
                ),
        decreases n - k,
    {
        let ghost oc = replay(synced@, p.take(k as int));
        let ghost np = views_of(out@);
        let ghost ps = p.skip(k as int);
        let pu = pending[k].delta.units();
        let (xu, yu) = transform_units(&pu, &ru);
        proof {
            assert(ps[0] == p[k as int]);
            assert(ps.drop_first() =~= p.skip(k + 1));
            assert(rb.0.skip(k as int)[0] == rb.0[k as int]);
            assert(rb.0.skip(k as int).drop_first() =~= rb.0.skip(k + 1));
            assert(p.take(k + 1) =~= p.take(k as int).push(p[k as int]));
            lemma_replay_push(synced@, p.take(k as int), p[k as int]);
            lemma_transform_converges(oc, pu@, ru@);
            lemma_apply_len(oc, ru@);
            lemma_apply_len(oc, pu@);
        }
        let newcur = apply_units(&cur, &xu);
        let checksum = checksum_of(&newcur);
        let kk = k as u64;
        let rev = Revision {
            object_id: object_id.clone(),
            base_rev_id: acked2 + kk,
            rev_id: acked2 + kk + 1,
            delta: Delta::from_units(&xu),
            checksum,
        };
        proof {
            lemma_replay_push(synced2@, np, rev@);
        }
        out.push(rev);
        proof {
            let np2 = views_of(out@);
            assert(np2 =~= np.push(rev@));
            assert(np2.take(k + 1) =~= np2);
            assert forall|j: int| 0 <= j < k + 1 implies #[trigger] entry_ok(
                object_id@,
                synced2@,
                acked2,
                np2,
                j,
            ) by {
                if j < k {
                    assert(np2.take(j + 1) =~= np.take(j + 1));
                    assert(entry_ok(object_id@, synced2@, acked2, np, j));
                }
            }
        }
        cur = newcur;
        ru = yu;
        k += 1;
    }
    proof {
        assert(p.take(n as int) =~= p);
        assert(p.skip(n as int) =~= Seq::<RevisionView>::empty());
    }
    (out, ru)
}

impl View for RevisionSynchronizer {
    type V = SyncView;

    open spec fn view(&self) -> SyncView {
        SyncView {
            object_id: self.document.document_id@,
            content: self.document.content@,
            synced: self.synced@,
            acked_rev_id: self.acked_rev_id,
            pending: views_of(self.pending@),
            state: self.state,
            connected: self.connected,
            failures: self.failures,
            retry_ceiling: self.retry_ceiling,
        }
    }
}

/// The pending revision that follows `v`'s queue for `delta`.
pub open spec fn next_revision(v: SyncView, delta: Seq<UnitOp>) -> RevisionView {
    RevisionView {
        object_id: v.object_id,
        base_rev_id: (v.acked_rev_id + v.pending.len()) as u64,
        rev_id: (v.acked_rev_id + v.pending.len() + 1) as u64,
        delta,
        checksum: content_digest(apply(v.content, delta)),
    }
}

/// Whether the pending revision at `k` is numbered and checksummed as its
/// place in the queue says.
pub open spec fn entry_ok(
    object_id: Seq<char>,
    synced: Seq<char>,
    acked: u64,
    pending: Seq<RevisionView>,
    k: int,
) -> bool {
    let r = pending[k];
    &&& r.object_id == object_id
    &&& r.base_rev_id == acked + k
    &&& r.rev_id == acked + k + 1
    &&& r.checksum == content_digest(replay(synced, pending.take(k + 1)))
}

/// A remote revision that reaches the deduplication step: the session is
/// open and the revision is of this object.
pub open spec fn remote_applies(v: SyncView, rev: RevisionView) -> bool {
    v.state != SyncState::Closed && rev.object_id == v.object_id
}

/// A remote revision that is new to a synchronizer able to take it.
pub open spec fn remote_fresh(v: SyncView, rev: RevisionView) -> bool {
    remote_applies(v, rev) && rev.rev_id > v.acked_rev_id && v.state != SyncState::Recovering
}

/// Whether a remote revision carries a delta and a checksum that fit the
/// acknowledged content.
pub open spec fn remote_fits(v: SyncView, rev: RevisionView) -> bool {
    &&& base_len(rev.delta) == v.synced.len()
    &&& content_digest(apply(v.synced, rev.delta)) == rev.checksum
}

/// Whether a remote revision is made against the acknowledged revision and
/// leaves room to renumber the pending ones after it.
pub open spec fn remote_in_sequence(v: SyncView, rev: RevisionView) -> bool {
    rev.base_rev_id == v.acked_rev_id && rev.rev_id + v.pending.len() <= u64::MAX
}

/// A synchronizer after the transport reported whether it is connected; a
/// closed one ignores the report.
pub open spec fn after_connection(v: SyncView, connected: bool) -> SyncView {
    if v.state == SyncState::Closed {
        v
    } else {
        SyncView { connected, ..v }
    }
}

/// `after` is `before` having taken the remote revision `rev`: the
/// acknowledged content and id advance to it, the pending deltas are rebased
/// over it in queue order, and the document takes the remote delta as
/// rebased over all of them.
pub open spec fn took_remote(before: SyncView, after: SyncView, rev: RevisionView) -> bool {
    let rb = rebase(before.pending, rev.delta);
    &&& after.object_id == before.object_id
    &&& after.synced == apply(before.synced, rev.delta)
    &&& after.acked_rev_id == rev.rev_id
    &&& after.content == apply(before.content, rb.1)
    &&& after.pending.len() == before.pending.len()
    &&& forall|k: int|
        0 <= k < before.pending.len() ==> (#[trigger] after.pending[k]).delta == rb.0[k]
    &&& after.state == before.state
    &&& after.connected == before.connected
    &&& after.failures == before.failures
    &&& after.retry_ceiling == before.retry_ceiling
}

impl SyncView {
    /// The invariant of a synchronizer.
    pub open spec fn wf(self) -> bool {
        &&& self.acked_rev_id + self.pending.len() <= u64::MAX
        &&& forall|k: int|
            0 <= k < self.pending.len() ==> #[trigger] entry_ok(
                self.object_id,
                self.synced,
                self.acked_rev_id,
                self.pending,
                k,
            )
        &&& replays_cleanly(self.synced, self.pending)
        &&& self.content == replay(self.synced, self.pending)
        &&& self.state == SyncState::Idle ==> self.pending.len() == 0
        &&& self.state == SyncState::Syncing ==> self.pending.len() > 0
    }
}

/// Every pending revision is numbered after the last acknowledged or
/// snapshot revision, in queue order.
pub proof fn law_pending_after_acknowledged(v: SyncView)
    requires
        v.wf(),
    ensures
        forall|k: int| 0 <= k < v.pending.len() ==> #[trigger] v.pending[k].rev_id > v.acked_rev_id,
        forall|j: int, k: int|
            0 <= j < k < v.pending.len() ==> #[trigger] v.pending[j].rev_id
                < #[trigger] v.pending[k].rev_id,
{
    assert forall|k: int| 0 <= k < v.pending.len() implies #[trigger] v.pending[k].rev_id
        > v.acked_rev_id by {
        assert(entry_ok(v.object_id, v.synced, v.acked_rev_id, v.pending, k));
    }
    assert forall|j: int, k: int|
        0 <= j < k < v.pending.len() implies #[trigger] v.pending[j].rev_id
        < #[trigger] v.pending[k].rev_id by {
        assert(entry_ok(v.object_id, v.synced, v.acked_rev_id, v.pending, j));
        assert(entry_ok(v.object_id, v.synced, v.acked_rev_id, v.pending, k));
    }
}

impl RevisionSynchronizer {
    /// The invariant of a synchronizer.
    pub open spec fn wf(&self) -> bool {
        self@.wf()
    }

    /// A synchronizer for `document`, whose content is revision `rev_id`.
    pub fn new(document: ServerDocument, rev_id: u64, retry_ceiling: u32) -> (r:
        RevisionSynchronizer)
        ensures
            r.wf(),
            r@.object_id == document.document_id@,
            r@.content == document.content@,
            r@.synced == document.content@,
            r@.acked_rev_id == rev_id,
            r@.pending.len() == 0,
            r@.state == SyncState::Idle,
            !r@.connected,
            r@.failures == 0,
            r@.retry_ceiling == retry_ceiling,
    {
        let synced = copy_chars(&document.content);
        let r = RevisionSynchronizer {
            document,
            synced,
            acked_rev_id: rev_id,
            pending: Vec::new(),
            state: SyncState::Idle,
            connected: false,
            failures: 0,
            retry_ceiling,
        };
        assert(views_of(r.pending@) =~= Seq::<RevisionView>::empty());
        r
    }

    /// A copy of the head of the pending queue.
    fn head_copy(&self) -> (r: Revision)
        requires
            self.pending@.len() > 0,
        ensures
            r@ == self@.pending[0],
    {
        self.pending[0].duplicate()
    }

    /// Ends the editing session: nothing is accepted or sent afterwards.
    pub fn close(&mut self)
        requires
            old(self).wf(),
        ensures
            final(self).wf(),
            final(self)@ == (SyncView { state: SyncState::Closed, ..old(self)@ }),
    {
        self.state = SyncState::Closed;
    }

    /// Reacts to a transport state change. On reconnection the head of the
    /// queue is sent again, unchanged.
    pub fn connection_changed(&mut self, conn: &ConnectionState) -> (r: SyncAction)
        requires
            old(self).wf(),
        ensures
            final(self).wf(),
            final(self)@ == after_connection(old(self)@, conn is Connected),
            old(self)@.state == SyncState::Closed ==> r is Nothing,
            old(self)@.state != SyncState::Closed && conn is Connected && old(self)@.state
                == SyncState::Syncing ==> r is Send && r->Send_0@ == old(self)@.pending[0],
            !(old(self)@.state != SyncState::Closed && conn is Connected && old(self)@.state
                == SyncState::Syncing) ==> r is Nothing,
    {
        if self.state == SyncState::Closed {
            return SyncAction::Nothing;
        }
        match conn {
            ConnectionState::Connected => {
                self.connected = true;
                if self.state == SyncState::Syncing {
                    SyncAction::Send(self.head_copy())
                } else {
                    SyncAction::Nothing
                }
            },
            _ => {
                self.connected = false;
                SyncAction::Nothing
            },
        }
    }

    /// Reacts to a failed send of the head of the queue: it is retried
    /// unchanged until the failures pass the ceiling, after which the host is
    /// told that the object is offline.
    pub fn send_failed(&mut self) -> (r: SyncAction)
        requires
            old(self).wf(),
        ensures
            final(self).wf(),
            old(self)@.state == SyncState::Syncing && old(self)@.connected ==> final(self)@ == (
            SyncView {
                failures: if old(self)@.failures < u32::MAX {
                    (old(self)@.failures + 1) as u32
                } else {
                    u32::MAX
                },
                ..old(self)@
            }) && (if final(self)@.failures > old(self)@.retry_ceiling {
                r is ReportOffline
            } else {
                r is Send && r->Send_0@ == old(self)@.pending[0]
            }),
            !(old(self)@.state == SyncState::Syncing && old(self)@.connected) ==> final(self)@
                == old(self)@ && r is Nothing,
    {
        if self.state != SyncState::Syncing || !self.connected {
            return SyncAction::Nothing;
        }
        if self.failures < u32::MAX {
            self.failures = self.failures + 1;
        }
        if self.failures > self.retry_ceiling {
            SyncAction::ReportOffline
        } else {
            SyncAction::Send(self.head_copy())
        }
    }

    /// Reacts to a failed snapshot fetch: while recovering, fetch again.
    pub fn snapshot_failed(&self) -> (r: SyncAction)
        ensures
            self@.state == SyncState::Recovering ==> r is FetchSnapshot,
            self@.state != SyncState::Recovering ==> r is Nothing,
    {
        if self.state == SyncState::Recovering {
            SyncAction::FetchSnapshot
        } else {
            SyncAction::Nothing
        }
    }

    /// Applies a local edit: composes it into the document at once and queues
    /// its revision. Sends it when nothing else is in flight.
    pub fn local_edit(&mut self, delta: Delta) -> (r: Result<SyncAction, SyncError>)
        requires
            old(self).wf(),
        ensures
            final(self).wf(),
            old(self)@.state == SyncState::Closed ==> r == Err::<SyncAction, SyncError>(
                SyncError::ObjectClosed,
            ) && final(self)@ == old(self)@,
            old(self)@.state != SyncState::Closed && old(self)@.content.len() != base_len(delta@)
                ==> r == Err::<SyncAction, SyncError>(SyncError::StructuralMismatch)
                && final(self)@ == old(self)@,
            old(self)@.state != SyncState::Closed && old(self)@.content.len() == base_len(delta@)
                && old(self)@.acked_rev_id + old(self)@.pending.len() == u64::MAX ==> r == Err::<
                SyncAction,
                SyncError,
            >(SyncError::InvariantViolation) && final(self)@ == old(self)@,
            old(self)@.state != SyncState::Closed && old(self)@.content.len() == base_len(delta@)
                && old(self)@.acked_rev_id + old(self)@.pending.len() < u64::MAX ==> r is Ok
                && final(self)@ == (SyncView {
                content: apply(old(self)@.content, delta@),
                pending: old(self)@.pending.push(next_revision(old(self)@, delta@)),
                state: if old(self)@.state == SyncState::Idle {
                    SyncState::Syncing
                } else {
                    old(self)@.state
                },
                ..old(self)@
            }) && (if old(self)@.state == SyncState::Idle && old(self)@.connected {
                r->Ok_0 is Send && r->Ok_0->Send_0@ == next_revision(old(self)@, delta@)
            } else {
                r->Ok_0 is Nothing
            }),
    {
        if self.state == SyncState::Closed {
            return Err(SyncError::ObjectClosed);
        }
        if self.document.content.len() != delta.base_len() {
            return Err(SyncError::StructuralMismatch);
        }
        let n = self.pending.len() as u64;
        if n == u64::MAX - self.acked_rev_id {
            return Err(SyncError::InvariantViolation);
        }
        let ghost old_v = self@;
        let result = self.document.compose(&delta);
        assert(result is Ok);
        let checksum = checksum_of(&self.document.content);
        let rev = Revision {
            object_id: self.document.document_id.clone(),
            base_rev_id: self.acked_rev_id + n,
            rev_id: self.acked_rev_id + n + 1,
            delta,
            checksum,
        };
        assert(rev@ == next_revision(old_v, rev.delta@));
        let ghost old_pending = self.pending@;
        self.pending.push(rev);
        proof {
            let pv = views_of(self.pending@);
            assert(pv =~= old_v.pending.push(next_revision(old_v, rev.delta@)));
            lemma_replay_push(old_v.synced, old_v.pending, pv.last());
            assert(pv.take(pv.len() as int) =~= pv);
            assert forall|k: int| 0 <= k < pv.len() implies #[trigger] entry_ok(
                old_v.object_id,
                old_v.synced,
                old_v.acked_rev_id,
                pv,
                k,
            ) by {
                if k < old_v.pending.len() {
                    assert(pv.take(k + 1) =~= old_v.pending.take(k + 1));
                    assert(entry_ok(
                        old_v.object_id,
                        old_v.synced,
                        old_v.acked_rev_id,
                        old_v.pending,
                        k,
                    ));
                }
            }
        }
        if self.state == SyncState::Idle {
            self.state = SyncState::Syncing;
            if self.connected {
                return Ok(SyncAction::Send(self.head_copy()));
            }
        }
        Ok(SyncAction::Nothing)
    }

    /// Takes an acknowledgment from the remote authority. Only the head of the
    /// queue can be acknowledged; it is removed and the next one is sent.
    pub fn receive_ack(&mut self, rev_id: u64) -> (r: SyncAction)
        requires
            old(self).wf(),
        ensures
            final(self).wf(),
            old(self)@.state == SyncState::Syncing && old(self)@.pending[0].rev_id == rev_id
                ==> final(self)@ == (SyncView {
                synced: apply(old(self)@.synced, old(self)@.pending[0].delta),
                acked_rev_id: rev_id,
                pending: old(self)@.pending.drop_first(),
                state: if old(self)@.pending.len() > 1 {
                    SyncState::Syncing
                } else {
                    SyncState::Idle
                },
                failures: 0,
                ..old(self)@
            }) && (if old(self)@.pending.len() > 1 && old(self)@.connected {
                r is Send && r->Send_0@ == old(self)@.pending[1]
            } else {
                r is Nothing
            }),
            !(old(self)@.state == SyncState::Syncing && old(self)@.pending[0].rev_id == rev_id)
                ==> final(self)@ == old(self)@ && r is Nothing,
    {
        if self.state != SyncState::Syncing || self.pending[0].rev_id != rev_id {
            return SyncAction::Nothing;
        }
        let ghost old_v = self@;
        let head = self.pending.remove(0);
        let u = head.delta.units();
        self.synced = apply_units(&self.synced, &u);
        self.acked_rev_id = rev_id;
        self.failures = 0;
        proof {
            let p = old_v.pending;
            let pv = views_of(self.pending@);
            assert(pv =~= p.drop_first());
            assert(head@ == p[0]);
            assert(entry_ok(old_v.object_id, old_v.synced, old_v.acked_rev_id, p, 0));
            assert(self.synced@ == apply(old_v.synced, p[0].delta));
            assert(replay(old_v.synced, p) == replay(self.synced@, pv));
            assert(replays_cleanly(old_v.synced, p) == replays_cleanly(self.synced@, pv));
            assert forall|k: int| 0 <= k < pv.len() implies #[trigger] entry_ok(
                old_v.object_id,
                self.synced@,
                rev_id,
                pv,
                k,
            ) by {
                assert(entry_ok(old_v.object_id, old_v.synced, old_v.acked_rev_id, p, k + 1));
                assert(pv[k] == p[k + 1]);
                let t = p.take(k + 2);
                assert(t.drop_first() =~= pv.take(k + 1));
                assert(t[0] == p[0]);
                assert(replay(old_v.synced, t) == replay(
                    apply(old_v.synced, t[0].delta),
                    t.drop_first(),
                ));
            }
        }
        if self.pending.len() > 0 {
            if self.connected {
                SyncAction::Send(self.head_copy())
            } else {
                SyncAction::Nothing
            }
        } else {
            self.state = SyncState::Idle;
            SyncAction::Nothing
        }
    }

    /// Takes a revision from the remote authority.
    ///
    /// A revision already acknowledged is ignored, and once a revision has
    /// been taken its id counts as acknowledged, so resending it changes
    /// nothing. One made against the
    /// acknowledged revision is checked against its checksum, transformed
    /// over the pending revisions oldest first, and composed into the
    /// document; the pending revisions are rebased and renumbered after it.
    /// A gap in numbering, a length mismatch or a checksum mismatch sends the
    /// synchronizer into recovery.
    pub fn receive_remote(&mut self, rev: &Revision) -> (r: Result<SyncAction, SyncError>)
        requires
            old(self).wf(),
        ensures
            final(self).wf(),
            old(self)@.state == SyncState::Closed ==> r == Err::<SyncAction, SyncError>(
                SyncError::ObjectClosed,
            ) && final(self)@ == old(self)@,
            old(self)@.state != SyncState::Closed && rev@.object_id != old(self)@.object_id ==> r
                == Err::<SyncAction, SyncError>(SyncError::InvariantViolation) && final(self)@
                == old(self)@,
            remote_applies(old(self)@, rev@) && rev@.rev_id <= old(self)@.acked_rev_id ==> r is Ok
                && r->Ok_0 is Nothing && final(self)@ == old(self)@,
            remote_applies(old(self)@, rev@) && rev@.rev_id > old(self)@.acked_rev_id
                && old(self)@.state == SyncState::Recovering ==> r is Ok && r->Ok_0 is Nothing
                && final(self)@ == old(self)@,
            remote_fresh(old(self)@, rev@) && (rev@.base_rev_id != old(self)@.acked_rev_id || (
            remote_in_sequence(old(self)@, rev@) && !remote_fits(old(self)@, rev@))) ==> r is Ok
                && r->Ok_0 is FetchSnapshot && final(self)@ == (SyncView {
                state: SyncState::Recovering,
                ..old(self)@
            }),
            remote_fresh(old(self)@, rev@) && rev@.base_rev_id == old(self)@.acked_rev_id
                && rev@.rev_id + old(self)@.pending.len() > u64::MAX ==> r == Err::<
                SyncAction,
                SyncError,
            >(SyncError::InvariantViolation) && final(self)@ == old(self)@,
            remote_fresh(old(self)@, rev@) && remote_in_sequence(old(self)@, rev@)
                && remote_fits(old(self)@, rev@) ==> r is Ok && r->Ok_0 is Nothing
                && took_remote(old(self)@, final(self)@, rev@),
            r is Ok && final(self)@.state != SyncState::Recovering ==> rev@.rev_id
                <= final(self)@.acked_rev_id,
    {
        if self.state == SyncState::Closed {
            return Err(SyncError::ObjectClosed);
        }
        if !(rev.object_id == self.document.document_id) {
            return Err(SyncError::InvariantViolation);
        }
        if rev.rev_id <= self.acked_rev_id || self.state == SyncState::Recovering {
            return Ok(SyncAction::Nothing);
        }
        if rev.base_rev_id != self.acked_rev_id {
            self.state = SyncState::Recovering;
            return Ok(SyncAction::FetchSnapshot);
        }
        let n = self.pending.len() as u64;
        if n > u64::MAX - rev.rev_id {
            return Err(SyncError::InvariantViolation);
        }
        let ru = rev.delta.units();
        if units_base_len(&ru) != self.synced.len() {
            self.state = SyncState::Recovering;
            return Ok(SyncAction::FetchSnapshot);
        }
        let synced2 = apply_units(&self.synced, &ru);
        let digest = checksum_of(&synced2);
        if !bytes_equal(&digest, &rev.checksum) {
            self.state = SyncState::Recovering;
            return Ok(SyncAction::FetchSnapshot);
        }
        let (newp, rlast) = rebase_pending(
            &self.pending,
            &self.synced,
            ru,
            &synced2,
            &self.document.document_id,
            rev.rev_id,
        );
        self.document.content = apply_units(&self.document.content, &rlast);
        self.synced = synced2;
        self.acked_rev_id = rev.rev_id;
        self.pending = newp;
        Ok(SyncAction::Nothing)
    }

    /// Loads a snapshot while recovering: the document becomes what
    /// `snapshot` produces from nothing, which must hash to `checksum`; it is
    /// then revision `rev_id`, and the stale pending revisions are dropped.
    /// On failure nothing changes and the synchronizer stays where it was.
    pub fn apply_snapshot(&mut self, snapshot: &Delta, rev_id: u64, checksum: &Vec<u8>) -> (r:
        Result<(), SyncError>)
        requires
            old(self).wf(),
        ensures
            final(self).wf(),
            old(self)@.state != SyncState::Recovering ==> r == Err::<(), SyncError>(
                SyncError::InvariantViolation,
            ) && final(self)@ == old(self)@,
            old(self)@.state == SyncState::Recovering && base_len(snapshot@) != 0 ==> r == Err::<
                (),
                SyncError,
            >(SyncError::StructuralMismatch) && final(self)@ == old(self)@,
            old(self)@.state == SyncState::Recovering && base_len(snapshot@) == 0 && content_digest(
                apply(Seq::empty(), snapshot@),
            ) != checksum@ ==> r == Err::<(), SyncError>(SyncError::ChecksumMismatch)
                && final(self)@ == old(self)@,
            old(self)@.state == SyncState::Recovering && base_len(snapshot@) == 0 && content_digest(
                apply(Seq::empty(), snapshot@),
            ) == checksum@ ==> r is Ok && final(self)@ == (SyncView {
                content: apply(Seq::empty(), snapshot@),
                synced: apply(Seq::empty(), snapshot@),
                acked_rev_id: rev_id,
                pending: Seq::empty(),
                state: SyncState::Idle,
                failures: 0,
                ..old(self)@
            }),
            r is Ok ==> content_digest(final(self)@.content) == checksum@ && forall|k: int|
                0 <= k < final(self)@.pending.len() ==> final(self)@.pending[k].rev_id > rev_id,
    {
        if self.state != SyncState::Recovering {
            return Err(SyncError::InvariantViolation);
        }
        let empty: Vec<char> = Vec::new();
        let content = match snapshot.apply(&empty) {
            Ok(c) => c,
            Err(e) => return Err(e),
        };
        let digest = checksum_of(&content);
        if !bytes_equal(&digest, checksum) {
            return Err(SyncError::ChecksumMismatch);
        }
        self.synced = copy_chars(&content);
        self.document.content = content;
        self.acked_rev_id = rev_id;
        self.pending = Vec::new();
        self.state = SyncState::Idle;
        self.failures = 0;
        assert(views_of(self.pending@) =~= Seq::<RevisionView>::empty());
        Ok(())
    }
}

} // verus!
