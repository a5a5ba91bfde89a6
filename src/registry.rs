//! The registry of open synchronizers, one per object, sharing one transport.
use vstd::prelude::*;

use crate::delta::same_text;
use crate::document::ServerDocument;
use crate::error::SyncError;
use crate::synchronizer::{
    after_connection, ConnectionState, RevisionSynchronizer, SyncAction, SyncState, SyncView,
};

verus! {

/// The views of a sequence of synchronizers.
pub open spec fn sync_views(entries: Seq<RevisionSynchronizer>) -> Seq<SyncView> {
    entries.map_values(|s: RevisionSynchronizer| s@)
}

/// The synchronizers of the open objects; each object id appears once.
#[derive(Debug)]
pub struct SyncRegistry {
    pub entries: Vec<RevisionSynchronizer>,
    /// Whether the shared transport is connected.
    pub connected: bool,
}

impl SyncRegistry {
    /// The invariant of a registry.
    pub open spec fn wf(&self) -> bool {
        &&& forall|k: int| 0 <= k < self.entries@.len() ==> #[trigger] self.entries@[k].wf()
        &&& forall|j: int, k: int|
            0 <= j < k < self.entries@.len() ==> #[trigger] self.entries@[j]@.object_id
                != #[trigger] self.entries@[k]@.object_id
    }

    /// A registry with no open object.
    pub fn new() -> (r: SyncRegistry)
        ensures
            r.wf(),
            r.entries@.len() == 0,
            !r.connected,
    {
        SyncRegistry { entries: Vec::new(), connected: false }
    }

    /// The place of the synchronizer of `id`, if it is open.
    pub fn find(&self, id: &str) -> (r: Option<usize>)
        ensures
            r is Some ==> r->Some_0 < self.entries@.len()
                && self.entries@[r->Some_0 as int]@.object_id == id@,
            r is None ==> forall|k: int|
                0 <= k < self.entries@.len() ==> self.entries@[k]@.object_id != id@,
    {
        let mut i: usize = 0;
        while i < self.entries.len()
            invariant
                i <= self.entries@.len(),
                forall|k: int| 0 <= k < i ==> self.entries@[k]@.object_id != id@,
            decreases self.entries.len() - i,
        {
            if same_text(self.entries[i].document.object_id(), id) {
                return Some(i);
            }
            i += 1;
        }
        None
    }

    /// Opens a synchronizer for `document` at revision `rev_id`; an id that is
    /// already open is refused.
    pub fn open(&mut self, document: ServerDocument, rev_id: u64, retry_ceiling: u32) -> (r:
        Result<(), SyncError>)
        requires
            old(self).wf(),
        ensures
            final(self).wf(),
            final(self).connected == old(self).connected,
            (exists|k: int|
                0 <= k < old(self).entries@.len() && old(self).entries@[k]@.object_id
                    == document.document_id@) ==> r == Err::<(), SyncError>(
                SyncError::InvariantViolation,
            ) && final(self).entries@ == old(self).entries@,
            !(exists|k: int|
                0 <= k < old(self).entries@.len() && old(self).entries@[k]@.object_id
                    == document.document_id@) ==> r is Ok && final(self).entries@.len() == old(
                self).entries@.len() + 1 && final(self).entries@.take(
                old(self).entries@.len() as int,
            ) == old(self).entries@ && final(self).entries@.last()@ == (SyncView {
                object_id: document.document_id@,
                content: document.content@,
                synced: document.content@,
                acked_rev_id: rev_id,
                pending: Seq::empty(),
                state: SyncState::Idle,
                connected: old(self).connected,
                failures: 0,
                retry_ceiling,
            }),
    {
        match self.find(document.object_id()) {
            Some(_) => return Err(SyncError::InvariantViolation),
            None => {},
        }
        let mut s = RevisionSynchronizer::new(document, rev_id, retry_ceiling);
        if self.connected {
            let _ = s.connection_changed(&ConnectionState::Connected);
        }
        assert(s@.pending =~= Seq::empty());
        self.entries.push(s);
        assert(self.entries@.take(self.entries@.len() - 1) =~= old(self).entries@);
        Ok(())
    }

    /// Hands a transport state change to every open synchronizer, and returns
    /// what each of them asks to do, in registry order.
    pub fn broadcast(&mut self, conn: &ConnectionState) -> (r: Vec<SyncAction>)
        requires
            old(self).wf(),
        ensures
            final(self).wf(),
            final(self).connected == conn is Connected,
            final(self).entries@.len() == old(self).entries@.len(),
            r@.len() == old(self).entries@.len(),
            forall|k: int|
                0 <= k < old(self).entries@.len() ==> #[trigger] final(self).entries@[k]@
                    == after_connection(old(self).entries@[k]@, conn is Connected),
            forall|k: int|
                0 <= k < old(self).entries@.len() ==> (if conn is Connected
                    && old(self).entries@[k]@.state == SyncState::Syncing {
                    #[trigger] r@[k] is Send && r@[k]->Send_0@ == old(self).entries@[k]@.pending[0]
                } else {
                    r@[k] is Nothing
                }),
    {
        let mut actions: Vec<SyncAction> = Vec::new();
        let n = self.entries.len();
        let mut i: usize = 0;
        while i < n
            invariant
                n == old(self).entries@.len(),
                i <= n,
                self.entries@.len() == n,
                actions@.len() == i,
                forall|k: int| 0 <= k < n ==> #[trigger] self.entries@[k].wf(),
                forall|k: int|
                    0 <= k < n ==> #[trigger] self.entries@[k]@.object_id == old(
                        self,
                    ).entries@[k]@.object_id,
                forall|k: int|
                    0 <= k < i ==> #[trigger] self.entries@[k]@ == after_connection(
                        old(self).entries@[k]@,
                        conn is Connected,
                    ),
                forall|k: int| i <= k < n ==> #[trigger] self.entries@[k] == old(self).entries@[k],
                forall|k: int|
                    0 <= k < i ==> (if conn is Connected && old(self).entries@[k]@.state
                        == SyncState::Syncing {
                        #[trigger] actions@[k] is Send && actions@[k]->Send_0@ == old(
                            self,
                        ).entries@[k]@.pending[0]
                    } else {
                        actions@[k] is Nothing
                    }),
            decreases n - i,
        {
            let mut s = self.entries.remove(i);
            let a = s.connection_changed(conn);
            self.entries.insert(i, s);
            actions.push(a);
            i += 1;
        }
        self.connected = match conn {
            ConnectionState::Connected => true,
            _ => false,
        };
        assert forall|j: int, k: int|
            0 <= j < k < self.entries@.len() implies #[trigger] self.entries@[j]@.object_id
            != #[trigger] self.entries@[k]@.object_id by {
            assert(old(self).entries@[j]@.object_id != old(self).entries@[k]@.object_id);
        }
        actions
    }

    /// Closes the synchronizer of `id` and hands it back; the object's session
    /// ends and its id may be opened again.
    pub fn close(&mut self, id: &str) -> (r: Option<RevisionSynchronizer>)
        requires
            old(self).wf(),
        ensures
            final(self).wf(),
            final(self).connected == old(self).connected,
            (exists|k: int|
                0 <= k < old(self).entries@.len() && old(self).entries@[k]@.object_id == id@) ==> r
                is Some && r->Some_0@.state == SyncState::Closed && r->Some_0@.object_id == id@
                && final(self).entries@.len() == old(self).entries@.len() - 1,
            !(exists|k: int|
                0 <= k < old(self).entries@.len() && old(self).entries@[k]@.object_id == id@) ==> r
                is None && final(self).entries@ == old(self).entries@,
    {
        match self.find(id) {
            None => None,
            Some(k) => {
                let mut s = self.entries.remove(k);
                s.close();
                assert forall|a: int, b: int|
                    0 <= a < b < self.entries@.len() implies #[trigger] self.entries@[a]@.object_id
                    != #[trigger] self.entries@[b]@.object_id by {
                    let a0 = if a < k { a } else { a + 1 };
                    let b0 = if b < k { b } else { b + 1 };
                    assert(old(self).entries@[a0]@.object_id != old(self).entries@[b0]@.object_id);
                }
                Some(s)
            },
        }
    }
}

} // verus!
