//! The text document as a synchronizable object.
use vstd::prelude::*;

use crate::algebra::{apply, base_len, put_unit, transform, UnitOp};
use crate::delta::{collect_chars, copy_chars, is_canonical, Delta};
use crate::error::SyncError;
use crate::laws::puts;

verus! {

/// The materialized text of one document, owned by one synchronizer.
#[derive(Debug)]
pub struct ServerDocument {
    pub document_id: String,
    pub content: Vec<char>,
}

impl ServerDocument {
    /// A document whose content is produced by `operations` from the empty
    /// text; fails unless `operations` consumes nothing.
    pub fn from_operations(document_id: &str, operations: &Delta) -> (r: Result<
        ServerDocument,
        SyncError,
    >)
        ensures
            r is Ok <==> base_len(operations@) == 0,
            r is Ok ==> r->Ok_0.document_id@ == document_id@ && r->Ok_0.content@ == apply(
                Seq::empty(),
                operations@,
            ),
            r is Err ==> r->Err_0 == SyncError::StructuralMismatch,
    {
        let empty: Vec<char> = Vec::new();
        match operations.apply(&empty) {
            Ok(content) => Ok(ServerDocument { document_id: document_id.to_owned(), content }),
            Err(e) => Err(e),
        }
    }

    /// An empty document.
    pub fn new(document_id: &str) -> (r: ServerDocument)
        ensures
            r.document_id@ == document_id@,
            r.content@.len() == 0,
    {
        ServerDocument { document_id: document_id.to_owned(), content: Vec::new() }
    }

    /// The identifier of the document.
    pub fn object_id(&self) -> (r: &str)
        ensures
            r@ == self.document_id@,
    {
        self.document_id.as_str()
    }

    /// A snapshot of the current content.
    pub fn materialize(&self) -> (r: Vec<char>)
        ensures
            r@ == self.content@,
    {
        copy_chars(&self.content)
    }

    /// The current content as a string.
    pub fn text(&self) -> (r: String)
        ensures
            r@ == self.content@,
    {
        collect_chars(&self.content)
    }

    /// The canonical insert-only delta that produces the content from nothing.
    pub fn operations(&self) -> (r: Delta)
        ensures
            r@ == puts(self.content@),
            is_canonical(r.ops@),
    {
        let c = copy_chars(&self.content);
        let n = c.len();
        let mut units: Vec<UnitOp> = Vec::new();
        let mut i: usize = 0;
        while i < n
            invariant
                n == c@.len(),
                c@ == self.content@,
                i <= n,
                units@ == puts(c@.take(i as int)),
            decreases n - i,
        {
            let ch = c[i];
            units.push(UnitOp::Put(ch));
            assert(units@[units@.len() - 1] == put_unit(c@[i as int]));
            i += 1;
            assert(units@ =~= puts(c@.take(i as int)));
        }
        assert(c@.take(n as int) =~= c@);
        Delta::from_units(&units)
    }

    /// Applies a delta made against the current content; on failure the
    /// content is left as it was.
    pub fn compose(&mut self, other: &Delta) -> (r: Result<(), SyncError>)
        ensures
            final(self).document_id@ == old(self).document_id@,
            r is Ok <==> old(self).content@.len() == base_len(other@),
            r is Ok ==> final(self).content@ == apply(old(self).content@, other@),
            r is Err ==> r->Err_0 == SyncError::StructuralMismatch && final(self).content@ == old(
                self,
            ).content@,
    {
        match other.apply(&self.content) {
            Ok(content) => {
                self.content = content;
                Ok(())
            },
            Err(e) => Err(e),
        }
    }

    /// Transforms the document, seen as its insert-only delta, against
    /// `other`, which must also start from the empty text.
    pub fn transform(&self, other: &Delta) -> (r: Result<(Delta, Delta), SyncError>)
        ensures
            r is Ok <==> base_len(other@) == 0,
            r is Ok ==> r->Ok_0.0@ == transform(puts(self.content@), other@).0 && r->Ok_0.1@
                == transform(puts(self.content@), other@).1,
            r is Err ==> r->Err_0 == SyncError::StructuralMismatch,
    {
        let own = self.operations();
        proof {
            crate::laws::lemma_puts_base_len(self.content@);
        }
        own.transform(other)
    }

    /// Replaces the whole content by what `operations` produces from nothing;
    /// fails, leaving the content as it was, unless `operations` consumes
    /// nothing.
    pub fn set_operations(&mut self, operations: &Delta) -> (r: Result<(), SyncError>)
        ensures
            final(self).document_id@ == old(self).document_id@,
            r is Ok <==> base_len(operations@) == 0,
            r is Ok ==> final(self).content@ == apply(Seq::empty(), operations@),
            r is Err ==> r->Err_0 == SyncError::StructuralMismatch && final(self).content@ == old(
                self,
            ).content@,
    {
        let empty: Vec<char> = Vec::new();
        match operations.apply(&empty) {
            Ok(content) => {
                self.content = content;
                Ok(())
            },
            Err(e) => Err(e),
        }
    }
}

} // verus!
