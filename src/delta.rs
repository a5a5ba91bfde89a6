//! Text deltas: run-length operations whose meaning is a sequence of unit
//! operations.
use vstd::prelude::*;

use crate::algebra::{
    apply, apply_units, base_len, compose, compose_units, invert, invert_units, put_unit,
    target_len, transform, transform_units, units_base_len, units_target_len, is_put, UnitOp,
};
use crate::error::SyncError;

verus! {

/// One run of a text delta.
#[derive(Debug, PartialEq, Eq)]
pub enum DeltaOp {
    /// Keep the next `n` characters.
    Retain(usize),
    /// Insert these characters.
    Insert(Vec<char>),
    /// Delete the next `n` characters.
    Delete(usize),
}

/// An ordered sequence of runs describing a change to a text.
#[derive(Debug, PartialEq, Eq)]
pub struct Delta {
    pub ops: Vec<DeltaOp>,
}

/// The unit operations that one run stands for.
pub open spec fn op_units(op: DeltaOp) -> Seq<UnitOp> {
    match op {
        DeltaOp::Retain(n) => Seq::new(n as nat, |i: int| UnitOp::Keep),
        DeltaOp::Insert(s) => Seq::new(s@.len(), |i: int| put_unit(s@[i])),
        DeltaOp::Delete(n) => Seq::new(n as nat, |i: int| UnitOp::Drop),
    }
}

/// The unit operations that a sequence of runs stands for.
pub open spec fn units_of(ops: Seq<DeltaOp>) -> Seq<UnitOp>
    decreases ops.len(),
{
    if ops.len() == 0 {
        Seq::empty()
    } else {
        op_units(ops[0]) + units_of(ops.drop_first())
    }
}

/// Number of units in a run.
pub open spec fn op_len(op: DeltaOp) -> nat {
    match op {
        DeltaOp::Retain(n) => n as nat,
        DeltaOp::Insert(s) => s@.len(),
        DeltaOp::Delete(n) => n as nat,
    }
}

/// Whether a unit operation is of the kind of a run.
pub open spec fn same_kind(op: DeltaOp, u: UnitOp) -> bool {
    match op {
        DeltaOp::Retain(_) => u is Keep,
        DeltaOp::Insert(_) => u is Put,
        DeltaOp::Delete(_) => u is Drop,
    }
}

/// Whether two runs are of one kind.
pub open spec fn same_run_kind(x: DeltaOp, y: DeltaOp) -> bool {
    ||| (x is Retain && y is Retain)
    ||| (x is Insert && y is Insert)
    ||| (x is Delete && y is Delete)
}

/// A canonical delta has no empty run and no two neighbouring runs of one
/// kind.
pub open spec fn is_canonical(ops: Seq<DeltaOp>) -> bool {
    &&& forall|i: int| 0 <= i < ops.len() ==> op_len(#[trigger] ops[i]) > 0
    &&& forall|i: int| 0 <= i < ops.len() - 1 ==> !same_run_kind(#[trigger] ops[i], ops[i + 1])
}

impl View for Delta {
    type V = Seq<UnitOp>;

    open spec fn view(&self) -> Seq<UnitOp> {
        units_of(self.ops@)
    }
}

/// The units of runs followed by one more run.
pub proof fn lemma_units_push(ops: Seq<DeltaOp>, op: DeltaOp)
    ensures
        units_of(ops.push(op)) == units_of(ops) + op_units(op),
    decreases ops.len(),
{
    let p = ops.push(op);
    assert(p.len() > 0);
    if ops.len() == 0 {
        assert(p.drop_first() =~= Seq::<DeltaOp>::empty());
        assert(p[0] == op);
        assert(units_of(p) == op_units(p[0]) + units_of(p.drop_first()));
        assert(units_of(p) =~= units_of(ops) + op_units(op));
    } else {
        assert(p.drop_first() =~= ops.drop_first().push(op));
        assert(p[0] == ops[0]);
        lemma_units_push(ops.drop_first(), op);
        assert(units_of(p) == op_units(p[0]) + units_of(p.drop_first()));
        assert(units_of(p) =~= units_of(ops) + op_units(op));
    }
}

/// Copies a character vector.
pub fn copy_chars(v: &Vec<char>) -> (r: Vec<char>)
    ensures
        r@ == v@,
{
    let mut r: Vec<char> = Vec::new();
    let mut i: usize = 0;
    while i < v.len()
        invariant
            i <= v.len(),
            r@ == v@.take(i as int),
        decreases v.len() - i,
    {
        r.push(v[i]);
        i += 1;
        assert(r@ =~= v@.take(i as int));
    }
    assert(v@.take(v.len() as int) =~= v@);
    r
}

/// Relies on std's `FromIterator<char>` for `String`, which collects the
/// characters in order.
#[verifier::external_body]
pub(crate) fn collect_chars(content: &Vec<char>) -> (r: String)
    ensures
        r@ == content@,
{
    content.iter().collect()
}

/// Whether two string slices hold the same characters.
pub fn same_text(a: &str, b: &str) -> (r: bool)
    ensures
        r == (a@ == b@),
{
    let n = a.unicode_len();
    if n != b.unicode_len() {
        return false;
    }
    let mut i: usize = 0;
    while i < n
        invariant
            n == a@.len(),
            n == b@.len(),
            i <= n,
            forall|k: int| 0 <= k < i ==> a@[k] == b@[k],
        decreases n - i,
    {
        if a.get_char(i) != b.get_char(i) {
            return false;
        }
        i += 1;
    }
    assert(a@ =~= b@);
    true
}

/// The characters of a string slice.
pub fn chars_of(s: &str) -> (r: Vec<char>)
    ensures
        r@ == s@,
{
    let n = s.unicode_len();
    let mut r: Vec<char> = Vec::new();
    let mut i: usize = 0;
    while i < n
        invariant
            n == s@.len(),
            i <= n,
            r@ == s@.take(i as int),
        decreases n - i,
    {
        r.push(s.get_char(i));
        i += 1;
        assert(r@ =~= s@.take(i as int));
    }
    assert(s@.take(n as int) =~= s@);
    r
}

impl DeltaOp {
    /// A copy of this run.
    pub fn duplicate(&self) -> (r: DeltaOp)
        ensures
            op_units(r) == op_units(*self),
            op_len(r) == op_len(*self),
            same_run_kind(r, *self),
    {
        match self {
            DeltaOp::Retain(n) => DeltaOp::Retain(*n),
            DeltaOp::Insert(s) => {
                let c = copy_chars(s);
                assert(op_units(DeltaOp::Insert(c)) =~= op_units(*self));
                DeltaOp::Insert(c)
            },
            DeltaOp::Delete(n) => DeltaOp::Delete(*n),
        }
    }
}

impl Delta {
    /// The empty delta.
    pub fn new() -> (r: Delta)
        ensures
            r@ == Seq::<UnitOp>::empty(),
            r.ops@.len() == 0,
    {
        Delta { ops: Vec::new() }
    }

    /// Appends a run, leaving out an empty one.
    fn push_op(&mut self, op: DeltaOp)
        ensures
            final(self)@ == old(self)@ + op_units(op),
    {
        proof {
            lemma_units_push(old(self).ops@, op);
        }
        let nonempty = match &op {
            DeltaOp::Retain(n) => *n > 0,
            DeltaOp::Insert(s) => s.len() > 0,
            DeltaOp::Delete(n) => *n > 0,
        };
        assert(nonempty == (op_len(op) > 0));
        if nonempty {
            self.ops.push(op);
        } else {
            assert(op_units(op) =~= Seq::<UnitOp>::empty());
            assert(old(self)@ + op_units(op) =~= old(self)@);
        }
    }

    /// Appends a run that keeps `n` characters.
    pub fn retain(&mut self, n: usize)
        ensures
            final(self)@ == old(self)@ + Seq::new(n as nat, |i: int| UnitOp::Keep),
    {
        self.push_op(DeltaOp::Retain(n));
    }

    /// Appends a run that inserts the characters of `s`.
    pub fn insert(&mut self, s: &str)
        ensures
            final(self)@ == old(self)@ + Seq::new(s@.len(), |i: int| put_unit(s@[i])),
    {
        let c = chars_of(s);
        assert(op_units(DeltaOp::Insert(c)) =~= Seq::new(s@.len(), |i: int| put_unit(s@[i])));
        self.push_op(DeltaOp::Insert(c));
    }

    /// Appends a run that deletes `n` characters.
    pub fn delete(&mut self, n: usize)
        ensures
            final(self)@ == old(self)@ + Seq::new(n as nat, |i: int| UnitOp::Drop),
    {
        self.push_op(DeltaOp::Delete(n));
    }

    /// A copy of this delta, run for run.
    pub fn duplicate(&self) -> (r: Delta)
        ensures
            r@ == self@,
            r.ops@.len() == self.ops@.len(),
            is_canonical(self.ops@) ==> is_canonical(r.ops@),
    {
        let mut ops: Vec<DeltaOp> = Vec::new();
        let mut i: usize = 0;
        while i < self.ops.len()
            invariant
                i <= self.ops.len(),
                ops@.len() == i,
                units_of(ops@) == units_of(self.ops@.take(i as int)),
                forall|k: int|
                    0 <= k < i ==> op_len(#[trigger] ops@[k]) == op_len(self.ops@[k])
                        && same_run_kind(ops@[k], self.ops@[k]),
            decreases self.ops.len() - i,
        {
            let op = self.ops[i].duplicate();
            proof {
                lemma_units_push(ops@, op);
                lemma_units_push(self.ops@.take(i as int), self.ops@[i as int]);
                assert(self.ops@.take(i + 1) =~= self.ops@.take(i as int).push(
                    self.ops@[i as int],
                ));
            }
            ops.push(op);
            i += 1;
        }
        assert(self.ops@.take(i as int) =~= self.ops@);
        let r = Delta { ops };
        assert(is_canonical(self.ops@) ==> is_canonical(r.ops@)) by {
            if is_canonical(self.ops@) {
                assert forall|k: int| 0 <= k < r.ops@.len() - 1 implies !same_run_kind(
                    #[trigger] r.ops@[k],
                    r.ops@[k + 1],
                ) by {
                    assert(!same_run_kind(self.ops@[k], self.ops@[k + 1]));
                }
            }
        }
        r
    }

    /// The unit operations of this delta.
    pub fn units(&self) -> (r: Vec<UnitOp>)
        ensures
            r@ == self@,
    {
        let mut out: Vec<UnitOp> = Vec::new();
        let mut i: usize = 0;
        while i < self.ops.len()
            invariant
                i <= self.ops.len(),
                out@ == units_of(self.ops@.take(i as int)),
            decreases self.ops.len() - i,
        {
            let ghost before = out@;
            let op = &self.ops[i];
            match op {
                DeltaOp::Retain(n) => {
                    let mut k: usize = 0;
                    assert(out@ =~= before + Seq::new(0, |j: int| UnitOp::Keep));
                    while k < *n
                        invariant
                            k <= *n,
                            out@ == before + Seq::new(k as nat, |j: int| UnitOp::Keep),
                        decreases *n - k,
                    {
                        out.push(UnitOp::Keep);
                        k += 1;
                        assert(out@ =~= before + Seq::new(k as nat, |j: int| UnitOp::Keep));
                    }
                    assert(out@ =~= before + op_units(self.ops@[i as int]));
                },
                DeltaOp::Insert(s) => {
                    let mut k: usize = 0;
                    assert(out@ =~= before + Seq::new(0, |j: int| put_unit(s@[j])));
                    while k < s.len()
                        invariant
                            k <= s.len(),
                            out@ == before + Seq::new(k as nat, |j: int| put_unit(s@[j])),
                        decreases s.len() - k,
                    {
                        let c = s[k];
                        out.push(UnitOp::Put(c));
                        assert(out@[out@.len() - 1] == put_unit(s@[k as int]));
                        k += 1;
                        assert(out@ =~= before + Seq::new(k as nat, |j: int| put_unit(s@[j])));
                    }
                    assert(out@ =~= before + op_units(self.ops@[i as int]));
                },
                DeltaOp::Delete(n) => {
                    let mut k: usize = 0;
                    assert(out@ =~= before + Seq::new(0, |j: int| UnitOp::Drop));
                    while k < *n
                        invariant
                            k <= *n,
                            out@ == before + Seq::new(k as nat, |j: int| UnitOp::Drop),
                        decreases *n - k,
                    {
                        out.push(UnitOp::Drop);
                        k += 1;
                        assert(out@ =~= before + Seq::new(k as nat, |j: int| UnitOp::Drop));
                    }
                    assert(out@ =~= before + op_units(self.ops@[i as int]));
                },
            }
            proof {
                lemma_units_push(self.ops@.take(i as int), self.ops@[i as int]);
                assert(self.ops@.take(i + 1) =~= self.ops@.take(i as int).push(
                    self.ops@[i as int],
                ));
                assert(out@ =~= units_of(self.ops@.take(i + 1)));
            }
            i += 1;
        }
        assert(self.ops@.take(i as int) =~= self.ops@);
        out
    }
}

impl Delta {
    /// The canonical delta of a unit sequence: maximal runs, none empty.
    pub fn from_units(u: &Vec<UnitOp>) -> (r: Delta)
        ensures
            r@ == u@,
            is_canonical(r.ops@),
    {
        let n = u.len();
        let mut ops: Vec<DeltaOp> = Vec::new();
        let mut i: usize = 0;
        assert(u@.skip(0) =~= u@);
        while i < n
            invariant
                n == u.len(),
                i <= n,
                units_of(ops@) + u@.skip(i as int) == u@,
                is_canonical(ops@),
                ops@.len() > 0 && i < n ==> !same_kind(ops@.last(), u@[i as int]),
            decreases n - i,
        {
            let start = i;
            let (op, j) = next_run(u, i);
            i = j;
            proof {
                lemma_units_push(ops@, op);
                assert(u@.skip(start as int) =~= u@.subrange(start as int, i as int) + u@.skip(
                    i as int,
                ));
                assert(units_of(ops@.push(op)) + u@.skip(i as int) =~= u@);
                if ops@.len() > 0 {
                    assert(!same_run_kind(ops@.last(), op));
                }
                assert forall|k: int| 0 <= k < ops@.push(op).len() - 1 implies !same_run_kind(
                    #[trigger] ops@.push(op)[k],
                    ops@.push(op)[k + 1],
                ) by {
                    if k < ops@.len() - 1 {
                        assert(!same_run_kind(ops@[k], ops@[k + 1]));
                    }
                }
            }
            ops.push(op);
        }
        assert(u@.skip(n as int) =~= Seq::<UnitOp>::empty());
        assert(units_of(ops@) =~= u@);
        Delta { ops }
    }

    /// Number of characters this delta consumes.
    pub fn base_len(&self) -> (n: usize)
        ensures
            n == base_len(self@),
    {
        let u = self.units();
        units_base_len(&u)
    }

    /// Number of characters this delta produces.
    pub fn target_len(&self) -> (n: usize)
        ensures
            n == target_len(self@),
    {
        let u = self.units();
        units_target_len(&u)
    }

    /// Applies this delta to `content`; fails when its base length is not the
    /// length of `content`.
    pub fn apply(&self, content: &Vec<char>) -> (r: Result<Vec<char>, SyncError>)
        ensures
            r is Ok <==> content@.len() == base_len(self@),
            r is Ok ==> r->Ok_0@ == apply(content@, self@),
            r is Err ==> r->Err_0 == SyncError::StructuralMismatch,
    {
        let u = self.units();
        if units_base_len(&u) != content.len() {
            return Err(SyncError::StructuralMismatch);
        }
        Ok(apply_units(content, &u))
    }

    /// The canonical delta equivalent to this delta followed by `other`; fails
    /// when `other` does not start from what this delta produces.
    pub fn compose(&self, other: &Delta) -> (r: Result<Delta, SyncError>)
        ensures
            r is Ok <==> target_len(self@) == base_len(other@),
            r is Ok ==> r->Ok_0@ == compose(self@, other@) && is_canonical(r->Ok_0.ops@),
            r is Err ==> r->Err_0 == SyncError::StructuralMismatch,
    {
        let a = self.units();
        let b = other.units();
        if units_target_len(&a) != units_base_len(&b) {
            return Err(SyncError::StructuralMismatch);
        }
        let c = compose_units(&a, &b);
        Ok(Delta::from_units(&c))
    }

    /// Transforms this delta and `other`, made against one source, into
    /// `(a2, b2)`: `a2` applies after `other`, `b2` after this delta. Fails
    /// when their base lengths differ.
    pub fn transform(&self, other: &Delta) -> (r: Result<(Delta, Delta), SyncError>)
        ensures
            r is Ok <==> base_len(self@) == base_len(other@),
            r is Ok ==> r->Ok_0.0@ == transform(self@, other@).0 && r->Ok_0.1@ == transform(
                self@,
                other@,
            ).1 && is_canonical(r->Ok_0.0.ops@) && is_canonical(r->Ok_0.1.ops@),
            r is Err ==> r->Err_0 == SyncError::StructuralMismatch,
    {
        let a = self.units();
        let b = other.units();
        if units_base_len(&a) != units_base_len(&b) {
            return Err(SyncError::StructuralMismatch);
        }
        let (x, y) = transform_units(&a, &b);
        Ok((Delta::from_units(&x), Delta::from_units(&y)))
    }

    /// The delta that undoes this one on `base`; fails when the base length of
    /// this delta is not the length of `base`.
    pub fn invert(&self, base: &Vec<char>) -> (r: Result<Delta, SyncError>)
        ensures
            r is Ok <==> base@.len() == base_len(self@),
            r is Ok ==> r->Ok_0@ == invert(self@, base@) && is_canonical(r->Ok_0.ops@),
            r is Err ==> r->Err_0 == SyncError::StructuralMismatch,
    {
        let u = self.units();
        if units_base_len(&u) != base.len() {
            return Err(SyncError::StructuralMismatch);
        }
        let v = invert_units(&u, base);
        Ok(Delta::from_units(&v))
    }
}

/// The maximal run of one kind that starts at `i`, and where it ends.
fn next_run(u: &Vec<UnitOp>, i: usize) -> (r: (DeltaOp, usize))
    requires
        i < u.len(),
    ensures
        i < r.1 <= u.len(),
        op_units(r.0) == u@.subrange(i as int, r.1 as int),
        op_len(r.0) > 0,
        same_kind(r.0, u@[i as int]),
        r.1 < u.len() ==> !same_kind(r.0, u@[r.1 as int]),
{
    let n = u.len();
    let start = i;
    let op: DeltaOp;
    let mut i = i;
    match u[i] {
        UnitOp::Keep => {
            let mut j: usize = i + 1;
            while j < n && u[j] == UnitOp::Keep
                invariant
                    n == u.len(),
                    start < j <= n,
                    forall|k: int| start <= k < j ==> u@[k] is Keep,
                decreases n - j,
            {
                j += 1;
            }
            op = DeltaOp::Retain(j - start);
            assert(op_units(op) =~= u@.subrange(start as int, j as int));
            i = j;
        },
        UnitOp::Put(c) => {
            let mut chars: Vec<char> = Vec::new();
            chars.push(c);
            let mut j: usize = i + 1;
            while j < n && is_put(u[j])
                invariant
                    n == u.len(),
                    start < j <= n,
                    chars@.len() == j - start,
                    forall|k: int|
                        0 <= k < chars@.len() ==> u@[start + k] == put_unit(
                            #[trigger] chars@[k],
                        ),
                decreases n - j,
            {
                match u[j] {
                    UnitOp::Put(d) => chars.push(d),
                    _ => {},
                }
                j += 1;
            }
            op = DeltaOp::Insert(chars);
            assert(op_units(op) =~= u@.subrange(start as int, j as int)) by {
                assert forall|k: int| 0 <= k < j - start implies op_units(op)[k]
                    == u@.subrange(start as int, j as int)[k] by {
                    assert(u@[start + k] == put_unit(chars@[k]));
                }
            }
            i = j;
        },
        UnitOp::Drop => {
            let mut j: usize = i + 1;
            while j < n && u[j] == UnitOp::Drop
                invariant
                    n == u.len(),
                    start < j <= n,
                    forall|k: int| start <= k < j ==> u@[k] is Drop,
                decreases n - j,
            {
                j += 1;
            }
            op = DeltaOp::Delete(j - start);
            assert(op_units(op) =~= u@.subrange(start as int, j as int));
            i = j;
        },
    }
    (op, i)
}

} // verus!
