//! Laws of the text operation algebra, stated over the deltas' views.
use vstd::prelude::*;

use crate::algebra::{
    apply, base_len, compose, lemma_apply_len, lemma_compose_apply, lemma_compose_assoc,
    lemma_compose_lens,
    lemma_transform_converges, put_unit, target_len, transform, UnitOp,
};
use crate::delta::Delta;

verus! {

/// The insert-only delta that produces `s` from nothing.
pub open spec fn puts(s: Seq<char>) -> Seq<UnitOp> {
    Seq::new(s.len(), |i: int| put_unit(s[i]))
}

/// An insert-only delta consumes nothing and produces its text.
pub proof fn lemma_puts_base_len(s: Seq<char>)
    ensures
        base_len(puts(s)) == 0,
        apply(Seq::empty(), puts(s)) == s,
    decreases s.len(),
{
    if s.len() > 0 {
        let t = s.drop_first();
        lemma_puts_base_len(t);
        assert(puts(s).drop_first() =~= puts(t));
        assert(s =~= seq![s[0]] + t);
    } else {
        assert(apply(Seq::<char>::empty(), puts(s)) =~= s);
    }
}

/// A delta that consumes nothing is the insertion of what it produces.
pub proof fn lemma_insert_only(u: Seq<UnitOp>)
    requires
        base_len(u) == 0,
    ensures
        u == puts(apply(Seq::empty(), u)),
    decreases u.len(),
{
    if u.len() > 0 {
        let rest = u.drop_first();
        lemma_insert_only(rest);
        let c = u[0]->Put_0;
        let t = apply(Seq::<char>::empty(), rest);
        assert(apply(Seq::<char>::empty(), u) == seq![c] + t);
        assert(u =~= seq![put_unit(c)] + rest);
        assert(puts(seq![c] + t) =~= seq![put_unit(c)] + puts(t));
    } else {
        assert(u =~= puts(Seq::empty()));
    }
}

/// Convergence: two deltas `a` and `b` made independently against the same
/// document `base` (a delta from the empty text) end in the same document
/// whichever order they are applied in, each side applying the other's
/// transformed delta after its own.
pub proof fn law_convergence(base: Delta, a: Delta, b: Delta)
    requires
        base_len(base@) == 0,
        target_len(base@) == base_len(a@),
        base_len(a@) == base_len(b@),
    ensures
        compose(base@, compose(a@, transform(a@, b@).1)) == compose(
            base@,
            compose(b@, transform(a@, b@).0),
        ),
{
    let s = apply(Seq::<char>::empty(), base@);
    let (x, y) = transform(a@, b@);
    lemma_apply_len(Seq::<char>::empty(), base@);
    lemma_transform_converges(s, a@, b@);
    lemma_compose_lens(a@, y);
    lemma_compose_lens(b@, x);
    lemma_compose_apply(s, a@, y);
    lemma_compose_apply(s, b@, x);
    let l = compose(base@, compose(a@, y));
    let r = compose(base@, compose(b@, x));
    lemma_compose_lens(base@, compose(a@, y));
    lemma_compose_lens(base@, compose(b@, x));
    lemma_compose_apply(Seq::empty(), base@, compose(a@, y));
    lemma_compose_apply(Seq::empty(), base@, compose(b@, x));
    lemma_insert_only(l);
    lemma_insert_only(r);
}

/// Composition is associative: `compose(compose(a, b), c)` equals
/// `compose(a, compose(b, c))` for every three deltas that follow one another.
pub proof fn law_compose_associative(a: Delta, b: Delta, c: Delta)
    requires
        target_len(a@) == base_len(b@),
        target_len(b@) == base_len(c@),
    ensures
        compose(compose(a@, b@), c@) == compose(a@, compose(b@, c@)),
{
    lemma_compose_assoc(a@, b@, c@);
}

} // verus!
