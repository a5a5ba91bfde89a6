//! The operation algebra at unit granularity.
//!
//! A delta is modelled as a sequence of unit operations, each of which keeps,
//! inserts or deletes exactly one character. Every law of the algebra is
//! stated and proved over this model.
use vstd::prelude::*;

verus! {

/// One step of a delta: keep the next character of the source, put a new
/// character, or drop the next character of the source.
#[derive(Clone, Copy, Debug, PartialEq, Eq, Structural)]
pub enum UnitOp {
    Keep,
    Put(char),
    Drop,
}

/// The unit operation that puts `c`.
pub open spec fn put_unit(c: char) -> UnitOp {
    UnitOp::Put(c)
}

/// Number of source characters that `u` consumes.
pub open spec fn base_len(u: Seq<UnitOp>) -> nat
    decreases u.len(),
{
    if u.len() == 0 {
        0
    } else {
        (if u[0] is Put { 0nat } else { 1nat }) + base_len(u.drop_first())
    }
}

/// Number of characters that `u` produces.
pub open spec fn target_len(u: Seq<UnitOp>) -> nat
    decreases u.len(),
{
    if u.len() == 0 {
        0
    } else {
        (if u[0] is Drop { 0nat } else { 1nat }) + target_len(u.drop_first())
    }
}

/// The content obtained by applying `u` to `s`.
pub open spec fn apply(s: Seq<char>, u: Seq<UnitOp>) -> Seq<char>
    decreases u.len(),
{
    if u.len() == 0 {
        Seq::empty()
    } else {
        let rest = u.drop_first();
        match u[0] {
            UnitOp::Keep => if s.len() > 0 {
                seq![s[0]] + apply(s.drop_first(), rest)
            } else {
                apply(s, rest)
            },
            UnitOp::Put(c) => seq![c] + apply(s, rest),
            UnitOp::Drop => if s.len() > 0 {
                apply(s.drop_first(), rest)
            } else {
                apply(s, rest)
            },
        }
    }
}

/// The single delta equivalent to `a` followed by `b`.
///
/// Deletions of `a` come first, then insertions of `b`; otherwise the two
/// deltas advance together over the characters that `a` produces.
pub open spec fn compose(a: Seq<UnitOp>, b: Seq<UnitOp>) -> Seq<UnitOp>
    decreases a.len() + b.len(),
{
    if a.len() > 0 && a[0] is Drop {
        seq![UnitOp::Drop] + compose(a.drop_first(), b)
    } else if b.len() > 0 && b[0] is Put {
        seq![b[0]] + compose(a, b.drop_first())
    } else if a.len() == 0 || b.len() == 0 {
        Seq::empty()
    } else {
        let rest = compose(a.drop_first(), b.drop_first());
        match (a[0], b[0]) {
            (UnitOp::Keep, UnitOp::Keep) => seq![UnitOp::Keep] + rest,
            (UnitOp::Keep, _) => seq![UnitOp::Drop] + rest,
            (UnitOp::Put(c), UnitOp::Keep) => seq![UnitOp::Put(c)] + rest,
            (_, _) => rest,
        }
    }
}

/// Transforms two deltas made against the same source into `(a2, b2)`, where
/// `a2` applies after `b` and `b2` applies after `a`.
///
/// At a tie the insertion of `a` (the left operand) is placed first.
pub open spec fn transform(a: Seq<UnitOp>, b: Seq<UnitOp>) -> (Seq<UnitOp>, Seq<UnitOp>)
    decreases a.len() + b.len(),
{
    if a.len() > 0 && a[0] is Put {
        let (x, y) = transform(a.drop_first(), b);
        (seq![a[0]] + x, seq![UnitOp::Keep] + y)
    } else if b.len() > 0 && b[0] is Put {
        let (x, y) = transform(a, b.drop_first());
        (seq![UnitOp::Keep] + x, seq![b[0]] + y)
    } else if a.len() == 0 || b.len() == 0 {
        (Seq::empty(), Seq::empty())
    } else {
        let (x, y) = transform(a.drop_first(), b.drop_first());
        match (a[0], b[0]) {
            (UnitOp::Keep, UnitOp::Keep) => (seq![UnitOp::Keep] + x, seq![UnitOp::Keep] + y),
            (UnitOp::Drop, UnitOp::Keep) => (seq![UnitOp::Drop] + x, y),
            (UnitOp::Keep, _) => (x, seq![UnitOp::Drop] + y),
            (_, _) => (x, y),
        }
    }
}

proof fn lemma_cons<A>(x: A, t: Seq<A>)
    ensures
        (seq![x] + t).len() > 0,
        (seq![x] + t)[0] == x,
        (seq![x] + t).drop_first() == t,
{
    assert((seq![x] + t).drop_first() =~= t);
}

/// A composition consumes what `a` consumes and produces what `b` produces.
pub proof fn lemma_compose_lens(a: Seq<UnitOp>, b: Seq<UnitOp>)
    requires
        target_len(a) == base_len(b),
    ensures
        base_len(compose(a, b)) == base_len(a),
        target_len(compose(a, b)) == target_len(b),
    decreases a.len() + b.len(),
{
    if a.len() > 0 && a[0] is Drop {
        lemma_compose_lens(a.drop_first(), b);
        lemma_cons(UnitOp::Drop, compose(a.drop_first(), b));
    } else if b.len() > 0 && b[0] is Put {
        lemma_compose_lens(a, b.drop_first());
        lemma_cons(b[0], compose(a, b.drop_first()));
    } else if a.len() == 0 || b.len() == 0 {
    } else {
        let rest = compose(a.drop_first(), b.drop_first());
        lemma_compose_lens(a.drop_first(), b.drop_first());
        match (a[0], b[0]) {
            (UnitOp::Keep, UnitOp::Keep) => lemma_cons(UnitOp::Keep, rest),
            (UnitOp::Keep, _) => lemma_cons(UnitOp::Drop, rest),
            (UnitOp::Put(c), UnitOp::Keep) => lemma_cons(UnitOp::Put(c), rest),
            (_, _) => {},
        }
    }
}

/// Composition applies `a` and then `b`.
pub proof fn lemma_compose_apply(s: Seq<char>, a: Seq<UnitOp>, b: Seq<UnitOp>)
    requires
        s.len() == base_len(a),
        target_len(a) == base_len(b),
    ensures
        apply(s, compose(a, b)) == apply(apply(s, a), b),
    decreases a.len() + b.len(),
{
    if a.len() > 0 && a[0] is Drop {
        lemma_compose_apply(s.drop_first(), a.drop_first(), b);
        lemma_cons(UnitOp::Drop, compose(a.drop_first(), b));
    } else if b.len() > 0 && b[0] is Put {
        lemma_compose_apply(s, a, b.drop_first());
        let t = apply(s, a);
        lemma_cons(b[0], compose(a, b.drop_first()));
        lemma_cons(b[0]->Put_0, apply(t, b.drop_first()));
    } else if a.len() == 0 || b.len() == 0 {
    } else {
        let a1 = a.drop_first();
        let b1 = b.drop_first();
        let rest = compose(a1, b1);
        match (a[0], b[0]) {
            (UnitOp::Keep, UnitOp::Keep) => {
                lemma_compose_apply(s.drop_first(), a1, b1);
                lemma_cons(UnitOp::Keep, rest);
                let t = apply(s.drop_first(), a1);
                lemma_cons(s[0], t);
                lemma_cons(s[0], apply(t, b1));
            },
            (UnitOp::Keep, _) => {
                lemma_compose_apply(s.drop_first(), a1, b1);
                lemma_cons(UnitOp::Drop, rest);
                let t = apply(s.drop_first(), a1);
                lemma_cons(s[0], t);
            },
            (UnitOp::Put(c), UnitOp::Keep) => {
                lemma_compose_apply(s, a1, b1);
                lemma_cons(UnitOp::Put(c), rest);
                let t = apply(s, a1);
                lemma_cons(c, t);
                lemma_cons(c, apply(t, b1));
            },
            (_, _) => {
                lemma_compose_apply(s, a1, b1);
                let t = apply(s, a1);
                lemma_cons(a[0]->Put_0, t);
            },
        }
    }
}

/// Applying a delta to a source of its base length yields a content of its
/// target length.
pub proof fn lemma_apply_len(s: Seq<char>, u: Seq<UnitOp>)
    requires
        s.len() == base_len(u),
    ensures
        apply(s, u).len() == target_len(u),
    decreases u.len(),
{
    if u.len() > 0 {
        match u[0] {
            UnitOp::Put(c) => lemma_apply_len(s, u.drop_first()),
            _ => lemma_apply_len(s.drop_first(), u.drop_first()),
        }
    }
}

/// The two transformed deltas close the diamond: `b2` after `a` and `a2`
/// after `b` give the same content, and their lengths line up.
pub proof fn lemma_transform_converges(s: Seq<char>, a: Seq<UnitOp>, b: Seq<UnitOp>)
    requires
        s.len() == base_len(a),
        s.len() == base_len(b),
    ensures
        base_len(transform(a, b).0) == target_len(b),
        base_len(transform(a, b).1) == target_len(a),
        target_len(transform(a, b).0) == target_len(transform(a, b).1),
        apply(apply(s, a), transform(a, b).1) == apply(apply(s, b), transform(a, b).0),
    decreases a.len() + b.len(),
{
    if a.len() > 0 && a[0] is Put {
        let a1 = a.drop_first();
        let (x, y) = transform(a1, b);
        lemma_transform_converges(s, a1, b);
        lemma_cons(a[0], x);
        lemma_cons(UnitOp::Keep, y);
        let c = a[0]->Put_0;
        lemma_cons(c, apply(s, a1));
        lemma_cons(c, apply(apply(s, a1), y));
        lemma_cons(c, apply(apply(s, b), x));
    } else if b.len() > 0 && b[0] is Put {
        let b1 = b.drop_first();
        let (x, y) = transform(a, b1);
        lemma_transform_converges(s, a, b1);
        lemma_cons(UnitOp::Keep, x);
        lemma_cons(b[0], y);
        let c = b[0]->Put_0;
        lemma_cons(c, apply(s, b1));
        lemma_cons(c, apply(apply(s, b1), x));
        lemma_cons(c, apply(apply(s, a), y));
    } else if a.len() == 0 || b.len() == 0 {
    } else {
        let a1 = a.drop_first();
        let b1 = b.drop_first();
        let s1 = s.drop_first();
        let (x, y) = transform(a1, b1);
        lemma_transform_converges(s1, a1, b1);
        let ta = apply(s1, a1);
        let tb = apply(s1, b1);
        lemma_cons(s[0], ta);
        lemma_cons(s[0], tb);
        match (a[0], b[0]) {
            (UnitOp::Keep, UnitOp::Keep) => {
                lemma_cons(UnitOp::Keep, x);
                lemma_cons(UnitOp::Keep, y);
                lemma_cons(s[0], apply(ta, y));
                lemma_cons(s[0], apply(tb, x));
            },
            (UnitOp::Drop, UnitOp::Keep) => {
                lemma_cons(UnitOp::Drop, x);
            },
            (UnitOp::Keep, _) => {
                lemma_cons(UnitOp::Drop, y);
            },
            (_, _) => {},
        }
    }
}

/// Composition is associative.
pub proof fn lemma_compose_assoc(a: Seq<UnitOp>, b: Seq<UnitOp>, c: Seq<UnitOp>)
    requires
        target_len(a) == base_len(b),
        target_len(b) == base_len(c),
    ensures
        compose(compose(a, b), c) == compose(a, compose(b, c)),
    decreases a.len() + b.len() + c.len(),
{
    lemma_compose_lens(a, b);
    lemma_compose_lens(b, c);
    let ab = compose(a, b);
    let bc = compose(b, c);
    if a.len() > 0 && a[0] is Drop {
        let a1 = a.drop_first();
        lemma_cons(UnitOp::Drop, compose(a1, b));
        lemma_compose_lens(a1, b);
        lemma_compose_assoc(a1, b, c);
    } else if c.len() > 0 && c[0] is Put {
        let c1 = c.drop_first();
        if b.len() > 0 && b[0] is Drop {
            let a1 = a.drop_first();
            let b1 = b.drop_first();
            lemma_cons(UnitOp::Drop, compose(b1, c));
            lemma_compose_lens(b1, c);
            lemma_compose_lens(a1, b1);
            lemma_compose_assoc(a1, b1, c);
            if a[0] is Keep {
                lemma_cons(UnitOp::Drop, compose(a1, b1));
                lemma_cons(UnitOp::Drop, compose(a1, compose(b1, c)));
            }
        } else {
            lemma_cons(c[0], compose(b, c1));
            lemma_cons(c[0], compose(ab, c1));
            lemma_compose_lens(b, c1);
            lemma_compose_assoc(a, b, c1);
            if b.len() > 0 && b[0] is Put {
                lemma_cons(b[0], compose(a, b.drop_first()));
            } else if a.len() > 0 && b.len() > 0 {
                let rest = compose(a.drop_first(), b.drop_first());
                lemma_cons(UnitOp::Keep, rest);
                if a[0] is Put {
                    lemma_cons(a[0], rest);
                }
            }
            lemma_cons(c[0], compose(a, compose(b, c1)));
        }
    } else if b.len() > 0 && b[0] is Put {
        let b1 = b.drop_first();
        lemma_cons(b[0], compose(a, b1));
        lemma_compose_lens(a, b1);
        if c.len() > 0 {
            let c1 = c.drop_first();
            lemma_compose_lens(b1, c1);
            lemma_compose_assoc(a, b1, c1);
            lemma_cons(b[0], compose(b1, c1));
            lemma_cons(b[0], compose(a, compose(b1, c1)));
            lemma_cons(b[0], compose(compose(a, b1), c1));
        }
    } else if b.len() > 0 && b[0] is Drop {
        let a1 = a.drop_first();
        let b1 = b.drop_first();
        lemma_cons(UnitOp::Drop, compose(b1, c));
        lemma_compose_lens(b1, c);
        lemma_compose_lens(a1, b1);
        lemma_compose_assoc(a1, b1, c);
        if a[0] is Keep {
            lemma_cons(UnitOp::Drop, compose(a1, b1));
            lemma_cons(UnitOp::Drop, compose(a1, compose(b1, c)));
        }
    } else if a.len() > 0 && b.len() > 0 && c.len() > 0 {
        let a1 = a.drop_first();
        let b1 = b.drop_first();
        let c1 = c.drop_first();
        lemma_compose_lens(a1, b1);
        lemma_compose_lens(b1, c1);
        lemma_compose_assoc(a1, b1, c1);
        let r1 = compose(a1, b1);
        let r2 = compose(b1, c1);
        lemma_cons(UnitOp::Keep, r1);
        lemma_cons(a[0], r1);
        lemma_cons(UnitOp::Keep, r2);
        lemma_cons(UnitOp::Drop, r2);
        lemma_cons(UnitOp::Keep, compose(a1, r2));
        lemma_cons(UnitOp::Drop, compose(a1, r2));
        lemma_cons(a[0], compose(a1, r2));
        lemma_cons(UnitOp::Keep, compose(r1, c1));
        lemma_cons(UnitOp::Drop, compose(r1, c1));
        lemma_cons(a[0], compose(r1, c1));
    }
}

/// The delta that undoes `u` on the source `s` it was applied to.
pub open spec fn invert(u: Seq<UnitOp>, s: Seq<char>) -> Seq<UnitOp>
    decreases u.len(),
{
    if u.len() == 0 {
        Seq::empty()
    } else {
        let rest = u.drop_first();
        match u[0] {
            UnitOp::Keep => seq![UnitOp::Keep] + invert(rest, s.drop_first()),
            UnitOp::Put(_) => seq![UnitOp::Drop] + invert(rest, s),
            UnitOp::Drop => seq![put_unit(s[0])] + invert(rest, s.drop_first()),
        }
    }
}

/// Applying the inverse after the delta restores the source.
pub proof fn lemma_invert_restores(s: Seq<char>, u: Seq<UnitOp>)
    requires
        s.len() == base_len(u),
    ensures
        base_len(invert(u, s)) == target_len(u),
        apply(apply(s, u), invert(u, s)) == s,
    decreases u.len(),
{
    if u.len() == 0 {
        assert(s =~= Seq::<char>::empty());
    } else {
        let rest = u.drop_first();
        match u[0] {
            UnitOp::Keep => {
                let s1 = s.drop_first();
                lemma_invert_restores(s1, rest);
                lemma_cons(UnitOp::Keep, invert(rest, s1));
                lemma_cons(s[0], apply(s1, rest));
                lemma_cons(s[0], apply(apply(s1, rest), invert(rest, s1)));
                assert(s =~= seq![s[0]] + s1);
            },
            UnitOp::Put(c) => {
                lemma_invert_restores(s, rest);
                lemma_cons(UnitOp::Drop, invert(rest, s));
                lemma_cons(c, apply(s, rest));
            },
            UnitOp::Drop => {
                let s1 = s.drop_first();
                lemma_invert_restores(s1, rest);
                lemma_cons(put_unit(s[0]), invert(rest, s1));
                assert(s =~= seq![s[0]] + s1);
            },
        }
    }
}

proof fn lemma_skip_step<A>(s: Seq<A>, i: int)
    requires
        0 <= i <= s.len(),
    ensures
        i < s.len() ==> s.skip(i).len() > 0 && s.skip(i)[0] == s[i] && s.skip(i).drop_first()
            == s.skip(i + 1),
        i == s.len() ==> s.skip(i).len() == 0,
{
    if i < s.len() {
        assert(s.skip(i).drop_first() =~= s.skip(i + 1));
    }
}

/// Number of source characters that `u` consumes.
pub fn units_base_len(u: &Vec<UnitOp>) -> (n: usize)
    ensures
        n == base_len(u@),
{
    let mut n: usize = 0;
    let mut i: usize = 0;
    assert(u@.skip(0) =~= u@);
    while i < u.len()
        invariant
            i <= u.len(),
            n <= i,
            n + base_len(u@.skip(i as int)) == base_len(u@),
        decreases u.len() - i,
    {
        proof {
            lemma_skip_step(u@, i as int);
        }
        if u[i] != UnitOp::Keep && u[i] != UnitOp::Drop {
        } else {
            n += 1;
        }
        i += 1;
    }
    proof {
        lemma_skip_step(u@, i as int);
    }
    n
}

/// Number of characters that `u` produces.
pub fn units_target_len(u: &Vec<UnitOp>) -> (n: usize)
    ensures
        n == target_len(u@),
{
    let mut n: usize = 0;
    let mut i: usize = 0;
    assert(u@.skip(0) =~= u@);
    while i < u.len()
        invariant
            i <= u.len(),
            n <= i,
            n + target_len(u@.skip(i as int)) == target_len(u@),
        decreases u.len() - i,
    {
        proof {
            lemma_skip_step(u@, i as int);
        }
        if u[i] != UnitOp::Drop {
            n += 1;
        }
        i += 1;
    }
    proof {
        lemma_skip_step(u@, i as int);
    }
    n
}

/// Whether a unit operation puts a character.
pub(crate) fn is_put(x: UnitOp) -> (r: bool)
    ensures
        r == x is Put,
{
    match x {
        UnitOp::Put(_) => true,
        _ => false,
    }
}

/// Applies `u` to `s`.
pub fn apply_units(s: &Vec<char>, u: &Vec<UnitOp>) -> (r: Vec<char>)
    ensures
        r@ == apply(s@, u@),
{
    let mut out: Vec<char> = Vec::new();
    let mut i: usize = 0;
    let mut k: usize = 0;
    assert(u@.skip(0) =~= u@);
    assert(s@.skip(0) =~= s@);
    assert(out@ + apply(s@, u@) =~= apply(s@, u@));
    while i < u.len()
        invariant
            i <= u.len(),
            k <= s.len(),
            out@ + apply(s@.skip(k as int), u@.skip(i as int)) == apply(s@, u@),
        decreases u.len() - i,
    {
        proof {
            lemma_skip_step(u@, i as int);
            lemma_skip_step(s@, k as int);
        }
        let ghost before = out@;
        let ghost rest = apply(s@.skip(k as int), u@.skip(i as int));
        match u[i] {
            UnitOp::Keep => {
                if k < s.len() {
                    out.push(s[k]);
                    k += 1;
                }
            },
            UnitOp::Put(c) => {
                out.push(c);
            },
            UnitOp::Drop => {
                if k < s.len() {
                    k += 1;
                }
            },
        }
        i += 1;
        assert(out@ + apply(s@.skip(k as int), u@.skip(i as int)) =~= before + rest);
    }
    proof {
        lemma_skip_step(u@, i as int);
    }
    assert(out@ + Seq::<char>::empty() =~= out@);
    out
}

/// Composes `a` and `b` unit by unit.
pub fn compose_units(a: &Vec<UnitOp>, b: &Vec<UnitOp>) -> (r: Vec<UnitOp>)
    ensures
        r@ == compose(a@, b@),
{
    let mut out: Vec<UnitOp> = Vec::new();
    let mut i: usize = 0;
    let mut j: usize = 0;
    assert(a@.skip(0) =~= a@);
    assert(b@.skip(0) =~= b@);
    assert(out@ + compose(a@, b@) =~= compose(a@, b@));
    while (i < a.len() && a[i] == UnitOp::Drop) || (j < b.len() && is_put(b[j])) || (i < a.len()
        && j < b.len())
        invariant
            i <= a.len(),
            j <= b.len(),
            out@ + compose(a@.skip(i as int), b@.skip(j as int)) == compose(a@, b@),
        decreases (a.len() - i) + (b.len() - j),
    {
        proof {
            lemma_skip_step(a@, i as int);
            lemma_skip_step(b@, j as int);
        }
        let ghost before = out@;
        let ghost rest = compose(a@.skip(i as int), b@.skip(j as int));
        if i < a.len() && a[i] == UnitOp::Drop {
            out.push(UnitOp::Drop);
            i += 1;
        } else if j < b.len() && is_put(b[j]) {
            out.push(b[j]);
            j += 1;
        } else {
            match (a[i], b[j]) {
                (UnitOp::Keep, UnitOp::Keep) => out.push(UnitOp::Keep),
                (UnitOp::Keep, _) => out.push(UnitOp::Drop),
                (UnitOp::Put(c), UnitOp::Keep) => out.push(UnitOp::Put(c)),
                (_, _) => {},
            }
            i += 1;
            j += 1;
        }
        assert(out@ + compose(a@.skip(i as int), b@.skip(j as int)) =~= before + rest);
    }
    proof {
        lemma_skip_step(a@, i as int);
        lemma_skip_step(b@, j as int);
    }
    assert(out@ + Seq::<UnitOp>::empty() =~= out@);
    out
}

/// Transforms `a` and `b` unit by unit.
pub fn transform_units(a: &Vec<UnitOp>, b: &Vec<UnitOp>) -> (r: (Vec<UnitOp>, Vec<UnitOp>))
    ensures
        r.0@ == transform(a@, b@).0,
        r.1@ == transform(a@, b@).1,
{
    let mut xo: Vec<UnitOp> = Vec::new();
    let mut yo: Vec<UnitOp> = Vec::new();
    let mut i: usize = 0;
    let mut j: usize = 0;
    assert(a@.skip(0) =~= a@);
    assert(b@.skip(0) =~= b@);
    assert(xo@ + transform(a@, b@).0 =~= transform(a@, b@).0);
    assert(yo@ + transform(a@, b@).1 =~= transform(a@, b@).1);
    while (i < a.len() && is_put(a[i])) || (j < b.len() && is_put(b[j])) || (i < a.len() && j
        < b.len())
        invariant
            i <= a.len(),
            j <= b.len(),
            xo@ + transform(a@.skip(i as int), b@.skip(j as int)).0 == transform(a@, b@).0,
            yo@ + transform(a@.skip(i as int), b@.skip(j as int)).1 == transform(a@, b@).1,
        decreases (a.len() - i) + (b.len() - j),
    {
        proof {
            lemma_skip_step(a@, i as int);
            lemma_skip_step(b@, j as int);
        }
        let ghost bx = xo@;
        let ghost by = yo@;
        let ghost rest = transform(a@.skip(i as int), b@.skip(j as int));
        if i < a.len() && is_put(a[i]) {
            xo.push(a[i]);
            yo.push(UnitOp::Keep);
            i += 1;
        } else if j < b.len() && is_put(b[j]) {
            xo.push(UnitOp::Keep);
            yo.push(b[j]);
            j += 1;
        } else {
            match (a[i], b[j]) {
                (UnitOp::Keep, UnitOp::Keep) => {
                    xo.push(UnitOp::Keep);
                    yo.push(UnitOp::Keep);
                },
                (UnitOp::Drop, UnitOp::Keep) => xo.push(UnitOp::Drop),
                (UnitOp::Keep, _) => yo.push(UnitOp::Drop),
                (_, _) => {},
            }
            i += 1;
            j += 1;
        }
        assert(xo@ + transform(a@.skip(i as int), b@.skip(j as int)).0 =~= bx + rest.0);
        assert(yo@ + transform(a@.skip(i as int), b@.skip(j as int)).1 =~= by + rest.1);
    }
    proof {
        lemma_skip_step(a@, i as int);
        lemma_skip_step(b@, j as int);
    }
    assert(xo@ + Seq::<UnitOp>::empty() =~= xo@);
    assert(yo@ + Seq::<UnitOp>::empty() =~= yo@);
    (xo, yo)
}

/// The inverse of `u` on the source `s`.
pub fn invert_units(u: &Vec<UnitOp>, s: &Vec<char>) -> (r: Vec<UnitOp>)
    requires
        s@.len() == base_len(u@),
    ensures
        r@ == invert(u@, s@),
{
    let mut out: Vec<UnitOp> = Vec::new();
    let mut i: usize = 0;
    let mut k: usize = 0;
    assert(u@.skip(0) =~= u@);
    assert(s@.skip(0) =~= s@);
    assert(out@ + invert(u@, s@) =~= invert(u@, s@));
    while i < u.len()
        invariant
            i <= u.len(),
            k <= s.len(),
            s@.len() - k == base_len(u@.skip(i as int)),
            out@ + invert(u@.skip(i as int), s@.skip(k as int)) == invert(u@, s@),
        decreases u.len() - i,
    {
        proof {
            lemma_skip_step(u@, i as int);
            lemma_skip_step(s@, k as int);
        }
        let ghost before = out@;
        let ghost rest = invert(u@.skip(i as int), s@.skip(k as int));
        match u[i] {
            UnitOp::Keep => {
                out.push(UnitOp::Keep);
                k += 1;
            },
            UnitOp::Put(_) => {
                out.push(UnitOp::Drop);
            },
            UnitOp::Drop => {
                out.push(UnitOp::Put(s[k]));
                k += 1;
            },
        }
        i += 1;
        assert(out@ + invert(u@.skip(i as int), s@.skip(k as int)) =~= before + rest);
    }
    proof {
        lemma_skip_step(u@, i as int);
    }
    assert(out@ + Seq::<UnitOp>::empty() =~= out@);
    out
}

} // verus!
