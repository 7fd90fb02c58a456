use vstd::prelude::*;
use vstd::string::StringExecFns;

use crate::bindings::{bind, extend_bindings, Bindings, Subst};
use crate::expr::{lemma_views, render, views, write_list, Expr, Term};

verus! {

/// The model of a unification result: a substitution or a failure message.
pub type Outcome = Result<Subst, Seq<char>>;

/// The result of a unification: a substitution, or a message saying why
/// the expressions could not be unified.
pub type Unification = Result<Bindings, String>;

/// The model of an executable unification result.
pub open spec fn outcome(u: Unification) -> Outcome {
    match u {
        Ok(b) => Ok(b@),
        Err(m) => Err(m@),
    }
}

/// A result whose substitution, if any, binds each name once.
pub open spec fn well_formed(u: Unification) -> bool {
    u is Ok ==> u->Ok_0.wf()
}

/// `Can't unify A with B.`
pub open spec fn mismatch_message(a: Term, b: Term) -> Seq<char> {
    "Can't unify "@ + render(a) + " with "@ + render(b) + "."@
}

/// `Can't unify [..] with [..] (different length)`
pub open spec fn length_message(xs: Seq<Term>, ys: Seq<Term>) -> Seq<char> {
    "Can't unify "@ + render(Term::List(xs)) + " with "@ + render(Term::List(ys))
        + " (different length)"@
}

/// Unification of `a` with `b`, continuing from `prior`.
pub open spec fn unify_terms(a: Term, b: Term, prior: Outcome) -> Outcome
    decreases a, 2nat,
{
    match prior {
        Err(m) => Err(m),
        Ok(s) => {
            if a == b {
                Ok(s)
            } else if a is Var {
                Ok(bind(s, a->Var_0, b))
            } else if b is Var {
                Ok(bind(s, b->Var_0, a))
            } else if a is List && b is List {
                unify_seqs(a->List_0, b->List_0, s)
            } else {
                Err(mismatch_message(a, b))
            }
        },
    }
}

/// Unification of two lists of terms, starting from the substitution `s`.
pub open spec fn unify_seqs(xs: Seq<Term>, ys: Seq<Term>, s: Subst) -> Outcome
    decreases xs, 1nat,
{
    if xs.len() != ys.len() {
        Err(length_message(xs, ys))
    } else {
        unify_pairs(xs, ys, Ok(s))
    }
}

/// The pairs `(xs[i], ys[i])` unified in order of `i`, each step continuing
/// from the result of the one before.
pub open spec fn unify_pairs(xs: Seq<Term>, ys: Seq<Term>, prior: Outcome) -> Outcome
    decreases xs, 0nat,
{
    if xs.len() == 0 {
        prior
    } else {
        let n = xs.len() - 1;
        unify_terms(xs[n], ys[n], unify_pairs(xs.subrange(0, n), ys.subrange(0, n), prior))
    }
}

/// A failure on a prefix of the pairs is the result of all of them.
pub proof fn lemma_pairs_failure(xs: Seq<Term>, ys: Seq<Term>, prior: Outcome, k: int)
    requires
        0 <= k <= xs.len(),
        xs.len() == ys.len(),
        unify_pairs(xs.subrange(0, k), ys.subrange(0, k), prior) is Err,
    ensures
        unify_pairs(xs, ys, prior) == unify_pairs(xs.subrange(0, k), ys.subrange(0, k), prior),
    decreases xs.len() - k,
{
    if k < xs.len() {
        let n = k + 1;
        let xn = xs.subrange(0, n);
        let yn = ys.subrange(0, n);
        assert(xn.subrange(0, k) =~= xs.subrange(0, k));
        assert(yn.subrange(0, k) =~= ys.subrange(0, k));
        assert(unify_pairs(xn, yn, prior) == unify_terms(
            xn[k],
            yn[k],
            unify_pairs(xs.subrange(0, k), ys.subrange(0, k), prior),
        ));
        lemma_pairs_failure(xs, ys, prior, n);
    } else {
        assert(xs.subrange(0, k) =~= xs);
        assert(ys.subrange(0, k) =~= ys);
    }
}

/// The starting result of a fresh unification: the empty substitution.
pub fn empty() -> (r: Unification)
    ensures
        outcome(r) == Outcome::Ok(Seq::empty()),
        well_formed(r),
{
    Ok(Bindings::new())
}

/// The message for two expressions of kinds that cannot be reconciled.
fn mismatch(a: &Expr, b: &Expr) -> (r: String)
    ensures
        r@ == mismatch_message(a@, b@),
{
    proof {
        reveal_strlit("Can't unify ");
        reveal_strlit(" with ");
        reveal_strlit(".");
    }
    let mut out = String::from_str("Can't unify ");
    a.write_to(&mut out);
    out.append(" with ");
    b.write_to(&mut out);
    out.append(".");
    out
}

/// The message for two lists of different lengths.
fn length_mismatch(xs: &Vec<Expr>, ys: &Vec<Expr>) -> (r: String)
    ensures
        r@ == length_message(views(xs@), views(ys@)),
{
    proof {
        reveal_strlit("Can't unify ");
        reveal_strlit(" with ");
        reveal_strlit(" (different length)");
    }
    let mut out = String::from_str("Can't unify ");
    write_list(xs, &mut out);
    out.append(" with ");
    write_list(ys, &mut out);
    out.append(" (different length)");
    out
}

/// Unifies `a` with `b` on top of `unification`. A failure passes through
/// unchanged; otherwise equal expressions leave the substitution as it is, a
/// variable on the left (else on the right) is bound to the other side, two
/// lists are unified element by element, and anything else fails.
pub fn unify(a: &Expr, b: &Expr, unification: Unification) -> (r: Unification)
    requires
        well_formed(unification),
    ensures
        outcome(r) == unify_terms(a@, b@, outcome(unification)),
        well_formed(r),
    decreases a, 2nat,
{
    match unification {
        Err(msg) => Err(msg),
        Ok(bindings) => {
            if a.equals(b) {
                return Ok(bindings);
            }
            match a {
                Expr::LVar(name) => {
                    return Ok(extend_bindings(bindings, name.clone(), b.copy()));
                },
                _ => {},
            }
            match b {
                Expr::LVar(name) => {
                    return Ok(extend_bindings(bindings, name.clone(), a.copy()));
                },
                _ => {},
            }
            match a {
                Expr::List(list_a) => match b {
                    Expr::List(list_b) => {
                        assert(decreases_to!(*a => a->List_0));
                        unify_lists(list_a, list_b, bindings)
                    },
                    _ => Err(mismatch(a, b)),
                },
                _ => Err(mismatch(a, b)),
            }
        },
    }
}

/// Unifies two lists element by element, left to right, threading the
/// substitution; lists of different lengths fail without looking at the
/// elements, and the first failing pair ends the whole attempt.
pub fn unify_lists(list_a: &Vec<Expr>, list_b: &Vec<Expr>, bindings: Bindings) -> (r: Unification)
    requires
        bindings.wf(),
    ensures
        outcome(r) == unify_seqs(views(list_a@), views(list_b@), bindings@),
        well_formed(r),
    decreases list_a, 1nat,
{
    let ghost xs = views(list_a@);
    let ghost ys = views(list_b@);
    proof {
        lemma_views(list_a@);
        lemma_views(list_b@);
    }
    if list_a.len() != list_b.len() {
        return Err(length_mismatch(list_a, list_b));
    }
    let ghost start = bindings@;
    let mut current = bindings;
    let mut i: usize = 0;
    while i < list_a.len()
        invariant
            list_a.len() == list_b.len(),
            xs == views(list_a@),
            ys == views(list_b@),
            xs.len() == list_a.len(),
            ys.len() == list_b.len(),
            forall|j: int| 0 <= j < list_a.len() ==> #[trigger] xs[j] == list_a[j]@,
            forall|j: int| 0 <= j < list_b.len() ==> #[trigger] ys[j] == list_b[j]@,
            i <= list_a.len(),
            current.wf(),
            start == bindings@,
            Outcome::Ok(current@) == unify_pairs(
                xs.subrange(0, i as int),
                ys.subrange(0, i as int),
                Outcome::Ok(start),
            ),
        decreases list_a.len() - i,
    {
        assert(decreases_to!(*list_a => list_a[i as int]));
        let ghost before = current@;
        proof {
            let xn = xs.subrange(0, i + 1);
            let yn = ys.subrange(0, i + 1);
            assert(xn.subrange(0, i as int) =~= xs.subrange(0, i as int));
            assert(yn.subrange(0, i as int) =~= ys.subrange(0, i as int));
            assert(unify_pairs(xn, yn, Outcome::Ok(start)) == unify_terms(
                xs[i as int],
                ys[i as int],
                Outcome::Ok(before),
            ));
        }
        match unify(&list_a[i], &list_b[i], Ok(current)) {
            Ok(next) => {
                current = next;
            },
            Err(msg) => {
                proof {
                    lemma_pairs_failure(xs, ys, Outcome::Ok(start), i + 1);
                }
                return Err(msg);
            },
        }
        i = i + 1;
    }
    proof {
        assert(xs.subrange(0, xs.len() as int) =~= xs);
        assert(ys.subrange(0, ys.len() as int) =~= ys);
    }
    Ok(current)
}

} // verus!
