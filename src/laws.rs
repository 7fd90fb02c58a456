use vstd::prelude::*;

use crate::bindings::{bind, Subst};
use crate::expr::Term;
use crate::unify::{length_message, unify_pairs, unify_seqs, unify_terms, Outcome};

verus! {

/// Unifying a term with itself succeeds and leaves the substitution as it was.
pub proof fn law_reflexive(e: Term, s: Subst)
    ensures
        unify_terms(e, e, Outcome::Ok(s)) == Outcome::Ok(s),
{
}

/// A variable against any other term binds the variable's name to that term.
pub proof fn law_bind_variable(name: Seq<char>, t: Term, s: Subst)
    requires
        t != Term::Var(name),
    ensures
        unify_terms(Term::Var(name), t, Outcome::Ok(s)) == Outcome::Ok(bind(s, name, t)),
{
}

/// A variable binds to a term that is not a variable whichever side it
/// stands on.
pub proof fn law_binding_symmetric(name: Seq<char>, t: Term, s: Subst)
    requires
        !(t is Var),
    ensures
        unify_terms(t, Term::Var(name), Outcome::Ok(s)) == unify_terms(
            Term::Var(name),
            t,
            Outcome::Ok(s),
        ),
        unify_terms(t, Term::Var(name), Outcome::Ok(s)) == Outcome::Ok(bind(s, name, t)),
{
}

/// Lists of different lengths fail with the length message.
pub proof fn law_arity_mismatch(xs: Seq<Term>, ys: Seq<Term>, s: Subst)
    requires
        xs.len() != ys.len(),
    ensures
        unify_terms(Term::List(xs), Term::List(ys), Outcome::Ok(s)) == Outcome::Err(
            length_message(xs, ys),
        ),
{
}

/// A failure passes through any further unification unchanged.
pub proof fn law_failure_propagates(a: Term, b: Term, msg: Seq<char>)
    ensures
        unify_terms(a, b, Outcome::Err(msg)) == Outcome::Err(msg),
{
}

/// In a list, the first failing pair decides the result: the pairs after it
/// are not consulted.
pub proof fn law_first_failure_wins(xs: Seq<Term>, ys: Seq<Term>, s: Subst, k: int)
    requires
        xs.len() == ys.len(),
        0 <= k < xs.len(),
        unify_pairs(xs.subrange(0, k), ys.subrange(0, k), Outcome::Ok(s)) is Ok,
        unify_terms(
            xs[k],
            ys[k],
            unify_pairs(xs.subrange(0, k), ys.subrange(0, k), Outcome::Ok(s)),
        ) is Err,
    ensures
        unify_seqs(xs, ys, s) == unify_terms(
            xs[k],
            ys[k],
            unify_pairs(xs.subrange(0, k), ys.subrange(0, k), Outcome::Ok(s)),
        ),
{
    let xn = xs.subrange(0, k + 1);
    let yn = ys.subrange(0, k + 1);
    assert(xn.subrange(0, k) =~= xs.subrange(0, k));
    assert(yn.subrange(0, k) =~= ys.subrange(0, k));
    crate::unify::lemma_pairs_failure(xs, ys, Outcome::Ok(s), k + 1);
}

/// Unifying a term with itself twice in a row, through the same result,
/// changes nothing.
pub proof fn law_idempotent(e: Term, prior: Outcome)
    ensures
        unify_terms(e, e, prior) == prior,
        unify_terms(e, e, unify_terms(e, e, prior)) == prior,
{
}

} // verus!
