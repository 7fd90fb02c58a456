use vstd::prelude::*;
use vstd::string::StringExecFns;

use crate::expr::{render, Expr, Term};

verus! {

/// The model of a substitution: name / term pairs in the order in which the
/// names were first bound.
pub type Subst = Seq<(Seq<char>, Term)>;

/// No name appears twice.
pub open spec fn distinct_names(s: Subst) -> bool {
    forall|i: int, j: int| 0 <= i < j < s.len() ==> s[i].0 != s[j].0
}

/// `name` has a pair in `s`.
pub open spec fn has_name(s: Subst, name: Seq<char>) -> bool {
    exists|j: int| 0 <= j < s.len() && s[j].0 == name
}

/// The position of the pair for `name` (meaningful when `has_name(s, name)`).
pub open spec fn position(s: Subst, name: Seq<char>) -> int {
    choose|j: int| 0 <= j < s.len() && s[j].0 == name
}

/// `s` with `name` bound to `t`: an existing pair for `name` is replaced in
/// place, otherwise the pair is added at the end.
pub open spec fn bind(s: Subst, name: Seq<char>, t: Term) -> Subst {
    if has_name(s, name) {
        s.update(position(s, name), (name, t))
    } else {
        s.push((name, t))
    }
}

/// The substitution as a finite map from names to terms.
pub open spec fn as_map(s: Subst) -> Map<Seq<char>, Term> {
    Map::new(|name: Seq<char>| has_name(s, name), |name: Seq<char>| s[position(s, name)].1)
}

/// Textual form of one pair: `name: term`.
pub open spec fn render_pair(p: (Seq<char>, Term)) -> Seq<char> {
    p.0 + seq![':', ' '] + render(p.1)
}

/// The renderings of the pairs joined by `", "`.
pub open spec fn render_pairs(s: Subst) -> Seq<char>
    decreases s.len(),
{
    if s.len() == 0 {
        Seq::empty()
    } else if s.len() == 1 {
        render_pair(s[0])
    } else {
        render_pairs(s.subrange(0, s.len() - 1)) + seq![',', ' '] + render_pair(s[s.len() - 1])
    }
}

/// Textual form of a substitution: `{ a: 1, b: 2 }`.
pub open spec fn render_subst(s: Subst) -> Seq<char> {
    seq!['{', ' '] + render_pairs(s) + seq![' ', '}']
}

/// A substitution: each variable name bound at most once to an expression.
pub struct Bindings {
    pub entries: Vec<(String, Expr)>,
}

impl View for Bindings {
    type V = Subst;

    open spec fn view(&self) -> Subst {
        Seq::new(self.entries.len() as nat, |i: int| (self.entries[i].0@, self.entries[i].1@))
    }
}

impl Bindings {
    /// Names are distinct.
    pub open spec fn wf(&self) -> bool {
        distinct_names(self@)
    }

    /// The substitution that binds nothing.
    pub fn new() -> (r: Bindings)
        ensures
            r@ == Seq::<(Seq<char>, Term)>::empty(),
            r.wf(),
    {
        let r = Bindings { entries: Vec::new() };
        assert(r@ =~= Seq::<(Seq<char>, Term)>::empty());
        r
    }

    /// Number of bound names.
    pub fn len(&self) -> (r: usize)
        ensures
            r == self@.len(),
    {
        self.entries.len()
    }

    /// The expression bound to `name`, if any.
    pub fn get(&self, name: &str) -> (r: Option<&Expr>)
        requires
            self.wf(),
        ensures
            r is None <==> !has_name(self@, name@),
            r is Some ==> r->0@ == as_map(self@)[name@],
    {
        let key = String::from_str(name);
        let mut i: usize = 0;
        while i < self.entries.len()
            invariant
                self.wf(),
                key@ == name@,
                i <= self.entries.len(),
                forall|j: int| 0 <= j < i ==> self@[j].0 != name@,
            decreases self.entries.len() - i,
        {
            if self.entries[i].0 == key {
                assert(self@[i as int].0 == name@);
                assert(position(self@, name@) == i);
                return Some(&self.entries[i].1);
            }
            i = i + 1;
        }
        None
    }
}

/// `bindings` with `name` bound to `expr`; an earlier binding of `name` is
/// overwritten.
pub fn extend_bindings(bindings: Bindings, name: String, expr: Expr) -> (r: Bindings)
    requires
        bindings.wf(),
    ensures
        r.wf(),
        r@ == bind(bindings@, name@, expr@),
{
    let ghost s = bindings@;
    let mut entries = bindings.entries;
    let mut i: usize = 0;
    while i < entries.len()
        invariant
            s == (Bindings { entries: entries })@,
            s == bindings@,
            distinct_names(s),
            i <= entries.len(),
            forall|j: int| 0 <= j < i ==> s[j].0 != name@,
        decreases entries.len() - i,
    {
        if entries[i].0 == name {
            let ghost t = (name@, expr@);
            assert(s[i as int].0 == name@);
            assert(has_name(s, name@));
            assert(position(s, name@) == i);
            entries.remove(i);
            entries.insert(i, (name, expr));
            let r = Bindings { entries };
            assert(r@ =~= s.update(i as int, t));
            return r;
        }
        i = i + 1;
    }
    let ghost t = (name@, expr@);
    entries.push((name, expr));
    let r = Bindings { entries };
    assert(r@ =~= s.push(t));
    r
}

/// Textual form of the substitution, pairs in order.
pub fn bindings_to_string(bindings: &Bindings) -> (r: String)
    ensures
        r@ == render_subst(bindings@),
{
    let ghost s = bindings@;
    let mut out = String::new();
    proof {
        reveal_strlit("{ ");
    }
    out.append("{ ");
    let mut i: usize = 0;
    while i < bindings.entries.len()
        invariant
            s == bindings@,
            i <= bindings.entries.len(),
            out@ == seq!['{', ' '] + render_pairs(s.subrange(0, i as int)),
        decreases bindings.entries.len() - i,
    {
        proof {
            reveal_strlit(", ");
            reveal_strlit(": ");
            let next = s.subrange(0, i + 1);
            assert(next.subrange(0, i as int) =~= s.subrange(0, i as int));
            assert(next[i as int] == s[i as int]);
        }
        if i > 0 {
            out.append(", ");
        }
        out.append(bindings.entries[i].0.as_str());
        out.append(": ");
        bindings.entries[i].1.write_to(&mut out);
        assert(out@ =~= seq!['{', ' '] + render_pairs(s.subrange(0, i + 1)));
        i = i + 1;
    }
    proof {
        reveal_strlit(" }");
    }
    out.append(" }");
    assert(s.subrange(0, s.len() as int) =~= s);
    assert(out@ =~= render_subst(s));
    out
}

} // verus!
