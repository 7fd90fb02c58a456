use vstd::prelude::*;
use vstd::string::StringExecFns;

verus! {

/// The mathematical form of an expression: a variable name, an integer
/// payload, or an ordered sequence of sub-terms.
pub enum Term {
    Var(Seq<char>),
    Value(i64),
    List(Seq<Term>),
}

/// A symbolic expression: a logic variable, a literal value or a list.
#[derive(Debug)]
pub enum Expr {
    LVar(String),
    Value(i64),
    List(Vec<Expr>),
}

impl View for Expr {
    type V = Term;

    open spec fn view(&self) -> Term
        decreases self, 1nat,
    {
        match self {
            Expr::LVar(name) => Term::Var(name@),
            Expr::Value(v) => Term::Value(*v),
            Expr::List(items) => Term::List(views(items@)),
        }
    }
}

/// The models of a sequence of expressions, element by element.
pub open spec fn views(items: Seq<Expr>) -> Seq<Term>
    decreases items, 0nat,
{
    if items.len() == 0 {
        Seq::empty()
    } else {
        views(items.subrange(0, items.len() - 1)).push(items[items.len() - 1].view())
    }
}

/// The single decimal digit `d` (`d < 10`).
pub open spec fn digit(d: nat) -> char {
    if d == 0 { '0' }
    else if d == 1 { '1' }
    else if d == 2 { '2' }
    else if d == 3 { '3' }
    else if d == 4 { '4' }
    else if d == 5 { '5' }
    else if d == 6 { '6' }
    else if d == 7 { '7' }
    else if d == 8 { '8' }
    else { '9' }
}

/// Decimal digits of a natural number, most significant first, no leading zeros.
pub open spec fn digits(n: nat) -> Seq<char>
    decreases n,
{
    if n < 10 {
        seq![digit(n)]
    } else {
        digits(n / 10) + seq![digit(n % 10)]
    }
}

/// Decimal rendering of an integer, with a leading `-` when negative.
pub open spec fn decimal(v: int) -> Seq<char> {
    if v < 0 {
        seq!['-'] + digits((-v) as nat)
    } else {
        digits(v as nat)
    }
}

/// Textual form of a term: a variable is its name, a value its decimal
/// form, a list its elements joined by `", "` inside brackets.
pub open spec fn render(t: Term) -> Seq<char>
    decreases t, 1nat,
{
    match t {
        Term::Var(name) => name,
        Term::Value(v) => decimal(v as int),
        Term::List(items) => seq!['['] + render_items(items) + seq![']'],
    }
}

/// The renderings of `items` joined by `", "`.
pub open spec fn render_items(items: Seq<Term>) -> Seq<char>
    decreases items, 0nat,
{
    if items.len() == 0 {
        Seq::empty()
    } else if items.len() == 1 {
        render(items[0])
    } else {
        render_items(items.subrange(0, items.len() - 1)) + seq![',', ' '] + render(
            items[items.len() - 1],
        )
    }
}

/// `views` keeps the length and maps each element to its model.
pub proof fn lemma_views(items: Seq<Expr>)
    ensures
        views(items).len() == items.len(),
        forall|i: int| 0 <= i < items.len() ==> #[trigger] views(items)[i] == items[i]@,
    decreases items.len(),
{
    if items.len() == 0 {
        assert(views(items) =~= Seq::<Term>::empty());
    } else {
        let init = items.subrange(0, items.len() - 1);
        lemma_views(init);
        assert(views(items) == views(init).push(items[items.len() - 1]@));
        assert forall|i: int| 0 <= i < items.len() implies #[trigger] views(items)[i] == items[i]@ by {
            if i < items.len() - 1 {
                assert(init[i] == items[i]);
            }
        }
    }
}

impl Expr {
    /// A copy of this expression, built node by node.
    pub fn copy(&self) -> (r: Expr)
        ensures
            r@ == self@,
        decreases self,
    {
        match self {
            Expr::LVar(name) => Expr::LVar(name.clone()),
            Expr::Value(v) => Expr::Value(*v),
            Expr::List(items) => {
                proof {
                    lemma_views(items@);
                }
                let mut out: Vec<Expr> = Vec::new();
                let mut i: usize = 0;
                while i < items.len()
                    invariant
                        *self == Expr::List(*items),
                        i <= items.len(),
                        out.len() == i,
                        forall|j: int| 0 <= j < i ==> (#[trigger] out[j])@ == items[j]@,
                    decreases items.len() - i,
                {
                    assert(decreases_to!(*self => self->List_0));
                    assert(decreases_to!(*items => items[i as int]));
                    let e = items[i].copy();
                    out.push(e);
                    i = i + 1;
                }
                let r = Expr::List(out);
                proof {
                    lemma_views(out@);
                }
                assert(views(out@) =~= views(items@));
                r
            },
        }
    }

    /// A logic variable named `name`.
    pub fn lvar(name: &str) -> (r: Expr)
        ensures
            r@ == Term::Var(name@),
    {
        Expr::LVar(String::from_str(name))
    }

    /// A list of the given expressions, in order.
    pub fn list(list: Vec<Expr>) -> (r: Expr)
        ensures
            r@ == Term::List(views(list@)),
    {
        Expr::List(list)
    }

    /// Structural equality: same variant, same name, payload, or elements.
    pub fn equals(&self, other: &Expr) -> (r: bool)
        ensures
            r == (self@ == other@),
        decreases self, 1nat,
    {
        match self {
            Expr::LVar(x) => match other {
                Expr::LVar(y) => *x == *y,
                _ => false,
            },
            Expr::Value(x) => match other {
                Expr::Value(y) => *x == *y,
                _ => false,
            },
            Expr::List(xs) => match other {
                Expr::List(ys) => Self::equal_lists(self, other, xs, ys),
                _ => false,
            },
        }
    }

    fn equal_lists(whole: &Expr, other: &Expr, xs: &Vec<Expr>, ys: &Vec<Expr>) -> (r: bool)
        requires
            *whole == Expr::List(*xs),
            *other == Expr::List(*ys),
        ensures
            r == (whole@ == other@),
        decreases whole, 0nat,
    {
        proof {
            lemma_views(xs@);
            lemma_views(ys@);
        }
        if xs.len() != ys.len() {
            return false;
        }
        let mut i: usize = 0;
        while i < xs.len()
            invariant
                *whole == Expr::List(*xs),
                *other == Expr::List(*ys),
                xs.len() == ys.len(),
                views(xs@).len() == xs.len(),
                views(ys@).len() == ys.len(),
                forall|j: int| 0 <= j < xs.len() ==> #[trigger] views(xs@)[j] == xs[j]@,
                forall|j: int| 0 <= j < ys.len() ==> #[trigger] views(ys@)[j] == ys[j]@,
                i <= xs.len(),
                forall|j: int| 0 <= j < i ==> (#[trigger] xs[j])@ == ys[j]@,
            decreases xs.len() - i,
        {
            assert(decreases_to!(*whole => whole->List_0));
            assert(decreases_to!(*xs => xs[i as int]));
            if !xs[i].equals(&ys[i]) {
                assert(views(xs@)[i as int] != views(ys@)[i as int]);
                return false;
            }
            i = i + 1;
        }
        assert(views(xs@) =~= views(ys@));
        true
    }

    /// Appends the textual form of this expression to `out`.
    pub fn write_to(&self, out: &mut String)
        ensures
            final(out)@ == old(out)@ + render(self@),
        decreases self, 1nat,
    {
        match self {
            Expr::LVar(name) => {
                out.append(name.as_str());
            },
            Expr::Value(v) => {
                write_decimal(out, *v);
            },
            Expr::List(items) => {
                assert(decreases_to!(*self => self->List_0));
                write_list(items, out);
            },
        }
    }

    /// The textual form of this expression.
    pub fn to_string(&self) -> (r: String)
        ensures
            r@ == render(self@),
    {
        let mut out = String::new();
        self.write_to(&mut out);
        assert(out@ =~= render(self@));
        out
    }
}

/// Appends the textual form of the list of `items` to `out`.
pub fn write_list(items: &Vec<Expr>, out: &mut String)
    ensures
        final(out)@ == old(out)@ + render(Term::List(views(items@))),
    decreases items, 0nat,
{
    let ghost start = out@;
    let ghost terms = views(items@);
    proof {
        lemma_views(items@);
        reveal_strlit("[");
        reveal_strlit("]");
    }
    out.append("[");
    let mut i: usize = 0;
    while i < items.len()
        invariant
            terms == views(items@),
            terms.len() == items.len(),
            forall|j: int| 0 <= j < items.len() ==> #[trigger] terms[j] == items[j]@,
            i <= items.len(),
            out@ == start + seq!['['] + render_items(terms.subrange(0, i as int)),
        decreases items.len() - i,
    {
        assert(decreases_to!(*items => items[i as int]));
        proof {
            lemma_render_items_step(terms, i as int);
            reveal_strlit(", ");
        }
        if i > 0 {
            out.append(", ");
        }
        items[i].write_to(out);
        assert(out@ =~= start + seq!['['] + render_items(terms.subrange(0, i + 1)));
        i = i + 1;
    }
    out.append("]");
    assert(terms.subrange(0, items.len() as int) =~= terms);
    assert(out@ =~= start + render(Term::List(terms)));
}

/// Extending a joined prefix by one element.
pub proof fn lemma_render_items_step(items: Seq<Term>, i: int)
    requires
        0 <= i < items.len(),
    ensures
        i == 0 ==> render_items(items.subrange(0, i + 1)) == render(items[i]),
        i > 0 ==> render_items(items.subrange(0, i + 1)) == render_items(items.subrange(0, i))
            + seq![',', ' '] + render(items[i]),
{
    let next = items.subrange(0, i + 1);
    assert(next.subrange(0, i) =~= items.subrange(0, i));
    assert(next[i] == items[i]);
}

/// The character for the digit `d`, as a one-character string.
fn digit_str(d: u64) -> (r: &'static str)
    requires
        d < 10,
    ensures
        r@ == seq![digit(d as nat)],
{
    proof {
        reveal_strlit("0");
        reveal_strlit("1");
        reveal_strlit("2");
        reveal_strlit("3");
        reveal_strlit("4");
        reveal_strlit("5");
        reveal_strlit("6");
        reveal_strlit("7");
        reveal_strlit("8");
        reveal_strlit("9");
    }
    if d == 0 {
        assert("0"@ =~= seq!['0']);
        "0"
    } else if d == 1 {
        assert("1"@ =~= seq!['1']);
        "1"
    } else if d == 2 {
        assert("2"@ =~= seq!['2']);
        "2"
    } else if d == 3 {
        assert("3"@ =~= seq!['3']);
        "3"
    } else if d == 4 {
        assert("4"@ =~= seq!['4']);
        "4"
    } else if d == 5 {
        assert("5"@ =~= seq!['5']);
        "5"
    } else if d == 6 {
        assert("6"@ =~= seq!['6']);
        "6"
    } else if d == 7 {
        assert("7"@ =~= seq!['7']);
        "7"
    } else if d == 8 {
        assert("8"@ =~= seq!['8']);
        "8"
    } else {
        assert("9"@ =~= seq!['9']);
        "9"
    }
}

/// Appends the decimal digits of `n` to `out`.
fn write_digits(out: &mut String, n: u64)
    ensures
        final(out)@ == old(out)@ + digits(n as nat),
    decreases n,
{
    if n >= 10 {
        write_digits(out, n / 10);
    }
    out.append(digit_str(n % 10));
    assert(final(out)@ =~= old(out)@ + digits(n as nat));
}

/// Appends the decimal form of `v` to `out`.
pub fn write_decimal(out: &mut String, v: i64)
    ensures
        final(out)@ == old(out)@ + decimal(v as int),
{
    if v < 0 {
        proof {
            reveal_strlit("-");
        }
        out.append("-");
        let magnitude: u64 = (0i128 - v as i128) as u64;
        write_digits(out, magnitude);
        assert(final(out)@ =~= old(out)@ + decimal(v as int));
    } else {
        write_digits(out, v as u64);
    }
}

impl PartialEq for Expr {
    fn eq(&self, other: &Expr) -> (r: bool)
        ensures
            r == (self@ == other@),
    {
        self.equals(other)
    }
}

impl vstd::std_specs::cmp::PartialEqSpecImpl for Expr {
    open spec fn obeys_eq_spec() -> bool {
        true
    }

    open spec fn eq_spec(&self, other: &Expr) -> bool {
        self@ == other@
    }
}

impl Clone for Expr {
    fn clone(&self) -> (r: Expr)
        ensures
            r@ == self@,
    {
        self.copy()
    }
}

} // verus!
