use unification::{bindings_to_string, empty, extend_bindings, unify, unify_lists, Bindings, Expr};

fn val(v: i64) -> Expr {
    Expr::Value(v)
}

fn bound(b: &Bindings, name: &str) -> Expr {
    b.get(name).expect("name should be bound").clone()
}

#[test]
fn reflexive_variable() {
    let a = Expr::lvar("a");
    let b = unify(&a, &a, empty()).unwrap();
    assert_eq!(b.len(), 0);
}

#[test]
fn reflexive_value_and_list() {
    let v = val(42);
    assert_eq!(unify(&v, &v, empty()).unwrap().len(), 0);
    let l = Expr::list(vec![Expr::lvar("a"), val(1), Expr::list(vec![Expr::lvar("b")])]);
    assert_eq!(unify(&l, &l, empty()).unwrap().len(), 0);
    let nothing = Expr::list(vec![]);
    assert_eq!(unify(&nothing, &nothing, empty()).unwrap().len(), 0);
}

#[test]
fn variable_binding() {
    let b = unify(&Expr::lvar("a"), &val(42), empty()).unwrap();
    assert_eq!(b.len(), 1);
    assert_eq!(bound(&b, "a"), val(42));
    assert_eq!(bindings_to_string(&b), "{ a: 42 }");
}

#[test]
fn variable_binding_on_the_right() {
    let b = unify(&val(42), &Expr::lvar("a"), empty()).unwrap();
    assert_eq!(b.len(), 1);
    assert_eq!(bound(&b, "a"), val(42));
}

#[test]
fn two_variables_bind_the_left_one() {
    let b = unify(&Expr::lvar("a"), &Expr::lvar("b"), empty()).unwrap();
    assert_eq!(b.len(), 1);
    assert_eq!(bound(&b, "a"), Expr::lvar("b"));
    assert!(b.get("b").is_none());
    assert_eq!(bindings_to_string(&b), "{ a: b }");
}

#[test]
fn list_arity_mismatch() {
    let r = unify(
        &Expr::list(vec![val(1)]),
        &Expr::list(vec![val(1), val(2)]),
        empty(),
    );
    assert_eq!(r.err().unwrap(), "Can't unify [1] with [1, 2] (different length)");
}

#[test]
fn arity_mismatch_with_variables_inside() {
    let ab = Expr::list(vec![Expr::lvar("a"), Expr::lvar("b")]);
    let more = Expr::list(vec![val(42), val(42), val(100)]);
    let r = unify(&ab, &more, empty());
    assert_eq!(r.err().unwrap(), "Can't unify [a, b] with [42, 42, 100] (different length)");
}

#[test]
fn left_to_right_threading() {
    let vars = Expr::list(vec![Expr::lvar("a"), Expr::lvar("b")]);
    let nums = Expr::list(vec![val(1), val(2)]);
    let b = unify(&vars, &nums, empty()).unwrap();
    assert_eq!(b.len(), 2);
    assert_eq!(bound(&b, "a"), val(1));
    assert_eq!(bound(&b, "b"), val(2));
    assert_eq!(bindings_to_string(&b), "{ a: 1, b: 2 }");
    let r = unify(&nums, &vars, empty()).unwrap();
    assert_eq!(r.len(), 2);
    assert_eq!(bound(&r, "a"), val(1));
    assert_eq!(bound(&r, "b"), val(2));
}

#[test]
fn rebinding_overwrites() {
    let vars = Expr::list(vec![Expr::lvar("a"), Expr::lvar("a")]);
    let nums = Expr::list(vec![val(1), val(2)]);
    let b = unify(&vars, &nums, empty()).unwrap();
    assert_eq!(b.len(), 1);
    assert_eq!(bound(&b, "a"), val(2));
    assert_eq!(bindings_to_string(&b), "{ a: 2 }");
}

#[test]
fn first_failure_is_reported() {
    let left = Expr::list(vec![val(1), val(3)]);
    let right = Expr::list(vec![val(2), Expr::list(vec![])]);
    let r = unify(&left, &right, empty());
    assert_eq!(r.err().unwrap(), "Can't unify 1 with 2.");
}

#[test]
fn prior_failure_passes_through() {
    let r = unify(&Expr::lvar("a"), &val(42), Err("earlier".to_string()));
    assert_eq!(r.err().unwrap(), "earlier");
}

#[test]
fn idempotent_reunification() {
    let e = Expr::list(vec![Expr::lvar("x"), val(5)]);
    let prior = unify(&Expr::lvar("y"), &val(7), empty());
    let once = unify(&e, &e, prior);
    let twice = unify(&e, &e, once);
    let b = twice.unwrap();
    assert_eq!(b.len(), 1);
    assert_eq!(bound(&b, "y"), val(7));
}

#[test]
fn value_mismatch() {
    let r = unify(&val(100), &val(42), empty());
    assert_eq!(r.err().unwrap(), "Can't unify 100 with 42.");
}

#[test]
fn value_against_list() {
    let r = unify(&val(-3), &Expr::list(vec![val(1)]), empty());
    assert_eq!(r.err().unwrap(), "Can't unify -3 with [1].");
}

#[test]
fn nested_lists() {
    let a = Expr::lvar("a");
    let b = Expr::lvar("b");
    let mixed1 = Expr::list(vec![val(42), a.clone(), val(100)]);
    let mixed2 = Expr::list(vec![b.clone(), Expr::list(vec![val(666), val(666)]), val(100)]);
    let r = unify(&mixed1, &mixed2, empty()).unwrap();
    assert_eq!(r.len(), 2);
    assert_eq!(bound(&r, "b"), val(42));
    assert_eq!(bound(&r, "a"), Expr::list(vec![val(666), val(666)]));
    assert_eq!(bindings_to_string(&r), "{ b: 42, a: [666, 666] }");
}

#[test]
fn unify_lists_directly() {
    let xs = vec![Expr::lvar("p"), val(9)];
    let ys = vec![val(8), Expr::lvar("q")];
    let r = unify_lists(&xs, &ys, Bindings::new()).unwrap();
    assert_eq!(bound(&r, "p"), val(8));
    assert_eq!(bound(&r, "q"), val(9));
    let short = vec![val(8)];
    let e = unify_lists(&xs, &short, Bindings::new());
    assert_eq!(e.err().unwrap(), "Can't unify [p, 9] with [8] (different length)");
}

#[test]
fn extend_adds_and_replaces() {
    let b = extend_bindings(Bindings::new(), "x".to_string(), val(1));
    let b = extend_bindings(b, "y".to_string(), val(2));
    let b = extend_bindings(b, "x".to_string(), val(3));
    assert_eq!(b.len(), 2);
    assert_eq!(bound(&b, "x"), val(3));
    assert_eq!(bound(&b, "y"), val(2));
    assert_eq!(bindings_to_string(&b), "{ x: 3, y: 2 }");
}

#[test]
fn rendering() {
    assert_eq!(Expr::lvar("abc").to_string(), "abc");
    assert_eq!(val(0).to_string(), "0");
    assert_eq!(val(-1234).to_string(), "-1234");
    assert_eq!(val(i64::MIN).to_string(), "-9223372036854775808");
    assert_eq!(val(i64::MAX).to_string(), "9223372036854775807");
    assert_eq!(Expr::list(vec![]).to_string(), "[]");
    let nested = Expr::list(vec![val(42), Expr::lvar("a"), Expr::list(vec![val(1), val(2)])]);
    assert_eq!(nested.to_string(), "[42, a, [1, 2]]");
    assert_eq!(bindings_to_string(&Bindings::new()), "{  }");
}

#[test]
fn structural_equality() {
    assert_eq!(Expr::lvar("a"), Expr::lvar("a"));
    assert_ne!(Expr::lvar("a"), Expr::lvar("b"));
    assert_ne!(Expr::lvar("a"), val(1));
    assert_ne!(Expr::list(vec![val(1)]), Expr::list(vec![val(1), val(2)]));
    assert_ne!(Expr::list(vec![val(1), val(3)]), Expr::list(vec![val(1), val(2)]));
    assert_eq!(Expr::list(vec![val(1), Expr::lvar("z")]), Expr::list(vec![val(1), Expr::lvar("z")]));
}
