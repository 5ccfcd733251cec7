use yatima_core::address::Cid;
use yatima_core::bignum::BigNat;
use yatima_core::codec;
use yatima_core::defs::{Definition, Defs};
use yatima_core::error::IpldError;
use yatima_core::eval::{equal, norm, shift, step, substitute, whnf, Stepped};
use yatima_core::ipld::Value;
use yatima_core::literal::{Literal, PrimType};
use yatima_core::position::Pos;
use yatima_core::prim::u16::U16Op;
use yatima_core::prim::PrimOp;
use yatima_core::term::Term;
use yatima_core::uses::Uses;

fn block(text: &str) -> Cid {
    codec::cid(&Value::String(text.to_string()))
}

fn var(name: &str, index: u64) -> Term {
    Term::Var(Pos(None), name.to_string(), index)
}

fn lam(name: &str, body: Term) -> Term {
    Term::Lam(Pos(None), name.to_string(), Box::new(body))
}

fn app(f: Term, a: Term) -> Term {
    Term::App(Pos(None), Box::new(f), Box::new(a))
}

fn lit(x: u16) -> Term {
    Term::Lit(Pos(None), Literal::U16(x))
}

fn natural(x: u64) -> Term {
    Term::Lit(Pos(None), Literal::Nat(BigNat::from_u64(x)))
}

fn opr(op: U16Op) -> Term {
    Term::Opr(Pos(None), PrimOp::U16(op))
}

fn typ() -> Term {
    Term::Typ(Pos(None))
}

fn let_(recursive: bool, name: &str, value: Term, body: Term) -> Term {
    Term::Let(
        Pos(None),
        recursive,
        Uses::Many,
        name.to_string(),
        Box::new(typ()),
        Box::new(value),
        Box::new(body),
    )
}

fn next(s: Stepped) -> Term {
    match s {
        Stepped::Next(t) => t,
        Stepped::Done => panic!("no step"),
        Stepped::Fail(e) => panic!("{:?}", e),
    }
}

fn is_done(s: Stepped) -> bool {
    matches!(s, Stepped::Done)
}

fn id_defs() -> Defs {
    let mut defs = Defs::new();
    let id = Definition {
        pos: Pos(None),
        name: "id".to_string(),
        docs: String::new(),
        typ: Term::All(
            Pos(None),
            Uses::Many,
            "A".to_string(),
            Box::new(typ()),
            Box::new(Term::All(
                Pos(None),
                Uses::Many,
                "x".to_string(),
                Box::new(var("A", 0)),
                Box::new(var("A", 1)),
            )),
        ),
        term: lam("A", lam("x", var("x", 0))),
    };
    defs.insert(block("entry of id"), id).unwrap();
    defs
}

fn id_ref() -> Term {
    Term::Ref(Pos(None), "id".to_string(), block("entry of id"), block("anon of id"))
}

#[test]
fn identity_of_three_is_three() {
    let t = app(app(id_ref(), Term::LTy(Pos(None), PrimType::Nat)), natural(3));
    assert_eq!(norm(t.clone(), &id_defs(), 100), Ok(Some(natural(3))));
    assert_eq!(whnf(t, &id_defs(), 100), Ok(Some(natural(3))));
}

#[test]
fn a_reference_becomes_its_definition() {
    assert_eq!(next(step(&id_ref(), &id_defs())), lam("A", lam("x", var("x", 0))));
    let missing = Term::Ref(Pos(None), "k".to_string(), block("entry of k"), block("anon of k"));
    assert_eq!(
        whnf(missing.clone(), &id_defs(), 100),
        Err(IpldError::UnresolvedRef(block("entry of k")))
    );
    assert_eq!(
        norm(lam("x", app(var("x", 0), missing)), &id_defs(), 100),
        Err(IpldError::UnresolvedRef(block("entry of k")))
    );
}

#[test]
fn case_of_data_is_what_was_introduced() {
    let v = lam("x", var("x", 0));
    let t = Term::Cse(Pos(None), Box::new(Term::Dat(Pos(None), Box::new(v.clone()))));
    assert_eq!(next(step(&t, &Defs::new())), v);
    let stuck = Term::Cse(Pos(None), Box::new(var("x", 0)));
    assert!(is_done(step(&stuck, &Defs::new())));
    let inside = Term::Cse(
        Pos(None),
        Box::new(app(lam("x", var("x", 0)), Term::Dat(Pos(None), Box::new(lit(1))))),
    );
    assert_eq!(
        next(step(&inside, &Defs::new())),
        Term::Cse(Pos(None), Box::new(Term::Dat(Pos(None), Box::new(lit(1)))))
    );
    assert_eq!(whnf(inside, &Defs::new(), 10), Ok(Some(lit(1))));
}

#[test]
fn division_by_zero_stays_as_it_is() {
    let t = app(app(opr(U16Op::Div), lit(7)), lit(0));
    assert!(is_done(step(&t, &Defs::new())));
    assert_eq!(whnf(t.clone(), &Defs::new(), 10), Ok(Some(t.clone())));
    assert_eq!(norm(t.clone(), &Defs::new(), 10), Ok(Some(t.clone())));
    let r = app(app(opr(U16Op::Mod), lit(7)), lit(0));
    assert_eq!(norm(r.clone(), &Defs::new(), 10), Ok(Some(r)));
    let under = lam("x", app(var("x", 0), t.clone()));
    assert_eq!(norm(under.clone(), &Defs::new(), 10), Ok(Some(under)));
}

#[test]
fn operations_reduce_their_arguments_first() {
    let product = app(app(opr(U16Op::Mul), lit(2)), lit(3));
    let t = app(app(opr(U16Op::Add), product.clone()), lit(1));
    assert_eq!(
        next(step(&t, &Defs::new())),
        app(app(opr(U16Op::Add), lit(6)), lit(1))
    );
    assert_eq!(whnf(t.clone(), &Defs::new(), 10), Ok(Some(lit(7))));
    let widened = app(opr(U16Op::ToU32), product);
    assert_eq!(
        norm(widened, &Defs::new(), 10),
        Ok(Some(Term::Lit(Pos(None), Literal::U32(6))))
    );
    assert_eq!(whnf(opr(U16Op::Max), &Defs::new(), 10), Ok(Some(lit(65535))));
    let second = app(app(opr(U16Op::Add), lit(1)), app(lam("x", var("x", 0)), lit(2)));
    assert_eq!(
        next(step(&second, &Defs::new())),
        app(app(opr(U16Op::Add), lit(1)), lit(2))
    );
    let partial = app(opr(U16Op::Add), app(lam("x", var("x", 0)), lit(2)));
    assert!(is_done(step(&partial, &Defs::new())));
    let wrong = app(app(opr(U16Op::Add), lit(1)), Term::Lit(Pos(None), Literal::Bool(true)));
    assert_eq!(norm(wrong.clone(), &Defs::new(), 10), Ok(Some(wrong)));
    let neutral = lam("x", app(app(opr(U16Op::Add), var("x", 0)), lit(1)));
    assert_eq!(norm(neutral.clone(), &Defs::new(), 10), Ok(Some(neutral)));
}

#[test]
fn beta_under_binders() {
    // (λ x => λ p => p x x) ((λ y => y) 7)
    let pair = lam("p", app(app(var("p", 0), var("x", 1)), var("x", 1)));
    let t = app(lam("x", pair), app(lam("y", var("y", 0)), lit(7)));
    assert_eq!(
        norm(t, &Defs::new(), 100),
        Ok(Some(lam("p", app(app(var("p", 0), lit(7)), lit(7)))))
    );
    // λ z => (λ x => λ y => x) z: the argument is shifted under the binder.
    let konst = lam("x", lam("y", var("x", 1)));
    let open = lam("z", app(konst, var("z", 0)));
    assert_eq!(norm(open, &Defs::new(), 100), Ok(Some(lam("z", lam("y", var("z", 1))))));
}

#[test]
fn annotations_and_local_definitions() {
    let ann = Term::Ann(Pos(None), Box::new(typ()), Box::new(lit(1)));
    assert_eq!(next(step(&ann, &Defs::new())), lit(1));
    let local = let_(false, "x", lit(2), app(app(opr(U16Op::Add), var("x", 0)), var("x", 0)));
    assert_eq!(norm(local, &Defs::new(), 100), Ok(Some(lit(4))));
}

#[test]
fn recursive_definitions_unroll() {
    // let rec ones = λ c => c 1 ones in ones (λ h t => h)
    let ones = lam("c", app(app(var("c", 0), lit(1)), Term::Rec(Pos(None))));
    let head = lam("h", lam("t", var("h", 1)));
    let first = let_(true, "ones", ones.clone(), app(var("ones", 0), head.clone()));
    assert_eq!(norm(first, &Defs::new(), 100), Ok(Some(lit(1))));
    // the head of the tail, by the reference in the body
    let tail_head = lam("h", lam("t", app(var("t", 0), head.clone())));
    let second = let_(true, "ones", ones.clone(), app(Term::Rec(Pos(None)), tail_head));
    assert_eq!(norm(second, &Defs::new(), 100), Ok(Some(lit(1))));
    // the whole stream has no normal form
    let all = let_(true, "ones", ones, var("ones", 0));
    assert_eq!(norm(all, &Defs::new(), 20), Ok(None));
}

#[test]
fn fuel_runs_out() {
    let delta = lam("x", app(var("x", 0), var("x", 0)));
    let omega = app(delta.clone(), delta);
    assert_eq!(whnf(omega.clone(), &Defs::new(), 50), Ok(None));
    assert_eq!(norm(omega, &Defs::new(), 50), Ok(None));
    assert_eq!(norm(lit(1), &Defs::new(), 0), Ok(None));
    assert_eq!(whnf(lit(1), &Defs::new(), 0), Ok(Some(lit(1))));
    assert_eq!(norm(lit(1), &Defs::new(), 1), Ok(Some(lit(1))));
}

#[test]
fn a_stray_reference_to_a_recursive_definition_is_an_error() {
    assert_eq!(whnf(Term::Rec(Pos(None)), &Defs::new(), 10), Err(IpldError::InvariantViolated));
}

#[test]
fn shifting_and_substituting() {
    let t = lam("x", app(var("x", 0), var("y", 1)));
    assert_eq!(shift(&t, 2, 0), Some(lam("x", app(var("x", 0), var("y", 3)))));
    assert_eq!(shift(&t, 2, 1), Some(t.clone()));
    assert_eq!(shift(&var("z", u64::MAX), 1, 0), None);
    assert_eq!(shift(&var("z", u64::MAX - 1), 1, 0), Some(var("z", u64::MAX)));
    let body = app(var("x", 0), lam("y", app(var("x", 1), var("z", 2))));
    assert_eq!(
        substitute(&body, &var("a", 5)),
        Some(app(var("a", 5), lam("y", app(var("a", 6), var("z", 1)))))
    );
    assert_eq!(substitute(&lam("y", var("x", 1)), &var("a", u64::MAX)), None);
}

#[test]
fn three_of_the_ones() {
    // Lists and numbers as functions of their cases.
    let nil = || lam("n", lam("c", var("n", 1)));
    let cons = || {
        lam("h", lam("t", lam("n", lam("c", app(app(var("c", 0), var("h", 3)), var("t", 2))))))
    };
    let zero = lam("z", lam("s", var("z", 1)));
    let succ = || lam("m", lam("z", lam("s", app(var("s", 0), var("m", 2)))));
    let three = app(succ(), app(succ(), app(succ(), zero)));
    // let rec ones = cons 1 ones in ones
    let ones = let_(true, "ones", app(app(cons(), lit(1)), Term::Rec(Pos(None))), var("ones", 0));
    // let rec take = λ n l => n nil (λ p => l nil (λ h t => cons h (take p t))) in take
    let rest = app(app(Term::Rec(Pos(None)), var("p", 2)), var("t", 0));
    let more = lam("h", lam("t", app(app(cons(), var("h", 1)), rest)));
    let step = lam("p", app(app(var("l", 1), nil()), more));
    let take = let_(
        true,
        "take",
        lam("n", lam("l", app(app(var("n", 1), nil()), step))),
        var("take", 0),
    );
    let list = |h: Term, t: Term| lam("n", lam("c", app(app(var("c", 0), h), t)));
    let wanted = list(lit(1), list(lit(1), list(lit(1), nil())));
    assert_eq!(norm(app(app(take, three), ones), &Defs::new(), 1000), Ok(Some(wanted)));
}

#[test]
fn equality_up_to_reduction_and_names() {
    let defs = id_defs();
    let id = lam("A", lam("x", var("x", 0)));
    let renamed = Term::Lam(
        Pos(None),
        "T".to_string(),
        Box::new(Term::Lam(Pos(None), "y".to_string(), Box::new(var("y", 0)))),
    );
    assert_eq!(equal(&id, &renamed, &defs, 100), Ok(Some(true)));
    assert_eq!(equal(&id_ref(), &id, &defs, 100), Ok(Some(true)));
    assert_eq!(equal(&id, &lam("A", lam("x", var("A", 1))), &defs, 100), Ok(Some(false)));
    assert_eq!(equal(&id, &typ(), &defs, 100), Ok(Some(false)));
    let sum = app(app(opr(U16Op::Add), lit(3)), lit(4));
    assert_eq!(equal(&sum, &lit(7), &defs, 100), Ok(Some(true)));
    assert_eq!(equal(&sum, &lit(8), &defs, 100), Ok(Some(false)));
    assert_eq!(
        equal(&lit(7), &Term::Lit(Pos(None), Literal::U32(7)), &defs, 100),
        Ok(Some(false))
    );
    assert_eq!(
        equal(&lam("x", sum.clone()), &lam("y", lit(7)), &defs, 100),
        Ok(Some(true))
    );
    assert_eq!(
        equal(&natural(5), &Term::Lit(Pos(None), Literal::Nat(BigNat { limbs: vec![5, 0] })), &defs, 100),
        Ok(Some(true))
    );
    let all = |u: Uses| {
        Term::All(Pos(None), u, "x".to_string(), Box::new(typ()), Box::new(var("x", 0)))
    };
    assert_eq!(equal(&all(Uses::Many), &all(Uses::Many), &defs, 100), Ok(Some(true)));
    assert_eq!(equal(&all(Uses::Many), &all(Uses::Once), &defs, 100), Ok(Some(false)));
}

#[test]
fn equality_runs_out_of_fuel_or_fails() {
    let defs = id_defs();
    let delta = lam("x", app(var("x", 0), var("x", 0)));
    let omega = app(delta.clone(), delta);
    assert_eq!(equal(&omega, &lit(1), &defs, 20), Ok(None));
    assert_eq!(equal(&lit(1), &omega, &defs, 20), Ok(None));
    assert_eq!(equal(&lit(1), &lit(1), &defs, 0), Ok(None));
    assert_eq!(equal(&lit(1), &lit(1), &defs, 1), Ok(Some(true)));
    let deep = lam("a", lam("b", lam("c", lit(1))));
    assert_eq!(equal(&deep, &deep, &defs, 3), Ok(None));
    assert_eq!(equal(&deep, &deep, &defs, 4), Ok(Some(true)));
    let missing = Term::Ref(Pos(None), "k".to_string(), block("entry of k"), block("anon of k"));
    assert_eq!(
        equal(&missing, &lit(1), &defs, 20),
        Err(IpldError::UnresolvedRef(block("entry of k")))
    );
    assert_eq!(
        equal(&lam("x", lit(1)), &lam("x", missing), &defs, 20),
        Err(IpldError::UnresolvedRef(block("entry of k")))
    );
}
