use yatima_core::address::Cid;
use yatima_core::anon::AnonTerm;
use yatima_core::codec;
use yatima_core::defs::{Definition, Defs};
use yatima_core::error::IpldError;
use yatima_core::ipld::Value;
use yatima_core::literal::{Literal, PrimType};
use yatima_core::meta::Meta;
use yatima_core::package::Import;
use yatima_core::position::{Pos, Position};
use yatima_core::prim::u16::U16Op;
use yatima_core::prim::PrimOp;
use yatima_core::split::{merge, split};
use yatima_core::term::Term;
use yatima_core::uses::Uses;

fn s(x: &str) -> Value {
    Value::String(x.to_string())
}

fn block(text: &str) -> Cid {
    codec::cid(&Value::String(text.to_string()))
}

fn at(from: u64, upto: u64) -> Pos {
    Pos(Some(Position { input: block("source text"), from_offset: from, upto_offset: upto }))
}

fn var(name: &str, index: u64) -> Box<Term> {
    Box::new(Term::Var(at(index, index + 1), name.to_string(), index))
}

/// `λ A x => x`, the identity.
fn id_term() -> Term {
    Term::Lam(
        at(0, 12),
        "A".to_string(),
        Box::new(Term::Lam(at(4, 12), "x".to_string(), var("x", 0))),
    )
}

/// `∀ (A: Type) (x: A) -> A`, the type of the identity.
fn id_type() -> Term {
    Term::All(
        at(0, 24),
        Uses::Many,
        "A".to_string(),
        Box::new(Term::Typ(at(6, 10))),
        Box::new(Term::All(at(12, 24), Uses::Once, "x".to_string(), var("A", 0), var("A", 1))),
    )
}

/// A closed term with every constructor in it.
fn everything() -> Term {
    let lit = |x: u16| Box::new(Term::Lit(Pos(None), Literal::U16(x)));
    Term::Let(
        at(0, 99),
        true,
        Uses::Affine,
        "f".to_string(),
        Box::new(id_type()),
        Box::new(Term::Ann(
            Pos(None),
            Box::new(Term::LTy(at(1, 2), PrimType::U16)),
            Box::new(Term::App(
                Pos(None),
                Box::new(Term::App(
                    at(3, 4),
                    Box::new(Term::Opr(at(5, 6), PrimOp::U16(U16Op::Add))),
                    lit(2),
                )),
                Box::new(Term::Rec(at(7, 8))),
            )),
        )),
        Box::new(Term::Slf(
            Pos(None),
            "self".to_string(),
            Box::new(Term::Cse(
                at(9, 10),
                Box::new(Term::Dat(
                    at(11, 12),
                    Box::new(Term::App(
                        Pos(None),
                        var("self", 0),
                        Box::new(Term::App(
                            Pos(None),
                            var("f", 1),
                            Box::new(Term::Ref(
                                at(13, 14),
                                "id".to_string(),
                                block("entry of id"),
                                block("anon of id"),
                            )),
                        )),
                    )),
                )),
            )),
        )),
    )
}

#[test]
fn split_takes_names_and_positions_away() {
    let (anon, meta) = split(&id_term());
    assert_eq!(
        anon,
        AnonTerm::Lam(Box::new(AnonTerm::Lam(Box::new(AnonTerm::Var(0)))))
    );
    assert_eq!(
        meta,
        Meta {
            pos: at(0, 12),
            name: Some("A".to_string()),
            link: None,
            children: vec![Meta {
                pos: at(4, 12),
                name: Some("x".to_string()),
                link: None,
                children: vec![Meta {
                    pos: at(0, 1),
                    name: Some("x".to_string()),
                    link: None,
                    children: vec![],
                }],
            }],
        }
    );
}

#[test]
fn split_keeps_the_entry_of_a_reference_in_the_metadata() {
    let r = Term::Ref(at(1, 3), "id".to_string(), block("entry of id"), block("anon of id"));
    let (anon, meta) = split(&r);
    assert_eq!(anon, AnonTerm::Ref(block("anon of id")));
    assert_eq!(
        meta,
        Meta {
            pos: at(1, 3),
            name: Some("id".to_string()),
            link: Some(block("entry of id")),
            children: vec![],
        }
    );
}

#[test]
fn merge_gives_back_what_was_split() {
    for t in [id_term(), id_type(), everything()] {
        let (anon, meta) = split(&t);
        assert_eq!(merge(&anon, &meta), Ok(t.clone()));
        let again = merge(&anon, &meta).unwrap();
        assert_eq!(split(&again), (anon, meta));
    }
}

#[test]
fn terms_that_differ_in_names_and_positions_share_the_skeleton() {
    let other = Term::Lam(
        Pos(None),
        "T".to_string(),
        Box::new(Term::Lam(Pos(None), "y".to_string(), Box::new(Term::Var(Pos(None), "y".to_string(), 0)))),
    );
    assert_eq!(split(&other).0, split(&id_term()).0);
    assert_ne!(split(&other).1, split(&id_term()).1);
    assert_eq!(split(&other).0.cid(), split(&id_term()).0.cid());
}

#[test]
fn merge_refuses_metadata_that_fits_not() {
    let (anon, meta) = split(&id_term());
    let leaf = Meta { pos: Pos(None), name: None, link: None, children: vec![] };
    assert_eq!(merge(&anon, &leaf), Err(IpldError::MetaMismatch));
    let mut nameless = Meta { pos: Pos(None), name: None, link: None, children: vec![] };
    nameless.children.push(meta.children[0].clone());
    assert_eq!(merge(&anon, &nameless), Err(IpldError::NameMissing));
    let mut deep = meta.clone();
    deep.children[0].children[0].name = None;
    assert_eq!(merge(&anon, &deep), Err(IpldError::NameMissing));
    let mut linked = meta.clone();
    linked.link = Some(block("x"));
    assert_eq!(merge(&anon, &linked), Err(IpldError::MetaMismatch));
    let typ = AnonTerm::Typ;
    let named = Meta { pos: Pos(None), name: Some("x".to_string()), link: None, children: vec![] };
    assert_eq!(merge(&typ, &named), Err(IpldError::MetaMismatch));
    assert_eq!(merge(&typ, &leaf), Ok(Term::Typ(Pos(None))));
    let reference = AnonTerm::Ref(block("anon of id"));
    assert_eq!(merge(&reference, &named), Err(IpldError::MetaMismatch));
    let unnamed_link =
        Meta { pos: Pos(None), name: None, link: Some(block("e")), children: vec![] };
    assert_eq!(merge(&reference, &unnamed_link), Err(IpldError::NameMissing));
    let app = AnonTerm::App(Box::new(AnonTerm::Typ), Box::new(AnonTerm::Var(0)));
    let two = Meta {
        pos: Pos(None),
        name: None,
        link: None,
        children: vec![named.clone(), leaf.clone()],
    };
    assert_eq!(merge(&app, &two), Err(IpldError::MetaMismatch));
    let other_two = Meta {
        pos: Pos(None),
        name: None,
        link: None,
        children: vec![leaf.clone(), leaf.clone()],
    };
    assert_eq!(merge(&app, &other_two), Err(IpldError::NameMissing));
}

#[test]
fn anon_ipld() {
    for t in [id_term(), id_type(), everything()] {
        let anon = split(&t).0;
        assert_eq!(AnonTerm::from_ipld(&anon.to_ipld()), Ok(anon));
    }
    let open = AnonTerm::Var(7);
    assert_eq!(AnonTerm::from_ipld(&open.to_ipld()), Ok(open));
}

#[test]
fn anon_forms() {
    assert_eq!(AnonTerm::Var(3).to_ipld(), Value::List(vec![s("Var"), Value::Integer(3)]));
    assert_eq!(AnonTerm::Typ.to_ipld(), Value::List(vec![s("Typ")]));
    assert_eq!(AnonTerm::Rec.to_ipld(), Value::List(vec![s("Rec")]));
    assert_eq!(
        AnonTerm::Ref(block("anon of id")).to_ipld(),
        Value::List(vec![s("Ref"), Value::Link(block("anon of id"))])
    );
    assert_eq!(
        AnonTerm::Lit(Literal::U16(3)).to_ipld(),
        Value::List(vec![s("#Lit"), s("U16"), Value::Integer(3)])
    );
    assert_eq!(AnonTerm::LTy(PrimType::Bool).to_ipld(), Value::List(vec![s("#LTy"), s("Bool")]));
    assert_eq!(
        AnonTerm::Opr(PrimOp::U16(U16Op::Max)).to_ipld(),
        Value::List(vec![s("#Opr"), s("U16"), Value::Integer(0)])
    );
    assert_eq!(
        AnonTerm::All(Uses::Once, Box::new(AnonTerm::Typ), Box::new(AnonTerm::Var(0))).to_ipld(),
        Value::List(vec![
            s("All"),
            s("once"),
            Value::List(vec![s("Typ")]),
            Value::List(vec![s("Var"), Value::Integer(0)]),
        ])
    );
    assert_eq!(
        AnonTerm::Let(
            true,
            Uses::Many,
            Box::new(AnonTerm::Typ),
            Box::new(AnonTerm::Rec),
            Box::new(AnonTerm::Var(0))
        )
        .to_ipld(),
        Value::List(vec![
            s("Let"),
            Value::Bool(true),
            s("many"),
            Value::List(vec![s("Typ")]),
            Value::List(vec![s("Rec")]),
            Value::List(vec![s("Var"), Value::Integer(0)]),
        ])
    );
}

#[test]
fn anon_from_ipld_refuses_what_is_no_form() {
    let shape = |v: Value| assert_eq!(AnonTerm::from_ipld(&v), Err(IpldError::InvalidShape(v.clone())));
    shape(Value::Null);
    shape(Value::List(vec![]));
    shape(Value::List(vec![Value::Integer(0)]));
    shape(Value::List(vec![s("Var")]));
    shape(Value::List(vec![s("Var"), Value::Integer(-1)]));
    shape(Value::List(vec![s("Var"), Value::Integer(1i128 << 64)]));
    shape(Value::List(vec![s("Typ"), Value::Null]));
    shape(Value::List(vec![s("Ref"), Value::Null]));
    shape(Value::List(vec![s("Let"), Value::Integer(1), s("many"), Value::Null, Value::Null, Value::Null]));
    shape(Value::List(vec![s("App"), Value::List(vec![s("Typ")])]));
    let unknown = Value::List(vec![s("Fix"), Value::Null]);
    assert_eq!(AnonTerm::from_ipld(&unknown), Err(IpldError::UnknownTag(unknown.clone())));
    let inner = Value::List(vec![s("Typ"), Value::Null]);
    let outer = Value::List(vec![s("App"), Value::List(vec![s("Typ")]), inner.clone()]);
    assert_eq!(AnonTerm::from_ipld(&outer), Err(IpldError::InvalidShape(inner)));
    let uses = Value::List(vec![s("All"), s("twice"), Value::Null, Value::Null]);
    assert_eq!(AnonTerm::from_ipld(&uses), Err(IpldError::UnknownTag(s("twice"))));
}

#[test]
fn term_ipld() {
    for t in [id_term(), id_type(), everything()] {
        assert!(t.is_closed());
        assert_eq!(Term::from_ipld(&t.to_ipld()), Ok(t.clone()));
        assert_eq!(Term::from_ipld_open(&t.to_ipld()), Ok(t.clone()));
        let bytes = codec::encode(&t.to_ipld()).unwrap();
        assert_eq!(Term::from_ipld(&codec::decode(&bytes).unwrap()), Ok(t));
    }
}

#[test]
fn term_forms() {
    assert_eq!(
        Term::Var(Pos(None), "x".to_string(), 2).to_ipld(),
        Value::List(vec![s("Var"), Value::List(vec![]), s("x"), Value::Integer(2)])
    );
    assert_eq!(
        Term::Lam(Pos(None), "x".to_string(), Box::new(Term::Typ(Pos(None)))).to_ipld(),
        Value::List(vec![
            s("Lam"),
            Value::List(vec![]),
            s("x"),
            Value::List(vec![s("Typ"), Value::List(vec![])]),
        ])
    );
    assert_eq!(
        Term::Lit(Pos(None), Literal::Bool(true)).to_ipld(),
        Value::List(vec![
            s("Lit"),
            Value::List(vec![]),
            Value::List(vec![s("#Lit"), s("Bool"), Value::Bool(true)]),
        ])
    );
    assert_eq!(
        Term::Ref(Pos(None), "id".to_string(), block("e"), block("a")).to_ipld(),
        Value::List(vec![
            s("Ref"),
            Value::List(vec![]),
            s("id"),
            Value::Link(block("e")),
            Value::Link(block("a")),
        ])
    );
}

#[test]
fn term_from_ipld_refuses_open_terms() {
    let free = Term::Lam(Pos(None), "x".to_string(), var("y", 1));
    assert!(!free.is_closed());
    assert_eq!(Term::from_ipld(&free.to_ipld()), Err(IpldError::InvariantViolated));
    assert_eq!(Term::from_ipld_open(&free.to_ipld()), Ok(free));
    let rec = Term::Rec(Pos(None));
    assert!(!rec.is_closed());
    assert_eq!(Term::from_ipld(&rec.to_ipld()), Err(IpldError::InvariantViolated));
    let not_recursive = Term::Let(
        Pos(None),
        false,
        Uses::Many,
        "f".to_string(),
        Box::new(Term::Typ(Pos(None))),
        Box::new(Term::Rec(Pos(None))),
        var("f", 0),
    );
    assert_eq!(Term::from_ipld(&not_recursive.to_ipld()), Err(IpldError::InvariantViolated));
    let recursive = Term::Let(
        Pos(None),
        true,
        Uses::Many,
        "f".to_string(),
        Box::new(Term::Typ(Pos(None))),
        Box::new(Term::Rec(Pos(None))),
        var("f", 0),
    );
    assert_eq!(Term::from_ipld(&recursive.to_ipld()), Ok(recursive));
    let in_type = Term::Let(
        Pos(None),
        true,
        Uses::Many,
        "f".to_string(),
        Box::new(Term::Rec(Pos(None))),
        Box::new(Term::Typ(Pos(None))),
        var("f", 0),
    );
    assert_eq!(Term::from_ipld(&in_type.to_ipld()), Err(IpldError::InvariantViolated));
    let value_sees_not_itself = Term::Let(
        Pos(None),
        true,
        Uses::Many,
        "f".to_string(),
        Box::new(Term::Typ(Pos(None))),
        var("f", 0),
        var("f", 0),
    );
    assert_eq!(Term::from_ipld(&value_sees_not_itself.to_ipld()), Err(IpldError::InvariantViolated));
    let unknown = Value::List(vec![s("Fix"), Value::List(vec![])]);
    assert_eq!(Term::from_ipld(&unknown), Err(IpldError::UnknownTag(unknown.clone())));
    let shape = Value::List(vec![s("Typ")]);
    assert_eq!(Term::from_ipld(&shape), Err(IpldError::InvalidShape(shape.clone())));
}

#[test]
fn types_of_operations_are_closed() {
    for op in [U16Op::Max, U16Op::Add, U16Op::Not, U16Op::ToBits, U16Op::Pow] {
        assert!(op.type_of().is_closed());
        assert_eq!(Term::from_ipld(&op.type_of().to_ipld()), Ok(op.type_of()));
    }
}

fn id_def() -> Definition {
    Definition {
        pos: at(0, 40),
        name: "id".to_string(),
        docs: "The identity.".to_string(),
        typ: id_type(),
        term: id_term(),
    }
}

#[test]
fn definitions_are_embedded_in_entries() {
    let d = id_def();
    let (entry, type_anon, term_anon) = d.embed();
    assert_eq!(type_anon, split(&id_type()).0);
    assert_eq!(term_anon, split(&id_term()).0);
    assert_eq!(entry.pos, at(0, 40));
    assert_eq!(entry.type_anon, codec::cid(&type_anon.to_ipld()));
    assert_eq!(entry.term_anon, term_anon.cid());
    assert_eq!(entry.type_meta, split(&id_type()).1);
    assert_eq!(entry.term_meta, split(&id_term()).1);
    assert_eq!(
        Definition::unembed(
            "id".to_string(),
            "The identity.".to_string(),
            &entry,
            &type_anon,
            &term_anon
        ),
        Ok(d)
    );
    assert_eq!(
        Definition::unembed("id".to_string(), String::new(), &entry, &term_anon, &type_anon),
        Err(IpldError::MetaMismatch)
    );
}

#[test]
fn environment() {
    let mut defs = Defs::new();
    assert_eq!(defs.get("id"), None);
    assert_eq!(defs.resolve(&block("entry of id")), Err(IpldError::UnresolvedRef(block("entry of id"))));
    assert_eq!(defs.insert(block("entry of id"), id_def()), Ok(()));
    assert_eq!(defs.get("id"), Some(&id_def()));
    assert_eq!(defs.get("const"), None);
    assert_eq!(defs.resolve(&block("entry of id")), Ok(&id_def()));
    assert_eq!(
        defs.insert(block("another entry"), id_def()),
        Err(IpldError::DuplicateName("id".to_string()))
    );
    assert_eq!(defs.bindings.len(), 1);
}

#[test]
fn imports_shadow_in_order() {
    let mut package = Defs::new();
    package.insert(block("entry of id"), id_def()).unwrap();
    let mut other = id_def();
    other.name = "const".to_string();
    other.docs = "Not the identity.".to_string();
    package.insert(block("entry of const"), other.clone()).unwrap();
    let import = |alias: &str| Import {
        cid: block("package fun"),
        name: "fun".to_string(),
        alias: alias.to_string(),
        with: vec!["id".to_string()],
    };
    let mut defs = Defs::new();
    let mut local = id_def();
    local.docs = "A local one.".to_string();
    local.name = "F.id".to_string();
    defs.insert(block("local"), local.clone()).unwrap();
    assert_eq!(defs.get("F.id"), Some(&local));
    defs.import(&package, &import("F"));
    let names: Vec<&str> = defs.bindings.iter().map(|b| b.name.as_str()).collect();
    assert_eq!(names, vec!["F.id", "F.id", "id", "F.const"]);
    assert_eq!(defs.get("F.id"), Some(&id_def()));
    assert_eq!(defs.get("id"), Some(&id_def()));
    assert_eq!(defs.get("F.const"), Some(&other));
    assert_eq!(defs.get("const"), None);
    assert_eq!(defs.get("fun.const"), None);
    assert_eq!(defs.resolve(&block("local")), Ok(&local));
    assert_eq!(defs.resolve(&block("entry of const")), Ok(&other));
    let mut bare = Defs::new();
    bare.import(&package, &import(""));
    let names: Vec<&str> = bare.bindings.iter().map(|b| b.name.as_str()).collect();
    assert_eq!(names, vec!["id"]);
    assert_eq!(bare.get("id"), Some(&id_def()));
    assert_eq!(bare.get("const"), None);
}
