//! Terms: the syntax of the language, with de Bruijn indices for variables.

use vstd::prelude::*;
use crate::address::{Cid, CidView};
use crate::bytes::{fingerprint, same_text};
use crate::error::{decoded, IpldError, IpldErrorView};
use crate::ipld::{bool_field, index_field, link_field, spec_bool_field, spec_index_field};
use crate::ipld::{spec_link_field, spec_string_field, spec_tag, string_field, tagged};
use crate::ipld::{tagged1, tagged2, tagged3, tagged4, tagged5, tagged7, Value, ValueView};
use crate::literal::{lemma_literal_encodable, lemma_literal_roundtrip, lemma_type_roundtrip};
use crate::literal::{Literal, LiteralView, PrimType};
use crate::position::{Pos, PositionView};
use crate::prim::{lemma_op_roundtrip, PrimOp};
use crate::uses::{lemma_uses_roundtrip, Uses};

verus! {

/// A term. Every constructor carries the position it was read at.
#[derive(Debug, PartialEq)]
pub enum Term {
    /// A variable: its name, and the number of binders between it and its own.
    Var(Pos, String, u64),
    /// A function: the name of its variable, and its body.
    Lam(Pos, String, Box<Term>),
    /// An application: the function, and the argument.
    App(Pos, Box<Term>, Box<Term>),
    /// A dependent function type: the domain, and the image under one binder.
    All(Pos, Uses, String, Box<Term>, Box<Term>),
    /// A self type: the name of the value being typed, and the body.
    Slf(Pos, String, Box<Term>),
    /// The introduction of a value of a self type.
    Dat(Pos, Box<Term>),
    /// The elimination of a value of a self type.
    Cse(Pos, Box<Term>),
    /// A definition: its name, the block of its entry, the block of its
    /// anonymous term.
    Ref(Pos, String, Cid, Cid),
    /// A local definition, recursive or not: the type, the value, the body.
    Let(Pos, bool, Uses, String, Box<Term>, Box<Term>, Box<Term>),
    /// The type of types.
    Typ(Pos),
    /// An annotation: the type, and the value.
    Ann(Pos, Box<Term>, Box<Term>),
    /// A literal.
    Lit(Pos, Literal),
    /// The type of a literal.
    LTy(Pos, PrimType),
    /// A primitive operation.
    Opr(Pos, PrimOp),
    /// Inside a recursive local definition: that definition.
    Rec(Pos),
}

/// What a [`Term`] holds, as mathematical values.
pub enum TermView {
    Var(Option<PositionView>, Seq<char>, u64),
    Lam(Option<PositionView>, Seq<char>, Box<TermView>),
    App(Option<PositionView>, Box<TermView>, Box<TermView>),
    All(Option<PositionView>, Uses, Seq<char>, Box<TermView>, Box<TermView>),
    Slf(Option<PositionView>, Seq<char>, Box<TermView>),
    Dat(Option<PositionView>, Box<TermView>),
    Cse(Option<PositionView>, Box<TermView>),
    Ref(Option<PositionView>, Seq<char>, CidView, CidView),
    Let(Option<PositionView>, bool, Uses, Seq<char>, Box<TermView>, Box<TermView>, Box<TermView>),
    Typ(Option<PositionView>),
    Ann(Option<PositionView>, Box<TermView>, Box<TermView>),
    Lit(Option<PositionView>, LiteralView),
    LTy(Option<PositionView>, PrimType),
    Opr(Option<PositionView>, PrimOp),
    Rec(Option<PositionView>),
}

impl View for Term {
    type V = TermView;

    open spec fn view(&self) -> TermView
        decreases self,
    {
        match self {
            Term::Var(pos, name, index) => TermView::Var(pos@, name@, *index),
            Term::Lam(pos, name, body) => TermView::Lam(pos@, name@, Box::new((**body)@)),
            Term::App(pos, function, argument) => TermView::App(
                pos@,
                Box::new((**function)@),
                Box::new((**argument)@),
            ),
            Term::All(pos, uses, name, domain, image) => TermView::All(
                pos@,
                *uses,
                name@,
                Box::new((**domain)@),
                Box::new((**image)@),
            ),
            Term::Slf(pos, name, body) => TermView::Slf(pos@, name@, Box::new((**body)@)),
            Term::Dat(pos, body) => TermView::Dat(pos@, Box::new((**body)@)),
            Term::Cse(pos, body) => TermView::Cse(pos@, Box::new((**body)@)),
            Term::Ref(pos, name, def, ast) => TermView::Ref(pos@, name@, def@, ast@),
            Term::Let(pos, recursive, uses, name, typ, value, body) => TermView::Let(
                pos@,
                *recursive,
                *uses,
                name@,
                Box::new((**typ)@),
                Box::new((**value)@),
                Box::new((**body)@),
            ),
            Term::Typ(pos) => TermView::Typ(pos@),
            Term::Ann(pos, typ, value) => TermView::Ann(
                pos@,
                Box::new((**typ)@),
                Box::new((**value)@),
            ),
            Term::Lit(pos, literal) => TermView::Lit(pos@, literal@),
            Term::LTy(pos, typ) => TermView::LTy(pos@, *typ),
            Term::Opr(pos, op) => TermView::Opr(pos@, *op),
            Term::Rec(pos) => TermView::Rec(pos@),
        }
    }
}

impl Clone for Term {
    fn clone(&self) -> (r: Self)
        ensures
            r@ == self@,
        decreases self,
    {
        match self {
            Term::Var(pos, name, index) => Term::Var(pos.clone(), name.clone(), *index),
            Term::Lam(pos, name, body) => Term::Lam(
                pos.clone(),
                name.clone(),
                Box::new((**body).clone()),
            ),
            Term::App(pos, function, argument) => Term::App(
                pos.clone(),
                Box::new((**function).clone()),
                Box::new((**argument).clone()),
            ),
            Term::All(pos, uses, name, domain, image) => Term::All(
                pos.clone(),
                *uses,
                name.clone(),
                Box::new((**domain).clone()),
                Box::new((**image).clone()),
            ),
            Term::Slf(pos, name, body) => Term::Slf(
                pos.clone(),
                name.clone(),
                Box::new((**body).clone()),
            ),
            Term::Dat(pos, body) => Term::Dat(pos.clone(), Box::new((**body).clone())),
            Term::Cse(pos, body) => Term::Cse(pos.clone(), Box::new((**body).clone())),
            Term::Ref(pos, name, def, ast) => Term::Ref(
                pos.clone(),
                name.clone(),
                def.clone(),
                ast.clone(),
            ),
            Term::Let(pos, recursive, uses, name, typ, value, body) => Term::Let(
                pos.clone(),
                *recursive,
                *uses,
                name.clone(),
                Box::new((**typ).clone()),
                Box::new((**value).clone()),
                Box::new((**body).clone()),
            ),
            Term::Typ(pos) => Term::Typ(pos.clone()),
            Term::Ann(pos, typ, value) => Term::Ann(
                pos.clone(),
                Box::new((**typ).clone()),
                Box::new((**value).clone()),
            ),
            Term::Lit(pos, literal) => Term::Lit(pos.clone(), literal.clone()),
            Term::LTy(pos, typ) => Term::LTy(pos.clone(), *typ),
            Term::Opr(pos, op) => Term::Opr(pos.clone(), *op),
            Term::Rec(pos) => Term::Rec(pos.clone()),
        }
    }
}

impl TermView {
    /// The canonical form: a list of the name of the constructor and what
    /// it holds, in order.
    pub open spec fn to_ipld(self) -> ValueView
        decreases self,
    {
        match self {
            TermView::Var(pos, name, index) => ValueView::List(
                seq![
                    ValueView::String("Var"@),
                    Pos::spec_to_ipld(pos),
                    ValueView::String(name),
                    ValueView::Integer(index as int),
                ],
            ),
            TermView::Lam(pos, name, body) => ValueView::List(
                seq![
                    ValueView::String("Lam"@),
                    Pos::spec_to_ipld(pos),
                    ValueView::String(name),
                    (*body).to_ipld(),
                ],
            ),
            TermView::App(pos, function, argument) => ValueView::List(
                seq![
                    ValueView::String("App"@),
                    Pos::spec_to_ipld(pos),
                    (*function).to_ipld(),
                    (*argument).to_ipld(),
                ],
            ),
            TermView::All(pos, uses, name, domain, image) => ValueView::List(
                seq![
                    ValueView::String("All"@),
                    Pos::spec_to_ipld(pos),
                    uses.spec_to_ipld(),
                    ValueView::String(name),
                    (*domain).to_ipld(),
                    (*image).to_ipld(),
                ],
            ),
            TermView::Slf(pos, name, body) => ValueView::List(
                seq![
                    ValueView::String("Slf"@),
                    Pos::spec_to_ipld(pos),
                    ValueView::String(name),
                    (*body).to_ipld(),
                ],
            ),
            TermView::Dat(pos, body) => ValueView::List(
                seq![
                    ValueView::String("Dat"@),
                    Pos::spec_to_ipld(pos),
                    (*body).to_ipld(),
                ],
            ),
            TermView::Cse(pos, body) => ValueView::List(
                seq![
                    ValueView::String("Cse"@),
                    Pos::spec_to_ipld(pos),
                    (*body).to_ipld(),
                ],
            ),
            TermView::Ref(pos, name, def, ast) => ValueView::List(
                seq![
                    ValueView::String("Ref"@),
                    Pos::spec_to_ipld(pos),
                    ValueView::String(name),
                    ValueView::Link(def),
                    ValueView::Link(ast),
                ],
            ),
            TermView::Let(pos, recursive, uses, name, typ, value, body) => ValueView::List(
                seq![
                    ValueView::String("Let"@),
                    Pos::spec_to_ipld(pos),
                    ValueView::Bool(recursive),
                    uses.spec_to_ipld(),
                    ValueView::String(name),
                    (*typ).to_ipld(),
                    (*value).to_ipld(),
                    (*body).to_ipld(),
                ],
            ),
            TermView::Typ(pos) => ValueView::List(
                seq![
                    ValueView::String("Typ"@),
                    Pos::spec_to_ipld(pos),
                ],
            ),
            TermView::Ann(pos, typ, value) => ValueView::List(
                seq![
                    ValueView::String("Ann"@),
                    Pos::spec_to_ipld(pos),
                    (*typ).to_ipld(),
                    (*value).to_ipld(),
                ],
            ),
            TermView::Lit(pos, literal) => ValueView::List(
                seq![
                    ValueView::String("Lit"@),
                    Pos::spec_to_ipld(pos),
                    literal.to_ipld(),
                ],
            ),
            TermView::LTy(pos, typ) => ValueView::List(
                seq![
                    ValueView::String("LTy"@),
                    Pos::spec_to_ipld(pos),
                    typ.spec_to_ipld(),
                ],
            ),
            TermView::Opr(pos, op) => ValueView::List(
                seq![
                    ValueView::String("Opr"@),
                    Pos::spec_to_ipld(pos),
                    op.spec_to_ipld(),
                ],
            ),
            TermView::Rec(pos) => ValueView::List(
                seq![
                    ValueView::String("Rec"@),
                    Pos::spec_to_ipld(pos),
                ],
            ),
        }
    }

    /// What a value is the canonical form of. A value that is no list
    /// behind a string, or that holds not what its constructor takes, has
    /// not the shape; a string that names no constructor is an unknown tag;
    /// what the parts answer is answered for the whole, the first part
    /// first.
    pub open spec fn from_ipld_open(v: ValueView) -> Result<TermView, IpldErrorView>
        decreases v,
    {
        let tag = spec_tag(v);
        let xs = v->List_0;
        if tag == Some("Var"@) {
            if xs.len() != 4 {
                Err(IpldErrorView::InvalidShape(v))
            } else {
                match (
                    Pos::spec_from_ipld(xs[1]),
                    spec_string_field(v, xs[2]),
                    spec_index_field(v, xs[3]),
                ) {
                    (Ok(pos), Ok(name), Ok(index)) => Ok(
                        TermView::Var(pos, name, index),
                    ),
                    (Err(e), _, _) => Err(e),
                    (_, Err(e), _) => Err(e),
                    (_, _, Err(e)) => Err(e),
                }
            }
        } else if tag == Some("Lam"@) {
            if xs.len() != 4 {
                Err(IpldErrorView::InvalidShape(v))
            } else {
                match (
                    Pos::spec_from_ipld(xs[1]),
                    spec_string_field(v, xs[2]),
                    Self::from_ipld_open(xs[3]),
                ) {
                    (Ok(pos), Ok(name), Ok(body)) => Ok(
                        TermView::Lam(pos, name, Box::new(body)),
                    ),
                    (Err(e), _, _) => Err(e),
                    (_, Err(e), _) => Err(e),
                    (_, _, Err(e)) => Err(e),
                }
            }
        } else if tag == Some("App"@) {
            if xs.len() != 4 {
                Err(IpldErrorView::InvalidShape(v))
            } else {
                match (
                    Pos::spec_from_ipld(xs[1]),
                    Self::from_ipld_open(xs[2]),
                    Self::from_ipld_open(xs[3]),
                ) {
                    (Ok(pos), Ok(function), Ok(argument)) => Ok(
                        TermView::App(pos, Box::new(function), Box::new(argument)),
                    ),
                    (Err(e), _, _) => Err(e),
                    (_, Err(e), _) => Err(e),
                    (_, _, Err(e)) => Err(e),
                }
            }
        } else if tag == Some("All"@) {
            if xs.len() != 6 {
                Err(IpldErrorView::InvalidShape(v))
            } else {
                match (
                    Pos::spec_from_ipld(xs[1]),
                    Uses::spec_from_ipld(xs[2]),
                    spec_string_field(v, xs[3]),
                    Self::from_ipld_open(xs[4]),
                    Self::from_ipld_open(xs[5]),
                ) {
                    (Ok(pos), Ok(uses), Ok(name), Ok(domain), Ok(image)) => Ok(
                        TermView::All(pos, uses, name, Box::new(domain), Box::new(image)),
                    ),
                    (Err(e), _, _, _, _) => Err(e),
                    (_, Err(e), _, _, _) => Err(e),
                    (_, _, Err(e), _, _) => Err(e),
                    (_, _, _, Err(e), _) => Err(e),
                    (_, _, _, _, Err(e)) => Err(e),
                }
            }
        } else if tag == Some("Slf"@) {
            if xs.len() != 4 {
                Err(IpldErrorView::InvalidShape(v))
            } else {
                match (
                    Pos::spec_from_ipld(xs[1]),
                    spec_string_field(v, xs[2]),
                    Self::from_ipld_open(xs[3]),
                ) {
                    (Ok(pos), Ok(name), Ok(body)) => Ok(
                        TermView::Slf(pos, name, Box::new(body)),
                    ),
                    (Err(e), _, _) => Err(e),
                    (_, Err(e), _) => Err(e),
                    (_, _, Err(e)) => Err(e),
                }
            }
        } else if tag == Some("Dat"@) {
            if xs.len() != 3 {
                Err(IpldErrorView::InvalidShape(v))
            } else {
                match (
                    Pos::spec_from_ipld(xs[1]),
                    Self::from_ipld_open(xs[2]),
                ) {
                    (Ok(pos), Ok(body)) => Ok(
                        TermView::Dat(pos, Box::new(body)),
                    ),
                    (Err(e), _) => Err(e),
                    (_, Err(e)) => Err(e),
                }
            }
        } else if tag == Some("Cse"@) {
            if xs.len() != 3 {
                Err(IpldErrorView::InvalidShape(v))
            } else {
                match (
                    Pos::spec_from_ipld(xs[1]),
                    Self::from_ipld_open(xs[2]),
                ) {
                    (Ok(pos), Ok(body)) => Ok(
                        TermView::Cse(pos, Box::new(body)),
                    ),
                    (Err(e), _) => Err(e),
                    (_, Err(e)) => Err(e),
                }
            }
        } else if tag == Some("Ref"@) {
            if xs.len() != 5 {
                Err(IpldErrorView::InvalidShape(v))
            } else {
                match (
                    Pos::spec_from_ipld(xs[1]),
                    spec_string_field(v, xs[2]),
                    spec_link_field(v, xs[3]),
                    spec_link_field(v, xs[4]),
                ) {
                    (Ok(pos), Ok(name), Ok(def), Ok(ast)) => Ok(
                        TermView::Ref(pos, name, def, ast),
                    ),
                    (Err(e), _, _, _) => Err(e),
                    (_, Err(e), _, _) => Err(e),
                    (_, _, Err(e), _) => Err(e),
                    (_, _, _, Err(e)) => Err(e),
                }
            }
        } else if tag == Some("Let"@) {
            if xs.len() != 8 {
                Err(IpldErrorView::InvalidShape(v))
            } else {
                match (
                    Pos::spec_from_ipld(xs[1]),
                    spec_bool_field(v, xs[2]),
                    Uses::spec_from_ipld(xs[3]),
                    spec_string_field(v, xs[4]),
                    Self::from_ipld_open(xs[5]),
                    Self::from_ipld_open(xs[6]),
                    Self::from_ipld_open(xs[7]),
                ) {
                    (
                        Ok(pos),
                        Ok(recursive),
                        Ok(uses),
                        Ok(name),
                        Ok(typ),
                        Ok(value),
                        Ok(body),
                    ) => Ok(
                        TermView::Let(
                            pos,
                            recursive,
                            uses,
                            name,
                            Box::new(typ),
                            Box::new(value),
                            Box::new(body),
                        ),
                    ),
                    (Err(e), _, _, _, _, _, _) => Err(e),
                    (_, Err(e), _, _, _, _, _) => Err(e),
                    (_, _, Err(e), _, _, _, _) => Err(e),
                    (_, _, _, Err(e), _, _, _) => Err(e),
                    (_, _, _, _, Err(e), _, _) => Err(e),
                    (_, _, _, _, _, Err(e), _) => Err(e),
                    (_, _, _, _, _, _, Err(e)) => Err(e),
                }
            }
        } else if tag == Some("Typ"@) {
            if xs.len() != 2 {
                Err(IpldErrorView::InvalidShape(v))
            } else {
                match Pos::spec_from_ipld(xs[1]) {
                    Ok(pos) => Ok(TermView::Typ(pos)),
                    Err(e) => Err(e),
                }
            }
        } else if tag == Some("Ann"@) {
            if xs.len() != 4 {
                Err(IpldErrorView::InvalidShape(v))
            } else {
                match (
                    Pos::spec_from_ipld(xs[1]),
                    Self::from_ipld_open(xs[2]),
                    Self::from_ipld_open(xs[3]),
                ) {
                    (Ok(pos), Ok(typ), Ok(value)) => Ok(
                        TermView::Ann(pos, Box::new(typ), Box::new(value)),
                    ),
                    (Err(e), _, _) => Err(e),
                    (_, Err(e), _) => Err(e),
                    (_, _, Err(e)) => Err(e),
                }
            }
        } else if tag == Some("Lit"@) {
            if xs.len() != 3 {
                Err(IpldErrorView::InvalidShape(v))
            } else {
                match (
                    Pos::spec_from_ipld(xs[1]),
                    LiteralView::from_ipld(xs[2]),
                ) {
                    (Ok(pos), Ok(literal)) => Ok(
                        TermView::Lit(pos, literal),
                    ),
                    (Err(e), _) => Err(e),
                    (_, Err(e)) => Err(e),
                }
            }
        } else if tag == Some("LTy"@) {
            if xs.len() != 3 {
                Err(IpldErrorView::InvalidShape(v))
            } else {
                match (
                    Pos::spec_from_ipld(xs[1]),
                    PrimType::spec_from_ipld(xs[2]),
                ) {
                    (Ok(pos), Ok(typ)) => Ok(
                        TermView::LTy(pos, typ),
                    ),
                    (Err(e), _) => Err(e),
                    (_, Err(e)) => Err(e),
                }
            }
        } else if tag == Some("Opr"@) {
            if xs.len() != 3 {
                Err(IpldErrorView::InvalidShape(v))
            } else {
                match (
                    Pos::spec_from_ipld(xs[1]),
                    PrimOp::spec_from_ipld(xs[2]),
                ) {
                    (Ok(pos), Ok(op)) => Ok(
                        TermView::Opr(pos, op),
                    ),
                    (Err(e), _) => Err(e),
                    (_, Err(e)) => Err(e),
                }
            }
        } else if tag == Some("Rec"@) {
            if xs.len() != 2 {
                Err(IpldErrorView::InvalidShape(v))
            } else {
                match Pos::spec_from_ipld(xs[1]) {
                    Ok(pos) => Ok(TermView::Rec(pos)),
                    Err(e) => Err(e),
                }
            }
        } else if tag is Some {
            Err(IpldErrorView::UnknownTag(v))
        } else {
            Err(IpldErrorView::InvalidShape(v))
        }
    }
}

impl TermView {
    /// Every identifier exists.
    pub open spec fn valid(self) -> bool
        decreases self,
    {
        match self {
            TermView::Var(pos, _, _) => Pos::valid(pos),
            TermView::Lam(pos, _, body) => Pos::valid(pos) && body.valid(),
            TermView::App(pos, function, argument) => {
                &&& Pos::valid(pos)
                &&& function.valid()
                &&& argument.valid()
            },
            TermView::All(pos, _, _, domain, image) => {
                &&& Pos::valid(pos)
                &&& domain.valid()
                &&& image.valid()
            },
            TermView::Slf(pos, _, body) => Pos::valid(pos) && body.valid(),
            TermView::Dat(pos, body) => Pos::valid(pos) && body.valid(),
            TermView::Cse(pos, body) => Pos::valid(pos) && body.valid(),
            TermView::Ref(pos, _, def, ast) => {
                &&& Pos::valid(pos)
                &&& def.valid()
                &&& ast.valid()
            },
            TermView::Let(pos, _, _, _, typ, value, body) => {
                &&& Pos::valid(pos)
                &&& typ.valid()
                &&& value.valid()
                &&& body.valid()
            },
            TermView::Typ(pos) => Pos::valid(pos),
            TermView::Ann(pos, typ, value) => {
                &&& Pos::valid(pos)
                &&& typ.valid()
                &&& value.valid()
            },
            TermView::Lit(pos, _) => Pos::valid(pos),
            TermView::LTy(pos, _) => Pos::valid(pos),
            TermView::Opr(pos, _) => Pos::valid(pos),
            TermView::Rec(pos) => Pos::valid(pos),
        }
    }
}

proof fn lemma_tags()
    ensures
        fingerprint("Var"@) == (3nat, 'V', 'a', 'r', ' ', 'r'),
        fingerprint("Lam"@) == (3nat, 'L', 'a', 'm', ' ', 'm'),
        fingerprint("App"@) == (3nat, 'A', 'p', 'p', ' ', 'p'),
        fingerprint("All"@) == (3nat, 'A', 'l', 'l', ' ', 'l'),
        fingerprint("Slf"@) == (3nat, 'S', 'l', 'f', ' ', 'f'),
        fingerprint("Dat"@) == (3nat, 'D', 'a', 't', ' ', 't'),
        fingerprint("Cse"@) == (3nat, 'C', 's', 'e', ' ', 'e'),
        fingerprint("Ref"@) == (3nat, 'R', 'e', 'f', ' ', 'f'),
        fingerprint("Let"@) == (3nat, 'L', 'e', 't', ' ', 't'),
        fingerprint("Typ"@) == (3nat, 'T', 'y', 'p', ' ', 'p'),
        fingerprint("Ann"@) == (3nat, 'A', 'n', 'n', ' ', 'n'),
        fingerprint("Lit"@) == (3nat, 'L', 'i', 't', ' ', 't'),
        fingerprint("LTy"@) == (3nat, 'L', 'T', 'y', ' ', 'y'),
        fingerprint("Opr"@) == (3nat, 'O', 'p', 'r', ' ', 'r'),
        fingerprint("Rec"@) == (3nat, 'R', 'e', 'c', ' ', 'c'),
{
    reveal_strlit("Var");
    assert(fingerprint("Var"@) == (3nat, 'V', 'a', 'r', ' ', 'r'));
    reveal_strlit("Lam");
    assert(fingerprint("Lam"@) == (3nat, 'L', 'a', 'm', ' ', 'm'));
    reveal_strlit("App");
    assert(fingerprint("App"@) == (3nat, 'A', 'p', 'p', ' ', 'p'));
    reveal_strlit("All");
    assert(fingerprint("All"@) == (3nat, 'A', 'l', 'l', ' ', 'l'));
    reveal_strlit("Slf");
    assert(fingerprint("Slf"@) == (3nat, 'S', 'l', 'f', ' ', 'f'));
    reveal_strlit("Dat");
    assert(fingerprint("Dat"@) == (3nat, 'D', 'a', 't', ' ', 't'));
    reveal_strlit("Cse");
    assert(fingerprint("Cse"@) == (3nat, 'C', 's', 'e', ' ', 'e'));
    reveal_strlit("Ref");
    assert(fingerprint("Ref"@) == (3nat, 'R', 'e', 'f', ' ', 'f'));
    reveal_strlit("Let");
    assert(fingerprint("Let"@) == (3nat, 'L', 'e', 't', ' ', 't'));
    reveal_strlit("Typ");
    assert(fingerprint("Typ"@) == (3nat, 'T', 'y', 'p', ' ', 'p'));
    reveal_strlit("Ann");
    assert(fingerprint("Ann"@) == (3nat, 'A', 'n', 'n', ' ', 'n'));
    reveal_strlit("Lit");
    assert(fingerprint("Lit"@) == (3nat, 'L', 'i', 't', ' ', 't'));
    reveal_strlit("LTy");
    assert(fingerprint("LTy"@) == (3nat, 'L', 'T', 'y', ' ', 'y'));
    reveal_strlit("Opr");
    assert(fingerprint("Opr"@) == (3nat, 'O', 'p', 'r', ' ', 'r'));
    reveal_strlit("Rec");
    assert(fingerprint("Rec"@) == (3nat, 'R', 'e', 'c', ' ', 'c'));
}

proof fn lemma_step_var(t: TermView)
    requires
        t is Var,
    ensures
        TermView::from_ipld_open(t.to_ipld()) == Ok::<TermView, IpldErrorView>(t),
{
    lemma_tags();
    match t {
        TermView::Var(pos, name, index) => {
            Pos::lemma_roundtrip(pos);
        },
        _ => {},
    }
}

proof fn lemma_step_lam(t: TermView)
    requires
        t is Lam,
        TermView::from_ipld_open((*t->Lam_2).to_ipld()) == Ok::<TermView, IpldErrorView>(*t->Lam_2),
    ensures
        TermView::from_ipld_open(t.to_ipld()) == Ok::<TermView, IpldErrorView>(t),
{
    lemma_tags();
    match t {
        TermView::Lam(pos, name, body) => {
            Pos::lemma_roundtrip(pos);
        },
        _ => {},
    }
}

proof fn lemma_step_app(t: TermView)
    requires
        t is App,
        TermView::from_ipld_open((*t->App_1).to_ipld()) == Ok::<TermView, IpldErrorView>(*t->App_1),
        TermView::from_ipld_open((*t->App_2).to_ipld()) == Ok::<TermView, IpldErrorView>(*t->App_2),
    ensures
        TermView::from_ipld_open(t.to_ipld()) == Ok::<TermView, IpldErrorView>(t),
{
    lemma_tags();
    match t {
        TermView::App(pos, function, argument) => {
            Pos::lemma_roundtrip(pos);
        },
        _ => {},
    }
}

proof fn lemma_step_all(t: TermView)
    requires
        t is All,
        TermView::from_ipld_open((*t->All_3).to_ipld()) == Ok::<TermView, IpldErrorView>(*t->All_3),
        TermView::from_ipld_open((*t->All_4).to_ipld()) == Ok::<TermView, IpldErrorView>(*t->All_4),
    ensures
        TermView::from_ipld_open(t.to_ipld()) == Ok::<TermView, IpldErrorView>(t),
{
    lemma_tags();
    match t {
        TermView::All(pos, uses, name, domain, image) => {
            Pos::lemma_roundtrip(pos);
            lemma_uses_roundtrip(uses);
        },
        _ => {},
    }
}

proof fn lemma_step_slf(t: TermView)
    requires
        t is Slf,
        TermView::from_ipld_open((*t->Slf_2).to_ipld()) == Ok::<TermView, IpldErrorView>(*t->Slf_2),
    ensures
        TermView::from_ipld_open(t.to_ipld()) == Ok::<TermView, IpldErrorView>(t),
{
    lemma_tags();
    match t {
        TermView::Slf(pos, name, body) => {
            Pos::lemma_roundtrip(pos);
        },
        _ => {},
    }
}

proof fn lemma_step_dat(t: TermView)
    requires
        t is Dat,
        TermView::from_ipld_open((*t->Dat_1).to_ipld()) == Ok::<TermView, IpldErrorView>(*t->Dat_1),
    ensures
        TermView::from_ipld_open(t.to_ipld()) == Ok::<TermView, IpldErrorView>(t),
{
    lemma_tags();
    match t {
        TermView::Dat(pos, body) => {
            Pos::lemma_roundtrip(pos);
        },
        _ => {},
    }
}

proof fn lemma_step_cse(t: TermView)
    requires
        t is Cse,
        TermView::from_ipld_open((*t->Cse_1).to_ipld()) == Ok::<TermView, IpldErrorView>(*t->Cse_1),
    ensures
        TermView::from_ipld_open(t.to_ipld()) == Ok::<TermView, IpldErrorView>(t),
{
    lemma_tags();
    match t {
        TermView::Cse(pos, body) => {
            Pos::lemma_roundtrip(pos);
        },
        _ => {},
    }
}

proof fn lemma_step_ref(t: TermView)
    requires
        t is Ref,
    ensures
        TermView::from_ipld_open(t.to_ipld()) == Ok::<TermView, IpldErrorView>(t),
{
    lemma_tags();
    match t {
        TermView::Ref(pos, name, def, ast) => {
            Pos::lemma_roundtrip(pos);
        },
        _ => {},
    }
}

proof fn lemma_step_let(t: TermView)
    requires
        t is Let,
        TermView::from_ipld_open((*t->Let_4).to_ipld()) == Ok::<TermView, IpldErrorView>(*t->Let_4),
        TermView::from_ipld_open((*t->Let_5).to_ipld()) == Ok::<TermView, IpldErrorView>(*t->Let_5),
        TermView::from_ipld_open((*t->Let_6).to_ipld()) == Ok::<TermView, IpldErrorView>(*t->Let_6),
    ensures
        TermView::from_ipld_open(t.to_ipld()) == Ok::<TermView, IpldErrorView>(t),
{
    lemma_tags();
    match t {
        TermView::Let(pos, recursive, uses, name, typ, value, body) => {
            Pos::lemma_roundtrip(pos);
            lemma_uses_roundtrip(uses);
        },
        _ => {},
    }
}

proof fn lemma_step_typ(t: TermView)
    requires
        t is Typ,
    ensures
        TermView::from_ipld_open(t.to_ipld()) == Ok::<TermView, IpldErrorView>(t),
{
    lemma_tags();
    match t {
        TermView::Typ(pos) => {
            Pos::lemma_roundtrip(pos);
        },
        _ => {},
    }
}

proof fn lemma_step_ann(t: TermView)
    requires
        t is Ann,
        TermView::from_ipld_open((*t->Ann_1).to_ipld()) == Ok::<TermView, IpldErrorView>(*t->Ann_1),
        TermView::from_ipld_open((*t->Ann_2).to_ipld()) == Ok::<TermView, IpldErrorView>(*t->Ann_2),
    ensures
        TermView::from_ipld_open(t.to_ipld()) == Ok::<TermView, IpldErrorView>(t),
{
    lemma_tags();
    match t {
        TermView::Ann(pos, typ, value) => {
            Pos::lemma_roundtrip(pos);
        },
        _ => {},
    }
}

proof fn lemma_step_lit(t: TermView)
    requires
        t is Lit,
    ensures
        TermView::from_ipld_open(t.to_ipld()) == Ok::<TermView, IpldErrorView>(t),
{
    lemma_tags();
    match t {
        TermView::Lit(pos, literal) => {
            Pos::lemma_roundtrip(pos);
            lemma_literal_roundtrip(literal);
        },
        _ => {},
    }
}

proof fn lemma_step_lty(t: TermView)
    requires
        t is LTy,
    ensures
        TermView::from_ipld_open(t.to_ipld()) == Ok::<TermView, IpldErrorView>(t),
{
    lemma_tags();
    match t {
        TermView::LTy(pos, typ) => {
            Pos::lemma_roundtrip(pos);
            lemma_type_roundtrip(typ);
        },
        _ => {},
    }
}

proof fn lemma_step_opr(t: TermView)
    requires
        t is Opr,
    ensures
        TermView::from_ipld_open(t.to_ipld()) == Ok::<TermView, IpldErrorView>(t),
{
    lemma_tags();
    match t {
        TermView::Opr(pos, op) => {
            Pos::lemma_roundtrip(pos);
            lemma_op_roundtrip(op);
        },
        _ => {},
    }
}

proof fn lemma_step_rec(t: TermView)
    requires
        t is Rec,
    ensures
        TermView::from_ipld_open(t.to_ipld()) == Ok::<TermView, IpldErrorView>(t),
{
    lemma_tags();
    match t {
        TermView::Rec(pos) => {
            Pos::lemma_roundtrip(pos);
        },
        _ => {},
    }
}

/// Decoding the canonical form gives back what was encoded.
pub proof fn lemma_open_roundtrip(t: TermView)
    ensures
        TermView::from_ipld_open(t.to_ipld()) == Ok::<TermView, IpldErrorView>(t),
    decreases t,
{
    match t {
        TermView::Var(_, _, _) => {
            lemma_step_var(t);
        },
        TermView::Lam(_, _, body) => {
            lemma_open_roundtrip(*body);
            lemma_step_lam(t);
        },
        TermView::App(_, function, argument) => {
            lemma_open_roundtrip(*function);
            lemma_open_roundtrip(*argument);
            lemma_step_app(t);
        },
        TermView::All(_, _, _, domain, image) => {
            lemma_open_roundtrip(*domain);
            lemma_open_roundtrip(*image);
            lemma_step_all(t);
        },
        TermView::Slf(_, _, body) => {
            lemma_open_roundtrip(*body);
            lemma_step_slf(t);
        },
        TermView::Dat(_, body) => {
            lemma_open_roundtrip(*body);
            lemma_step_dat(t);
        },
        TermView::Cse(_, body) => {
            lemma_open_roundtrip(*body);
            lemma_step_cse(t);
        },
        TermView::Ref(_, _, _, _) => {
            lemma_step_ref(t);
        },
        TermView::Let(_, _, _, _, typ, value, body) => {
            lemma_open_roundtrip(*typ);
            lemma_open_roundtrip(*value);
            lemma_open_roundtrip(*body);
            lemma_step_let(t);
        },
        TermView::Typ(_) => {
            lemma_step_typ(t);
        },
        TermView::Ann(_, typ, value) => {
            lemma_open_roundtrip(*typ);
            lemma_open_roundtrip(*value);
            lemma_step_ann(t);
        },
        TermView::Lit(_, _) => {
            lemma_step_lit(t);
        },
        TermView::LTy(_, _) => {
            lemma_step_lty(t);
        },
        TermView::Opr(_, _) => {
            lemma_step_opr(t);
        },
        TermView::Rec(_) => {
            lemma_step_rec(t);
        },
    }
}

proof fn lemma_block_var(t: TermView)
    requires
        t is Var,
        t.valid(),
    ensures
        t.to_ipld().encodable(),
{
    reveal_with_fuel(ValueView::encodable, 3);
    match t {
        TermView::Var(pos, name, index) => {
            Pos::lemma_encodable(pos);
            let xs = t.to_ipld()->List_0;
            assert forall|j: int| 0 <= j < xs.len() implies (#[trigger] xs[j]).encodable() by {
            }
        },
        _ => {},
    }
}

proof fn lemma_block_lam(t: TermView)
    requires
        t is Lam,
        t.valid(),
        (*t->Lam_2).to_ipld().encodable(),
    ensures
        t.to_ipld().encodable(),
{
    reveal_with_fuel(ValueView::encodable, 3);
    match t {
        TermView::Lam(pos, name, body) => {
            Pos::lemma_encodable(pos);
            let xs = t.to_ipld()->List_0;
            assert forall|j: int| 0 <= j < xs.len() implies (#[trigger] xs[j]).encodable() by {
            }
        },
        _ => {},
    }
}

proof fn lemma_block_app(t: TermView)
    requires
        t is App,
        t.valid(),
        (*t->App_1).to_ipld().encodable(),
        (*t->App_2).to_ipld().encodable(),
    ensures
        t.to_ipld().encodable(),
{
    reveal_with_fuel(ValueView::encodable, 3);
    match t {
        TermView::App(pos, function, argument) => {
            Pos::lemma_encodable(pos);
            let xs = t.to_ipld()->List_0;
            assert forall|j: int| 0 <= j < xs.len() implies (#[trigger] xs[j]).encodable() by {
            }
        },
        _ => {},
    }
}

proof fn lemma_block_all(t: TermView)
    requires
        t is All,
        t.valid(),
        (*t->All_3).to_ipld().encodable(),
        (*t->All_4).to_ipld().encodable(),
    ensures
        t.to_ipld().encodable(),
{
    reveal_with_fuel(ValueView::encodable, 3);
    match t {
        TermView::All(pos, uses, name, domain, image) => {
            Pos::lemma_encodable(pos);
            let xs = t.to_ipld()->List_0;
            assert forall|j: int| 0 <= j < xs.len() implies (#[trigger] xs[j]).encodable() by {
            }
        },
        _ => {},
    }
}

proof fn lemma_block_slf(t: TermView)
    requires
        t is Slf,
        t.valid(),
        (*t->Slf_2).to_ipld().encodable(),
    ensures
        t.to_ipld().encodable(),
{
    reveal_with_fuel(ValueView::encodable, 3);
    match t {
        TermView::Slf(pos, name, body) => {
            Pos::lemma_encodable(pos);
            let xs = t.to_ipld()->List_0;
            assert forall|j: int| 0 <= j < xs.len() implies (#[trigger] xs[j]).encodable() by {
            }
        },
        _ => {},
    }
}

proof fn lemma_block_dat(t: TermView)
    requires
        t is Dat,
        t.valid(),
        (*t->Dat_1).to_ipld().encodable(),
    ensures
        t.to_ipld().encodable(),
{
    reveal_with_fuel(ValueView::encodable, 3);
    match t {
        TermView::Dat(pos, body) => {
            Pos::lemma_encodable(pos);
            let xs = t.to_ipld()->List_0;
            assert forall|j: int| 0 <= j < xs.len() implies (#[trigger] xs[j]).encodable() by {
            }
        },
        _ => {},
    }
}

proof fn lemma_block_cse(t: TermView)
    requires
        t is Cse,
        t.valid(),
        (*t->Cse_1).to_ipld().encodable(),
    ensures
        t.to_ipld().encodable(),
{
    reveal_with_fuel(ValueView::encodable, 3);
    match t {
        TermView::Cse(pos, body) => {
            Pos::lemma_encodable(pos);
            let xs = t.to_ipld()->List_0;
            assert forall|j: int| 0 <= j < xs.len() implies (#[trigger] xs[j]).encodable() by {
            }
        },
        _ => {},
    }
}

proof fn lemma_block_ref(t: TermView)
    requires
        t is Ref,
        t.valid(),
    ensures
        t.to_ipld().encodable(),
{
    reveal_with_fuel(ValueView::encodable, 3);
    match t {
        TermView::Ref(pos, name, def, ast) => {
            Pos::lemma_encodable(pos);
            let xs = t.to_ipld()->List_0;
            assert forall|j: int| 0 <= j < xs.len() implies (#[trigger] xs[j]).encodable() by {
            }
        },
        _ => {},
    }
}

proof fn lemma_block_let(t: TermView)
    requires
        t is Let,
        t.valid(),
        (*t->Let_4).to_ipld().encodable(),
        (*t->Let_5).to_ipld().encodable(),
        (*t->Let_6).to_ipld().encodable(),
    ensures
        t.to_ipld().encodable(),
{
    reveal_with_fuel(ValueView::encodable, 3);
    match t {
        TermView::Let(pos, recursive, uses, name, typ, value, body) => {
            Pos::lemma_encodable(pos);
            let xs = t.to_ipld()->List_0;
            assert forall|j: int| 0 <= j < xs.len() implies (#[trigger] xs[j]).encodable() by {
            }
        },
        _ => {},
    }
}

proof fn lemma_block_typ(t: TermView)
    requires
        t is Typ,
        t.valid(),
    ensures
        t.to_ipld().encodable(),
{
    reveal_with_fuel(ValueView::encodable, 3);
    match t {
        TermView::Typ(pos) => {
            Pos::lemma_encodable(pos);
            let xs = t.to_ipld()->List_0;
            assert forall|j: int| 0 <= j < xs.len() implies (#[trigger] xs[j]).encodable() by {
            }
        },
        _ => {},
    }
}

proof fn lemma_block_ann(t: TermView)
    requires
        t is Ann,
        t.valid(),
        (*t->Ann_1).to_ipld().encodable(),
        (*t->Ann_2).to_ipld().encodable(),
    ensures
        t.to_ipld().encodable(),
{
    reveal_with_fuel(ValueView::encodable, 3);
    match t {
        TermView::Ann(pos, typ, value) => {
            Pos::lemma_encodable(pos);
            let xs = t.to_ipld()->List_0;
            assert forall|j: int| 0 <= j < xs.len() implies (#[trigger] xs[j]).encodable() by {
            }
        },
        _ => {},
    }
}

proof fn lemma_block_lit(t: TermView)
    requires
        t is Lit,
        t.valid(),
    ensures
        t.to_ipld().encodable(),
{
    reveal_with_fuel(ValueView::encodable, 3);
    match t {
        TermView::Lit(pos, literal) => {
            Pos::lemma_encodable(pos);
            lemma_literal_encodable(literal);
            let xs = t.to_ipld()->List_0;
            assert forall|j: int| 0 <= j < xs.len() implies (#[trigger] xs[j]).encodable() by {
            }
        },
        _ => {},
    }
}

proof fn lemma_block_lty(t: TermView)
    requires
        t is LTy,
        t.valid(),
    ensures
        t.to_ipld().encodable(),
{
    reveal_with_fuel(ValueView::encodable, 3);
    match t {
        TermView::LTy(pos, typ) => {
            Pos::lemma_encodable(pos);
            let ys = typ.spec_to_ipld()->List_0;
            assert forall|j: int| 0 <= j < ys.len() implies (#[trigger] ys[j]).encodable() by {
            }
            let xs = t.to_ipld()->List_0;
            assert forall|j: int| 0 <= j < xs.len() implies (#[trigger] xs[j]).encodable() by {
            }
        },
        _ => {},
    }
}

proof fn lemma_block_opr(t: TermView)
    requires
        t is Opr,
        t.valid(),
    ensures
        t.to_ipld().encodable(),
{
    reveal_with_fuel(ValueView::encodable, 3);
    match t {
        TermView::Opr(pos, op) => {
            Pos::lemma_encodable(pos);
            let ys = op.spec_to_ipld()->List_0;
            assert forall|j: int| 0 <= j < ys.len() implies (#[trigger] ys[j]).encodable() by {
            }
            let xs = t.to_ipld()->List_0;
            assert forall|j: int| 0 <= j < xs.len() implies (#[trigger] xs[j]).encodable() by {
            }
        },
        _ => {},
    }
}

proof fn lemma_block_rec(t: TermView)
    requires
        t is Rec,
        t.valid(),
    ensures
        t.to_ipld().encodable(),
{
    reveal_with_fuel(ValueView::encodable, 3);
    match t {
        TermView::Rec(pos) => {
            Pos::lemma_encodable(pos);
            let xs = t.to_ipld()->List_0;
            assert forall|j: int| 0 <= j < xs.len() implies (#[trigger] xs[j]).encodable() by {
            }
        },
        _ => {},
    }
}

/// The canonical form has a block where every identifier exists.
pub proof fn lemma_encodable(t: TermView)
    requires
        t.valid(),
    ensures
        t.to_ipld().encodable(),
    decreases t,
{
    match t {
        TermView::Var(_, _, _) => {
            lemma_block_var(t);
        },
        TermView::Lam(_, _, body) => {
            lemma_encodable(*body);
            lemma_block_lam(t);
        },
        TermView::App(_, function, argument) => {
            lemma_encodable(*function);
            lemma_encodable(*argument);
            lemma_block_app(t);
        },
        TermView::All(_, _, _, domain, image) => {
            lemma_encodable(*domain);
            lemma_encodable(*image);
            lemma_block_all(t);
        },
        TermView::Slf(_, _, body) => {
            lemma_encodable(*body);
            lemma_block_slf(t);
        },
        TermView::Dat(_, body) => {
            lemma_encodable(*body);
            lemma_block_dat(t);
        },
        TermView::Cse(_, body) => {
            lemma_encodable(*body);
            lemma_block_cse(t);
        },
        TermView::Ref(_, _, _, _) => {
            lemma_block_ref(t);
        },
        TermView::Let(_, _, _, _, typ, value, body) => {
            lemma_encodable(*typ);
            lemma_encodable(*value);
            lemma_encodable(*body);
            lemma_block_let(t);
        },
        TermView::Typ(_) => {
            lemma_block_typ(t);
        },
        TermView::Ann(_, typ, value) => {
            lemma_encodable(*typ);
            lemma_encodable(*value);
            lemma_block_ann(t);
        },
        TermView::Lit(_, _) => {
            lemma_block_lit(t);
        },
        TermView::LTy(_, _) => {
            lemma_block_lty(t);
        },
        TermView::Opr(_, _) => {
            lemma_block_opr(t);
        },
        TermView::Rec(_) => {
            lemma_block_rec(t);
        },
    }
}

impl Term {
    /// The canonical form.
    pub fn to_ipld(&self) -> (v: Value)
        ensures
            v@ == self@.to_ipld(),
        decreases self,
    {
        match self {
            Term::Var(pos, name, index) => tagged3(
                "Var",
                pos.to_ipld(),
                Value::String(name.clone()),
                Value::Integer(*index as i128),
            ),
            Term::Lam(pos, name, body) => tagged3(
                "Lam",
                pos.to_ipld(),
                Value::String(name.clone()),
                (**body).to_ipld(),
            ),
            Term::App(pos, function, argument) => tagged3(
                "App",
                pos.to_ipld(),
                (**function).to_ipld(),
                (**argument).to_ipld(),
            ),
            Term::All(pos, uses, name, domain, image) => tagged5(
                "All",
                pos.to_ipld(),
                uses.to_ipld(),
                Value::String(name.clone()),
                (**domain).to_ipld(),
                (**image).to_ipld(),
            ),
            Term::Slf(pos, name, body) => tagged3(
                "Slf",
                pos.to_ipld(),
                Value::String(name.clone()),
                (**body).to_ipld(),
            ),
            Term::Dat(pos, body) => tagged2("Dat", pos.to_ipld(), (**body).to_ipld()),
            Term::Cse(pos, body) => tagged2("Cse", pos.to_ipld(), (**body).to_ipld()),
            Term::Ref(pos, name, def, ast) => tagged4(
                "Ref",
                pos.to_ipld(),
                Value::String(name.clone()),
                Value::Link(def.clone()),
                Value::Link(ast.clone()),
            ),
            Term::Let(pos, recursive, uses, name, typ, value, body) => tagged7(
                "Let",
                pos.to_ipld(),
                Value::Bool(*recursive),
                uses.to_ipld(),
                Value::String(name.clone()),
                (**typ).to_ipld(),
                (**value).to_ipld(),
                (**body).to_ipld(),
            ),
            Term::Typ(pos) => tagged1("Typ", pos.to_ipld()),
            Term::Ann(pos, typ, value) => tagged3(
                "Ann",
                pos.to_ipld(),
                (**typ).to_ipld(),
                (**value).to_ipld(),
            ),
            Term::Lit(pos, literal) => tagged2("Lit", pos.to_ipld(), literal.to_ipld()),
            Term::LTy(pos, typ) => tagged2("LTy", pos.to_ipld(), typ.to_ipld()),
            Term::Opr(pos, op) => tagged2("Opr", pos.to_ipld(), op.to_ipld()),
            Term::Rec(pos) => tagged1("Rec", pos.to_ipld()),
        }
    }

    /// What a value is the canonical form of.
    pub fn from_ipld_open(ipld: &Value) -> (r: Result<Term, IpldError>)
        ensures
            decoded(r) == TermView::from_ipld_open(ipld@),
        decreases ipld,
    {
        let (tag, xs) = match tagged(ipld) {
            Some(parts) => parts,
            None => {
                return Err(IpldError::InvalidShape(ipld.clone()));
            },
        };
        if same_text(tag, "Var") {
            if xs.len() != 4 {
                return Err(IpldError::InvalidShape(ipld.clone()));
            }
            let pos = Pos::from_ipld(&xs[1])?;
            let name = string_field(ipld, &xs[2])?;
            let index = index_field(ipld, &xs[3])?;
            Ok(Term::Var(pos, name, index))
        } else if same_text(tag, "Lam") {
            if xs.len() != 4 {
                return Err(IpldError::InvalidShape(ipld.clone()));
            }
            let pos = Pos::from_ipld(&xs[1])?;
            let name = string_field(ipld, &xs[2])?;
            let body = Term::from_ipld_open(&xs[3])?;
            Ok(Term::Lam(pos, name, Box::new(body)))
        } else if same_text(tag, "App") {
            if xs.len() != 4 {
                return Err(IpldError::InvalidShape(ipld.clone()));
            }
            let pos = Pos::from_ipld(&xs[1])?;
            let function = Term::from_ipld_open(&xs[2])?;
            let argument = Term::from_ipld_open(&xs[3])?;
            Ok(Term::App(pos, Box::new(function), Box::new(argument)))
        } else if same_text(tag, "All") {
            if xs.len() != 6 {
                return Err(IpldError::InvalidShape(ipld.clone()));
            }
            let pos = Pos::from_ipld(&xs[1])?;
            let uses = Uses::from_ipld(&xs[2])?;
            let name = string_field(ipld, &xs[3])?;
            let domain = Term::from_ipld_open(&xs[4])?;
            let image = Term::from_ipld_open(&xs[5])?;
            Ok(Term::All(pos, uses, name, Box::new(domain), Box::new(image)))
        } else if same_text(tag, "Slf") {
            if xs.len() != 4 {
                return Err(IpldError::InvalidShape(ipld.clone()));
            }
            let pos = Pos::from_ipld(&xs[1])?;
            let name = string_field(ipld, &xs[2])?;
            let body = Term::from_ipld_open(&xs[3])?;
            Ok(Term::Slf(pos, name, Box::new(body)))
        } else if same_text(tag, "Dat") {
            if xs.len() != 3 {
                return Err(IpldError::InvalidShape(ipld.clone()));
            }
            let pos = Pos::from_ipld(&xs[1])?;
            let body = Term::from_ipld_open(&xs[2])?;
            Ok(Term::Dat(pos, Box::new(body)))
        } else if same_text(tag, "Cse") {
            if xs.len() != 3 {
                return Err(IpldError::InvalidShape(ipld.clone()));
            }
            let pos = Pos::from_ipld(&xs[1])?;
            let body = Term::from_ipld_open(&xs[2])?;
            Ok(Term::Cse(pos, Box::new(body)))
        } else if same_text(tag, "Ref") {
            if xs.len() != 5 {
                return Err(IpldError::InvalidShape(ipld.clone()));
            }
            let pos = Pos::from_ipld(&xs[1])?;
            let name = string_field(ipld, &xs[2])?;
            let def = link_field(ipld, &xs[3])?;
            let ast = link_field(ipld, &xs[4])?;
            Ok(Term::Ref(pos, name, def, ast))
        } else if same_text(tag, "Let") {
            if xs.len() != 8 {
                return Err(IpldError::InvalidShape(ipld.clone()));
            }
            let pos = Pos::from_ipld(&xs[1])?;
            let recursive = bool_field(ipld, &xs[2])?;
            let uses = Uses::from_ipld(&xs[3])?;
            let name = string_field(ipld, &xs[4])?;
            let typ = Term::from_ipld_open(&xs[5])?;
            let value = Term::from_ipld_open(&xs[6])?;
            let body = Term::from_ipld_open(&xs[7])?;
            Ok(
                Term::Let(
                    pos,
                    recursive,
                    uses,
                    name,
                    Box::new(typ),
                    Box::new(value),
                    Box::new(body),
                ),
            )
        } else if same_text(tag, "Typ") {
            if xs.len() != 2 {
                return Err(IpldError::InvalidShape(ipld.clone()));
            }
            let pos = Pos::from_ipld(&xs[1])?;
            Ok(Term::Typ(pos))
        } else if same_text(tag, "Ann") {
            if xs.len() != 4 {
                return Err(IpldError::InvalidShape(ipld.clone()));
            }
            let pos = Pos::from_ipld(&xs[1])?;
            let typ = Term::from_ipld_open(&xs[2])?;
            let value = Term::from_ipld_open(&xs[3])?;
            Ok(Term::Ann(pos, Box::new(typ), Box::new(value)))
        } else if same_text(tag, "Lit") {
            if xs.len() != 3 {
                return Err(IpldError::InvalidShape(ipld.clone()));
            }
            let pos = Pos::from_ipld(&xs[1])?;
            let literal = Literal::from_ipld(&xs[2])?;
            Ok(Term::Lit(pos, literal))
        } else if same_text(tag, "LTy") {
            if xs.len() != 3 {
                return Err(IpldError::InvalidShape(ipld.clone()));
            }
            let pos = Pos::from_ipld(&xs[1])?;
            let typ = PrimType::from_ipld(&xs[2])?;
            Ok(Term::LTy(pos, typ))
        } else if same_text(tag, "Opr") {
            if xs.len() != 3 {
                return Err(IpldError::InvalidShape(ipld.clone()));
            }
            let pos = Pos::from_ipld(&xs[1])?;
            let op = PrimOp::from_ipld(&xs[2])?;
            Ok(Term::Opr(pos, op))
        } else if same_text(tag, "Rec") {
            if xs.len() != 2 {
                return Err(IpldError::InvalidShape(ipld.clone()));
            }
            let pos = Pos::from_ipld(&xs[1])?;
            Ok(Term::Rec(pos))
        } else {
            Err(IpldError::UnknownTag(ipld.clone()))
        }
    }
}

impl TermView {
    /// Whether every variable of the term is bound by one of its own binders
    /// or by one of `depth` binders around it, and every reference to a
    /// recursive definition stands in the value or the body of one, of the
    /// term or around it.
    pub open spec fn scoped(self, depth: nat, in_rec: bool) -> bool
        decreases self,
    {
        match self {
            TermView::Var(_, _, index) => index < depth,
            TermView::Lam(_, _, body) => body.scoped(depth + 1, in_rec),
            TermView::App(_, function, argument) => function.scoped(depth, in_rec)
                && argument.scoped(depth, in_rec),
            TermView::All(_, _, _, domain, image) => domain.scoped(depth, in_rec) && image.scoped(
                depth + 1,
                in_rec,
            ),
            TermView::Slf(_, _, body) => body.scoped(depth + 1, in_rec),
            TermView::Dat(_, body) => body.scoped(depth, in_rec),
            TermView::Cse(_, body) => body.scoped(depth, in_rec),
            TermView::Ref(_, _, _, _) => true,
            TermView::Let(_, recursive, _, _, typ, value, body) => typ.scoped(depth, in_rec)
                && value.scoped(depth, in_rec || recursive) && body.scoped(
                depth + 1,
                in_rec || recursive,
            ),
            TermView::Typ(_) => true,
            TermView::Ann(_, typ, value) => typ.scoped(depth, in_rec) && value.scoped(
                depth,
                in_rec,
            ),
            TermView::Lit(_, _) => true,
            TermView::LTy(_, _) => true,
            TermView::Opr(_, _) => true,
            TermView::Rec(_) => in_rec,
        }
    }

    /// The terms that stand on their own: no variable is free, and no
    /// reference to a recursive definition stands outside of one.
    pub open spec fn closed(self) -> bool {
        self.scoped(0, false)
    }

    /// The closed term that a value is the canonical form of: what
    /// `from_ipld_open` reads, where that is closed.
    pub open spec fn from_ipld(v: ValueView) -> Result<TermView, IpldErrorView> {
        match Self::from_ipld_open(v) {
            Err(e) => Err(e),
            Ok(t) => if t.closed() {
                Ok(t)
            } else {
                Err(IpldErrorView::InvariantViolated)
            },
        }
    }
}

/// Decoding the canonical form of a closed term gives the term back.
pub proof fn lemma_roundtrip(t: TermView)
    requires
        t.closed(),
    ensures
        TermView::from_ipld(t.to_ipld()) == Ok::<TermView, IpldErrorView>(t),
{
    lemma_open_roundtrip(t);
}

impl Term {
    /// `scoped`, with the number of binders around the term counted as far
    /// as 64 bits go: `over` says that there are more.
    fn scoped_at(&self, depth: u64, over: bool, in_rec: bool, Ghost(d): Ghost<nat>) -> (b: bool)
        requires
            over ==> d > u64::MAX,
            !over ==> d == depth,
        ensures
            b == self@.scoped(d, in_rec),
        decreases self,
    {
        let inner: u64 = if depth < u64::MAX {
            depth + 1
        } else {
            depth
        };
        let inner_over: bool = over || depth == u64::MAX;
        match self {
            Term::Var(_, _, index) => over || *index < depth,
            Term::Lam(_, _, body) => (**body).scoped_at(inner, inner_over, in_rec, Ghost(d + 1)),
            Term::App(_, function, argument) => (**function).scoped_at(
                depth,
                over,
                in_rec,
                Ghost(d),
            )
                && (**argument).scoped_at(depth, over, in_rec, Ghost(d)),
            Term::All(_, _, _, domain, image) => (**domain).scoped_at(depth, over, in_rec, Ghost(d))
                && (**image).scoped_at(inner, inner_over, in_rec, Ghost(d + 1)),
            Term::Slf(_, _, body) => (**body).scoped_at(inner, inner_over, in_rec, Ghost(d + 1)),
            Term::Dat(_, body) => (**body).scoped_at(depth, over, in_rec, Ghost(d)),
            Term::Cse(_, body) => (**body).scoped_at(depth, over, in_rec, Ghost(d)),
            Term::Ref(_, _, _, _) => true,
            Term::Let(_, recursive, _, _, typ, value, body) => (**typ).scoped_at(
                depth,
                over,
                in_rec,
                Ghost(d),
            ) && (**value).scoped_at(depth, over, in_rec || *recursive, Ghost(d))
                && (**body).scoped_at(inner, inner_over, in_rec || *recursive, Ghost(d + 1)),
            Term::Typ(_) => true,
            Term::Ann(_, typ, value) => (**typ).scoped_at(depth, over, in_rec, Ghost(d))
                && (**value).scoped_at(depth, over, in_rec, Ghost(d)),
            Term::Lit(_, _) => true,
            Term::LTy(_, _) => true,
            Term::Opr(_, _) => true,
            Term::Rec(_) => in_rec,
        }
    }

    /// Whether the term stands on its own.
    pub fn is_closed(&self) -> (b: bool)
        ensures
            b == self@.closed(),
    {
        self.scoped_at(0, false, false, Ghost(0))
    }

    /// The closed term that a value is the canonical form of. A term with a
    /// free variable, or with a reference to a recursive definition outside
    /// of one, violates the invariant of terms.
    pub fn from_ipld(ipld: &Value) -> (r: Result<Term, IpldError>)
        ensures
            decoded(r) == TermView::from_ipld(ipld@),
    {
        match Term::from_ipld_open(ipld) {
            Err(e) => Err(e),
            Ok(t) => if t.is_closed() {
                Ok(t)
            } else {
                Err(IpldError::InvariantViolated)
            },
        }
    }
}

} // verus!
