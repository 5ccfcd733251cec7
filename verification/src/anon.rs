//! Anonymous terms: terms without names and positions. The block of a
//! definition is the block of its anonymous term.

use vstd::prelude::*;
use crate::address::{Cid, CidView};
use crate::bytes::{fingerprint, same_text};
use crate::codec::{block_cid, dag_cbor};
use crate::error::{decoded, IpldError, IpldErrorView};
use crate::ipld::{bool_field, index_field, link_field, spec_bool_field, spec_index_field};
use crate::ipld::{spec_link_field, spec_tag, tagged, tagged0, tagged1, tagged2, tagged3, tagged5};
use crate::ipld::{Value, ValueView};
use crate::literal::{lemma_literal_encodable, lemma_literal_roundtrip, lemma_type_roundtrip};
use crate::literal::{Literal, LiteralView, PrimType};
use crate::prim::{lemma_op_roundtrip, PrimOp};
use crate::uses::{lemma_uses_roundtrip, Uses};

verus! {

/// A term without names and positions.
#[derive(Debug, PartialEq)]
pub enum AnonTerm {
    /// A variable: the number of binders between it and its own.
    Var(u64),
    /// A function: its body.
    Lam(Box<AnonTerm>),
    /// An application: the function, and the argument.
    App(Box<AnonTerm>, Box<AnonTerm>),
    /// A dependent function type: the domain, and the image under one binder.
    All(Uses, Box<AnonTerm>, Box<AnonTerm>),
    /// A self type: its body.
    Slf(Box<AnonTerm>),
    /// The introduction of a value of a self type.
    Dat(Box<AnonTerm>),
    /// The elimination of a value of a self type.
    Cse(Box<AnonTerm>),
    /// A definition: the block of its anonymous term.
    Ref(Cid),
    /// A local definition, recursive or not: the type, the value, the body.
    Let(bool, Uses, Box<AnonTerm>, Box<AnonTerm>, Box<AnonTerm>),
    /// The type of types.
    Typ,
    /// An annotation: the type, and the value.
    Ann(Box<AnonTerm>, Box<AnonTerm>),
    /// A literal.
    Lit(Literal),
    /// The type of a literal.
    LTy(PrimType),
    /// A primitive operation.
    Opr(PrimOp),
    /// Inside a recursive local definition: that definition.
    Rec,
}

/// What an [`AnonTerm`] holds, as mathematical values.
pub enum AnonView {
    Var(u64),
    Lam(Box<AnonView>),
    App(Box<AnonView>, Box<AnonView>),
    All(Uses, Box<AnonView>, Box<AnonView>),
    Slf(Box<AnonView>),
    Dat(Box<AnonView>),
    Cse(Box<AnonView>),
    Ref(CidView),
    Let(bool, Uses, Box<AnonView>, Box<AnonView>, Box<AnonView>),
    Typ,
    Ann(Box<AnonView>, Box<AnonView>),
    Lit(LiteralView),
    LTy(PrimType),
    Opr(PrimOp),
    Rec,
}

impl View for AnonTerm {
    type V = AnonView;

    open spec fn view(&self) -> AnonView
        decreases self,
    {
        match self {
            AnonTerm::Var(index) => AnonView::Var(*index),
            AnonTerm::Lam(body) => AnonView::Lam(Box::new((**body)@)),
            AnonTerm::App(function, argument) => AnonView::App(
                Box::new((**function)@),
                Box::new((**argument)@),
            ),
            AnonTerm::All(uses, domain, image) => AnonView::All(
                *uses,
                Box::new((**domain)@),
                Box::new((**image)@),
            ),
            AnonTerm::Slf(body) => AnonView::Slf(Box::new((**body)@)),
            AnonTerm::Dat(body) => AnonView::Dat(Box::new((**body)@)),
            AnonTerm::Cse(body) => AnonView::Cse(Box::new((**body)@)),
            AnonTerm::Ref(ast) => AnonView::Ref(ast@),
            AnonTerm::Let(recursive, uses, typ, value, body) => AnonView::Let(
                *recursive,
                *uses,
                Box::new((**typ)@),
                Box::new((**value)@),
                Box::new((**body)@),
            ),
            AnonTerm::Typ => AnonView::Typ,
            AnonTerm::Ann(typ, value) => AnonView::Ann(Box::new((**typ)@), Box::new((**value)@)),
            AnonTerm::Lit(literal) => AnonView::Lit(literal@),
            AnonTerm::LTy(typ) => AnonView::LTy(*typ),
            AnonTerm::Opr(op) => AnonView::Opr(*op),
            AnonTerm::Rec => AnonView::Rec,
        }
    }
}

impl Clone for AnonTerm {
    fn clone(&self) -> (r: Self)
        ensures
            r@ == self@,
        decreases self,
    {
        match self {
            AnonTerm::Var(index) => AnonTerm::Var(*index),
            AnonTerm::Lam(body) => AnonTerm::Lam(Box::new((**body).clone())),
            AnonTerm::App(function, argument) => AnonTerm::App(
                Box::new((**function).clone()),
                Box::new((**argument).clone()),
            ),
            AnonTerm::All(uses, domain, image) => AnonTerm::All(
                *uses,
                Box::new((**domain).clone()),
                Box::new((**image).clone()),
            ),
            AnonTerm::Slf(body) => AnonTerm::Slf(Box::new((**body).clone())),
            AnonTerm::Dat(body) => AnonTerm::Dat(Box::new((**body).clone())),
            AnonTerm::Cse(body) => AnonTerm::Cse(Box::new((**body).clone())),
            AnonTerm::Ref(ast) => AnonTerm::Ref(ast.clone()),
            AnonTerm::Let(recursive, uses, typ, value, body) => AnonTerm::Let(
                *recursive,
                *uses,
                Box::new((**typ).clone()),
                Box::new((**value).clone()),
                Box::new((**body).clone()),
            ),
            AnonTerm::Typ => AnonTerm::Typ,
            AnonTerm::Ann(typ, value) => AnonTerm::Ann(
                Box::new((**typ).clone()),
                Box::new((**value).clone()),
            ),
            AnonTerm::Lit(literal) => AnonTerm::Lit(literal.clone()),
            AnonTerm::LTy(typ) => AnonTerm::LTy(*typ),
            AnonTerm::Opr(op) => AnonTerm::Opr(*op),
            AnonTerm::Rec => AnonTerm::Rec,
        }
    }
}

impl AnonView {
    /// The canonical form: a list of the name of the constructor and what
    /// it holds, in order.
    pub open spec fn to_ipld(self) -> ValueView
        decreases self,
    {
        match self {
            AnonView::Var(index) => ValueView::List(
                seq![
                    ValueView::String("Var"@),
                    ValueView::Integer(index as int),
                ],
            ),
            AnonView::Lam(body) => ValueView::List(
                seq![
                    ValueView::String("Lam"@),
                    (*body).to_ipld(),
                ],
            ),
            AnonView::App(function, argument) => ValueView::List(
                seq![
                    ValueView::String("App"@),
                    (*function).to_ipld(),
                    (*argument).to_ipld(),
                ],
            ),
            AnonView::All(uses, domain, image) => ValueView::List(
                seq![
                    ValueView::String("All"@),
                    uses.spec_to_ipld(),
                    (*domain).to_ipld(),
                    (*image).to_ipld(),
                ],
            ),
            AnonView::Slf(body) => ValueView::List(
                seq![
                    ValueView::String("Slf"@),
                    (*body).to_ipld(),
                ],
            ),
            AnonView::Dat(body) => ValueView::List(
                seq![
                    ValueView::String("Dat"@),
                    (*body).to_ipld(),
                ],
            ),
            AnonView::Cse(body) => ValueView::List(
                seq![
                    ValueView::String("Cse"@),
                    (*body).to_ipld(),
                ],
            ),
            AnonView::Ref(ast) => ValueView::List(
                seq![
                    ValueView::String("Ref"@),
                    ValueView::Link(ast),
                ],
            ),
            AnonView::Let(recursive, uses, typ, value, body) => ValueView::List(
                seq![
                    ValueView::String("Let"@),
                    ValueView::Bool(recursive),
                    uses.spec_to_ipld(),
                    (*typ).to_ipld(),
                    (*value).to_ipld(),
                    (*body).to_ipld(),
                ],
            ),
            AnonView::Typ => ValueView::List(
                seq![
                    ValueView::String("Typ"@),
                ],
            ),
            AnonView::Ann(typ, value) => ValueView::List(
                seq![
                    ValueView::String("Ann"@),
                    (*typ).to_ipld(),
                    (*value).to_ipld(),
                ],
            ),
            AnonView::Lit(literal) => literal.to_ipld(),
            AnonView::LTy(typ) => typ.spec_to_ipld(),
            AnonView::Opr(op) => op.spec_to_ipld(),
            AnonView::Rec => ValueView::List(
                seq![
                    ValueView::String("Rec"@),
                ],
            ),
        }
    }

    /// What a value is the canonical form of. A value that is no list
    /// behind a string, or that holds not what its constructor takes, has
    /// not the shape; a string that names no constructor is an unknown tag;
    /// what the parts answer is answered for the whole, the first part
    /// first.
    pub open spec fn from_ipld(v: ValueView) -> Result<AnonView, IpldErrorView>
        decreases v,
    {
        let tag = spec_tag(v);
        let xs = v->List_0;
        if tag == Some("Var"@) {
            if xs.len() != 2 {
                Err(IpldErrorView::InvalidShape(v))
            } else {
                match spec_index_field(v, xs[1]) {
                    Ok(index) => Ok(AnonView::Var(index)),
                    Err(e) => Err(e),
                }
            }
        } else if tag == Some("Lam"@) {
            if xs.len() != 2 {
                Err(IpldErrorView::InvalidShape(v))
            } else {
                match Self::from_ipld(xs[1]) {
                    Ok(body) => Ok(AnonView::Lam(Box::new(body))),
                    Err(e) => Err(e),
                }
            }
        } else if tag == Some("App"@) {
            if xs.len() != 3 {
                Err(IpldErrorView::InvalidShape(v))
            } else {
                match (
                    Self::from_ipld(xs[1]),
                    Self::from_ipld(xs[2]),
                ) {
                    (Ok(function), Ok(argument)) => Ok(
                        AnonView::App(Box::new(function), Box::new(argument)),
                    ),
                    (Err(e), _) => Err(e),
                    (_, Err(e)) => Err(e),
                }
            }
        } else if tag == Some("All"@) {
            if xs.len() != 4 {
                Err(IpldErrorView::InvalidShape(v))
            } else {
                match (
                    Uses::spec_from_ipld(xs[1]),
                    Self::from_ipld(xs[2]),
                    Self::from_ipld(xs[3]),
                ) {
                    (Ok(uses), Ok(domain), Ok(image)) => Ok(
                        AnonView::All(uses, Box::new(domain), Box::new(image)),
                    ),
                    (Err(e), _, _) => Err(e),
                    (_, Err(e), _) => Err(e),
                    (_, _, Err(e)) => Err(e),
                }
            }
        } else if tag == Some("Slf"@) {
            if xs.len() != 2 {
                Err(IpldErrorView::InvalidShape(v))
            } else {
                match Self::from_ipld(xs[1]) {
                    Ok(body) => Ok(AnonView::Slf(Box::new(body))),
                    Err(e) => Err(e),
                }
            }
        } else if tag == Some("Dat"@) {
            if xs.len() != 2 {
                Err(IpldErrorView::InvalidShape(v))
            } else {
                match Self::from_ipld(xs[1]) {
                    Ok(body) => Ok(AnonView::Dat(Box::new(body))),
                    Err(e) => Err(e),
                }
            }
        } else if tag == Some("Cse"@) {
            if xs.len() != 2 {
                Err(IpldErrorView::InvalidShape(v))
            } else {
                match Self::from_ipld(xs[1]) {
                    Ok(body) => Ok(AnonView::Cse(Box::new(body))),
                    Err(e) => Err(e),
                }
            }
        } else if tag == Some("Ref"@) {
            if xs.len() != 2 {
                Err(IpldErrorView::InvalidShape(v))
            } else {
                match spec_link_field(v, xs[1]) {
                    Ok(ast) => Ok(AnonView::Ref(ast)),
                    Err(e) => Err(e),
                }
            }
        } else if tag == Some("Let"@) {
            if xs.len() != 6 {
                Err(IpldErrorView::InvalidShape(v))
            } else {
                match (
                    spec_bool_field(v, xs[1]),
                    Uses::spec_from_ipld(xs[2]),
                    Self::from_ipld(xs[3]),
                    Self::from_ipld(xs[4]),
                    Self::from_ipld(xs[5]),
                ) {
                    (Ok(recursive), Ok(uses), Ok(typ), Ok(value), Ok(body)) => Ok(
                        AnonView::Let(
                            recursive,
                            uses,
                            Box::new(typ),
                            Box::new(value),
                            Box::new(body),
                        ),
                    ),
                    (Err(e), _, _, _, _) => Err(e),
                    (_, Err(e), _, _, _) => Err(e),
                    (_, _, Err(e), _, _) => Err(e),
                    (_, _, _, Err(e), _) => Err(e),
                    (_, _, _, _, Err(e)) => Err(e),
                }
            }
        } else if tag == Some("Typ"@) {
            if xs.len() != 1 {
                Err(IpldErrorView::InvalidShape(v))
            } else {
                Ok(AnonView::Typ)
            }
        } else if tag == Some("Ann"@) {
            if xs.len() != 3 {
                Err(IpldErrorView::InvalidShape(v))
            } else {
                match (
                    Self::from_ipld(xs[1]),
                    Self::from_ipld(xs[2]),
                ) {
                    (Ok(typ), Ok(value)) => Ok(
                        AnonView::Ann(Box::new(typ), Box::new(value)),
                    ),
                    (Err(e), _) => Err(e),
                    (_, Err(e)) => Err(e),
                }
            }
        } else if tag == Some("#Lit"@) {
            match LiteralView::from_ipld(v) {
                Ok(x) => Ok(AnonView::Lit(x)),
                Err(e) => Err(e),
            }
        } else if tag == Some("#LTy"@) {
            match PrimType::spec_from_ipld(v) {
                Ok(x) => Ok(AnonView::LTy(x)),
                Err(e) => Err(e),
            }
        } else if tag == Some("#Opr"@) {
            match PrimOp::spec_from_ipld(v) {
                Ok(x) => Ok(AnonView::Opr(x)),
                Err(e) => Err(e),
            }
        } else if tag == Some("Rec"@) {
            if xs.len() != 1 {
                Err(IpldErrorView::InvalidShape(v))
            } else {
                Ok(AnonView::Rec)
            }
        } else if tag is Some {
            Err(IpldErrorView::UnknownTag(v))
        } else {
            Err(IpldErrorView::InvalidShape(v))
        }
    }
}

impl AnonView {
    /// Every identifier exists.
    pub open spec fn valid(self) -> bool
        decreases self,
    {
        match self {
            AnonView::Var(_) => true,
            AnonView::Lam(body) => body.valid(),
            AnonView::App(function, argument) => function.valid() && argument.valid(),
            AnonView::All(_, domain, image) => domain.valid() && image.valid(),
            AnonView::Slf(body) => body.valid(),
            AnonView::Dat(body) => body.valid(),
            AnonView::Cse(body) => body.valid(),
            AnonView::Ref(ast) => ast.valid(),
            AnonView::Let(_, _, typ, value, body) => {
                &&& typ.valid()
                &&& value.valid()
                &&& body.valid()
            },
            AnonView::Typ => true,
            AnonView::Ann(typ, value) => typ.valid() && value.valid(),
            AnonView::Lit(_) => true,
            AnonView::LTy(_) => true,
            AnonView::Opr(_) => true,
            AnonView::Rec => true,
        }
    }
}

proof fn lemma_tags()
    ensures
        fingerprint("Var"@) == (3nat, 'V', 'a', 'r', ' ', 'r'),
        fingerprint("Lam"@) == (3nat, 'L', 'a', 'm', ' ', 'm'),
        fingerprint("App"@) == (3nat, 'A', 'p', 'p', ' ', 'p'),
        fingerprint("All"@) == (3nat, 'A', 'l', 'l', ' ', 'l'),
        fingerprint("Slf"@) == (3nat, 'S', 'l', 'f', ' ', 'f'),
        fingerprint("Dat"@) == (3nat, 'D', 'a', 't', ' ', 't'),
        fingerprint("Cse"@) == (3nat, 'C', 's', 'e', ' ', 'e'),
        fingerprint("Ref"@) == (3nat, 'R', 'e', 'f', ' ', 'f'),
        fingerprint("Let"@) == (3nat, 'L', 'e', 't', ' ', 't'),
        fingerprint("Typ"@) == (3nat, 'T', 'y', 'p', ' ', 'p'),
        fingerprint("Ann"@) == (3nat, 'A', 'n', 'n', ' ', 'n'),
        fingerprint("#Lit"@) == (4nat, '#', 'L', 'i', 't', 't'),
        fingerprint("#LTy"@) == (4nat, '#', 'L', 'T', 'y', 'y'),
        fingerprint("#Opr"@) == (4nat, '#', 'O', 'p', 'r', 'r'),
        fingerprint("Rec"@) == (3nat, 'R', 'e', 'c', ' ', 'c'),
{
    reveal_strlit("Var");
    assert(fingerprint("Var"@) == (3nat, 'V', 'a', 'r', ' ', 'r'));
    reveal_strlit("Lam");
    assert(fingerprint("Lam"@) == (3nat, 'L', 'a', 'm', ' ', 'm'));
    reveal_strlit("App");
    assert(fingerprint("App"@) == (3nat, 'A', 'p', 'p', ' ', 'p'));
    reveal_strlit("All");
    assert(fingerprint("All"@) == (3nat, 'A', 'l', 'l', ' ', 'l'));
    reveal_strlit("Slf");
    assert(fingerprint("Slf"@) == (3nat, 'S', 'l', 'f', ' ', 'f'));
    reveal_strlit("Dat");
    assert(fingerprint("Dat"@) == (3nat, 'D', 'a', 't', ' ', 't'));
    reveal_strlit("Cse");
    assert(fingerprint("Cse"@) == (3nat, 'C', 's', 'e', ' ', 'e'));
    reveal_strlit("Ref");
    assert(fingerprint("Ref"@) == (3nat, 'R', 'e', 'f', ' ', 'f'));
    reveal_strlit("Let");
    assert(fingerprint("Let"@) == (3nat, 'L', 'e', 't', ' ', 't'));
    reveal_strlit("Typ");
    assert(fingerprint("Typ"@) == (3nat, 'T', 'y', 'p', ' ', 'p'));
    reveal_strlit("Ann");
    assert(fingerprint("Ann"@) == (3nat, 'A', 'n', 'n', ' ', 'n'));
    reveal_strlit("#Lit");
    assert(fingerprint("#Lit"@) == (4nat, '#', 'L', 'i', 't', 't'));
    reveal_strlit("#LTy");
    assert(fingerprint("#LTy"@) == (4nat, '#', 'L', 'T', 'y', 'y'));
    reveal_strlit("#Opr");
    assert(fingerprint("#Opr"@) == (4nat, '#', 'O', 'p', 'r', 'r'));
    reveal_strlit("Rec");
    assert(fingerprint("Rec"@) == (3nat, 'R', 'e', 'c', ' ', 'c'));
}

proof fn lemma_step_var(t: AnonView)
    requires
        t is Var,
    ensures
        AnonView::from_ipld(t.to_ipld()) == Ok::<AnonView, IpldErrorView>(t),
{
    lemma_tags();
    match t {
        AnonView::Var(index) => {
        },
        _ => {},
    }
}

proof fn lemma_step_lam(t: AnonView)
    requires
        t is Lam,
        AnonView::from_ipld((*t->Lam_0).to_ipld()) == Ok::<AnonView, IpldErrorView>(*t->Lam_0),
    ensures
        AnonView::from_ipld(t.to_ipld()) == Ok::<AnonView, IpldErrorView>(t),
{
    lemma_tags();
    match t {
        AnonView::Lam(body) => {
        },
        _ => {},
    }
}

proof fn lemma_step_app(t: AnonView)
    requires
        t is App,
        AnonView::from_ipld((*t->App_0).to_ipld()) == Ok::<AnonView, IpldErrorView>(*t->App_0),
        AnonView::from_ipld((*t->App_1).to_ipld()) == Ok::<AnonView, IpldErrorView>(*t->App_1),
    ensures
        AnonView::from_ipld(t.to_ipld()) == Ok::<AnonView, IpldErrorView>(t),
{
    lemma_tags();
    match t {
        AnonView::App(function, argument) => {
        },
        _ => {},
    }
}

proof fn lemma_step_all(t: AnonView)
    requires
        t is All,
        AnonView::from_ipld((*t->All_1).to_ipld()) == Ok::<AnonView, IpldErrorView>(*t->All_1),
        AnonView::from_ipld((*t->All_2).to_ipld()) == Ok::<AnonView, IpldErrorView>(*t->All_2),
    ensures
        AnonView::from_ipld(t.to_ipld()) == Ok::<AnonView, IpldErrorView>(t),
{
    lemma_tags();
    match t {
        AnonView::All(uses, domain, image) => {
            lemma_uses_roundtrip(uses);
        },
        _ => {},
    }
}

proof fn lemma_step_slf(t: AnonView)
    requires
        t is Slf,
        AnonView::from_ipld((*t->Slf_0).to_ipld()) == Ok::<AnonView, IpldErrorView>(*t->Slf_0),
    ensures
        AnonView::from_ipld(t.to_ipld()) == Ok::<AnonView, IpldErrorView>(t),
{
    lemma_tags();
    match t {
        AnonView::Slf(body) => {
        },
        _ => {},
    }
}

proof fn lemma_step_dat(t: AnonView)
    requires
        t is Dat,
        AnonView::from_ipld((*t->Dat_0).to_ipld()) == Ok::<AnonView, IpldErrorView>(*t->Dat_0),
    ensures
        AnonView::from_ipld(t.to_ipld()) == Ok::<AnonView, IpldErrorView>(t),
{
    lemma_tags();
    match t {
        AnonView::Dat(body) => {
        },
        _ => {},
    }
}

proof fn lemma_step_cse(t: AnonView)
    requires
        t is Cse,
        AnonView::from_ipld((*t->Cse_0).to_ipld()) == Ok::<AnonView, IpldErrorView>(*t->Cse_0),
    ensures
        AnonView::from_ipld(t.to_ipld()) == Ok::<AnonView, IpldErrorView>(t),
{
    lemma_tags();
    match t {
        AnonView::Cse(body) => {
        },
        _ => {},
    }
}

proof fn lemma_step_ref(t: AnonView)
    requires
        t is Ref,
    ensures
        AnonView::from_ipld(t.to_ipld()) == Ok::<AnonView, IpldErrorView>(t),
{
    lemma_tags();
    match t {
        AnonView::Ref(ast) => {
        },
        _ => {},
    }
}

proof fn lemma_step_let(t: AnonView)
    requires
        t is Let,
        AnonView::from_ipld((*t->Let_2).to_ipld()) == Ok::<AnonView, IpldErrorView>(*t->Let_2),
        AnonView::from_ipld((*t->Let_3).to_ipld()) == Ok::<AnonView, IpldErrorView>(*t->Let_3),
        AnonView::from_ipld((*t->Let_4).to_ipld()) == Ok::<AnonView, IpldErrorView>(*t->Let_4),
    ensures
        AnonView::from_ipld(t.to_ipld()) == Ok::<AnonView, IpldErrorView>(t),
{
    lemma_tags();
    match t {
        AnonView::Let(recursive, uses, typ, value, body) => {
            lemma_uses_roundtrip(uses);
        },
        _ => {},
    }
}

proof fn lemma_step_typ(t: AnonView)
    requires
        t is Typ,
    ensures
        AnonView::from_ipld(t.to_ipld()) == Ok::<AnonView, IpldErrorView>(t),
{
    lemma_tags();
}

proof fn lemma_step_ann(t: AnonView)
    requires
        t is Ann,
        AnonView::from_ipld((*t->Ann_0).to_ipld()) == Ok::<AnonView, IpldErrorView>(*t->Ann_0),
        AnonView::from_ipld((*t->Ann_1).to_ipld()) == Ok::<AnonView, IpldErrorView>(*t->Ann_1),
    ensures
        AnonView::from_ipld(t.to_ipld()) == Ok::<AnonView, IpldErrorView>(t),
{
    lemma_tags();
    match t {
        AnonView::Ann(typ, value) => {
        },
        _ => {},
    }
}

proof fn lemma_step_lit(t: AnonView)
    requires
        t is Lit,
    ensures
        AnonView::from_ipld(t.to_ipld()) == Ok::<AnonView, IpldErrorView>(t),
{
    lemma_tags();
    match t {
        AnonView::Lit(literal) => {
            lemma_literal_roundtrip(literal);
        },
        _ => {},
    }
}

proof fn lemma_step_lty(t: AnonView)
    requires
        t is LTy,
    ensures
        AnonView::from_ipld(t.to_ipld()) == Ok::<AnonView, IpldErrorView>(t),
{
    lemma_tags();
    match t {
        AnonView::LTy(typ) => {
            lemma_type_roundtrip(typ);
        },
        _ => {},
    }
}

proof fn lemma_step_opr(t: AnonView)
    requires
        t is Opr,
    ensures
        AnonView::from_ipld(t.to_ipld()) == Ok::<AnonView, IpldErrorView>(t),
{
    lemma_tags();
    match t {
        AnonView::Opr(op) => {
            lemma_op_roundtrip(op);
        },
        _ => {},
    }
}

proof fn lemma_step_rec(t: AnonView)
    requires
        t is Rec,
    ensures
        AnonView::from_ipld(t.to_ipld()) == Ok::<AnonView, IpldErrorView>(t),
{
    lemma_tags();
}

/// Decoding the canonical form gives back what was encoded.
pub proof fn lemma_roundtrip(t: AnonView)
    ensures
        AnonView::from_ipld(t.to_ipld()) == Ok::<AnonView, IpldErrorView>(t),
    decreases t,
{
    match t {
        AnonView::Var(_) => {
            lemma_step_var(t);
        },
        AnonView::Lam(body) => {
            lemma_roundtrip(*body);
            lemma_step_lam(t);
        },
        AnonView::App(function, argument) => {
            lemma_roundtrip(*function);
            lemma_roundtrip(*argument);
            lemma_step_app(t);
        },
        AnonView::All(_, domain, image) => {
            lemma_roundtrip(*domain);
            lemma_roundtrip(*image);
            lemma_step_all(t);
        },
        AnonView::Slf(body) => {
            lemma_roundtrip(*body);
            lemma_step_slf(t);
        },
        AnonView::Dat(body) => {
            lemma_roundtrip(*body);
            lemma_step_dat(t);
        },
        AnonView::Cse(body) => {
            lemma_roundtrip(*body);
            lemma_step_cse(t);
        },
        AnonView::Ref(_) => {
            lemma_step_ref(t);
        },
        AnonView::Let(_, _, typ, value, body) => {
            lemma_roundtrip(*typ);
            lemma_roundtrip(*value);
            lemma_roundtrip(*body);
            lemma_step_let(t);
        },
        AnonView::Typ => {
            lemma_step_typ(t);
        },
        AnonView::Ann(typ, value) => {
            lemma_roundtrip(*typ);
            lemma_roundtrip(*value);
            lemma_step_ann(t);
        },
        AnonView::Lit(_) => {
            lemma_step_lit(t);
        },
        AnonView::LTy(_) => {
            lemma_step_lty(t);
        },
        AnonView::Opr(_) => {
            lemma_step_opr(t);
        },
        AnonView::Rec => {
            lemma_step_rec(t);
        },
    }
}

proof fn lemma_block_var(t: AnonView)
    requires
        t is Var,
        t.valid(),
    ensures
        t.to_ipld().encodable(),
{
    reveal_with_fuel(ValueView::encodable, 3);
    match t {
        AnonView::Var(index) => {
            let xs = t.to_ipld()->List_0;
            assert forall|j: int| 0 <= j < xs.len() implies (#[trigger] xs[j]).encodable() by {
            }
        },
        _ => {},
    }
}

proof fn lemma_block_lam(t: AnonView)
    requires
        t is Lam,
        t.valid(),
        (*t->Lam_0).to_ipld().encodable(),
    ensures
        t.to_ipld().encodable(),
{
    reveal_with_fuel(ValueView::encodable, 3);
    match t {
        AnonView::Lam(body) => {
            let xs = t.to_ipld()->List_0;
            assert forall|j: int| 0 <= j < xs.len() implies (#[trigger] xs[j]).encodable() by {
            }
        },
        _ => {},
    }
}

proof fn lemma_block_app(t: AnonView)
    requires
        t is App,
        t.valid(),
        (*t->App_0).to_ipld().encodable(),
        (*t->App_1).to_ipld().encodable(),
    ensures
        t.to_ipld().encodable(),
{
    reveal_with_fuel(ValueView::encodable, 3);
    match t {
        AnonView::App(function, argument) => {
            let xs = t.to_ipld()->List_0;
            assert forall|j: int| 0 <= j < xs.len() implies (#[trigger] xs[j]).encodable() by {
            }
        },
        _ => {},
    }
}

proof fn lemma_block_all(t: AnonView)
    requires
        t is All,
        t.valid(),
        (*t->All_1).to_ipld().encodable(),
        (*t->All_2).to_ipld().encodable(),
    ensures
        t.to_ipld().encodable(),
{
    reveal_with_fuel(ValueView::encodable, 3);
    match t {
        AnonView::All(uses, domain, image) => {
            let xs = t.to_ipld()->List_0;
            assert forall|j: int| 0 <= j < xs.len() implies (#[trigger] xs[j]).encodable() by {
            }
        },
        _ => {},
    }
}

proof fn lemma_block_slf(t: AnonView)
    requires
        t is Slf,
        t.valid(),
        (*t->Slf_0).to_ipld().encodable(),
    ensures
        t.to_ipld().encodable(),
{
    reveal_with_fuel(ValueView::encodable, 3);
    match t {
        AnonView::Slf(body) => {
            let xs = t.to_ipld()->List_0;
            assert forall|j: int| 0 <= j < xs.len() implies (#[trigger] xs[j]).encodable() by {
            }
        },
        _ => {},
    }
}

proof fn lemma_block_dat(t: AnonView)
    requires
        t is Dat,
        t.valid(),
        (*t->Dat_0).to_ipld().encodable(),
    ensures
        t.to_ipld().encodable(),
{
    reveal_with_fuel(ValueView::encodable, 3);
    match t {
        AnonView::Dat(body) => {
            let xs = t.to_ipld()->List_0;
            assert forall|j: int| 0 <= j < xs.len() implies (#[trigger] xs[j]).encodable() by {
            }
        },
        _ => {},
    }
}

proof fn lemma_block_cse(t: AnonView)
    requires
        t is Cse,
        t.valid(),
        (*t->Cse_0).to_ipld().encodable(),
    ensures
        t.to_ipld().encodable(),
{
    reveal_with_fuel(ValueView::encodable, 3);
    match t {
        AnonView::Cse(body) => {
            let xs = t.to_ipld()->List_0;
            assert forall|j: int| 0 <= j < xs.len() implies (#[trigger] xs[j]).encodable() by {
            }
        },
        _ => {},
    }
}

proof fn lemma_block_ref(t: AnonView)
    requires
        t is Ref,
        t.valid(),
    ensures
        t.to_ipld().encodable(),
{
    reveal_with_fuel(ValueView::encodable, 3);
    match t {
        AnonView::Ref(ast) => {
            let xs = t.to_ipld()->List_0;
            assert forall|j: int| 0 <= j < xs.len() implies (#[trigger] xs[j]).encodable() by {
            }
        },
        _ => {},
    }
}

proof fn lemma_block_let(t: AnonView)
    requires
        t is Let,
        t.valid(),
        (*t->Let_2).to_ipld().encodable(),
        (*t->Let_3).to_ipld().encodable(),
        (*t->Let_4).to_ipld().encodable(),
    ensures
        t.to_ipld().encodable(),
{
    reveal_with_fuel(ValueView::encodable, 3);
    match t {
        AnonView::Let(recursive, uses, typ, value, body) => {
            let xs = t.to_ipld()->List_0;
            assert forall|j: int| 0 <= j < xs.len() implies (#[trigger] xs[j]).encodable() by {
            }
        },
        _ => {},
    }
}

proof fn lemma_block_typ(t: AnonView)
    requires
        t is Typ,
        t.valid(),
    ensures
        t.to_ipld().encodable(),
{
    reveal_with_fuel(ValueView::encodable, 3);
    let xs = t.to_ipld()->List_0;
    assert forall|j: int| 0 <= j < xs.len() implies (#[trigger] xs[j]).encodable() by {
    }
}

proof fn lemma_block_ann(t: AnonView)
    requires
        t is Ann,
        t.valid(),
        (*t->Ann_0).to_ipld().encodable(),
        (*t->Ann_1).to_ipld().encodable(),
    ensures
        t.to_ipld().encodable(),
{
    reveal_with_fuel(ValueView::encodable, 3);
    match t {
        AnonView::Ann(typ, value) => {
            let xs = t.to_ipld()->List_0;
            assert forall|j: int| 0 <= j < xs.len() implies (#[trigger] xs[j]).encodable() by {
            }
        },
        _ => {},
    }
}

proof fn lemma_block_lit(t: AnonView)
    requires
        t is Lit,
        t.valid(),
    ensures
        t.to_ipld().encodable(),
{
    reveal_with_fuel(ValueView::encodable, 3);
    match t {
        AnonView::Lit(literal) => {
            lemma_literal_encodable(literal);
            let xs = t.to_ipld()->List_0;
            assert forall|j: int| 0 <= j < xs.len() implies (#[trigger] xs[j]).encodable() by {
            }
        },
        _ => {},
    }
}

proof fn lemma_block_lty(t: AnonView)
    requires
        t is LTy,
        t.valid(),
    ensures
        t.to_ipld().encodable(),
{
    reveal_with_fuel(ValueView::encodable, 3);
    match t {
        AnonView::LTy(typ) => {
            let xs = t.to_ipld()->List_0;
            assert forall|j: int| 0 <= j < xs.len() implies (#[trigger] xs[j]).encodable() by {
            }
        },
        _ => {},
    }
}

proof fn lemma_block_opr(t: AnonView)
    requires
        t is Opr,
        t.valid(),
    ensures
        t.to_ipld().encodable(),
{
    reveal_with_fuel(ValueView::encodable, 3);
    match t {
        AnonView::Opr(op) => {
            let xs = t.to_ipld()->List_0;
            assert forall|j: int| 0 <= j < xs.len() implies (#[trigger] xs[j]).encodable() by {
            }
        },
        _ => {},
    }
}

proof fn lemma_block_rec(t: AnonView)
    requires
        t is Rec,
        t.valid(),
    ensures
        t.to_ipld().encodable(),
{
    reveal_with_fuel(ValueView::encodable, 3);
    let xs = t.to_ipld()->List_0;
    assert forall|j: int| 0 <= j < xs.len() implies (#[trigger] xs[j]).encodable() by {
    }
}

/// The canonical form has a block where every identifier exists.
pub proof fn lemma_encodable(t: AnonView)
    requires
        t.valid(),
    ensures
        t.to_ipld().encodable(),
    decreases t,
{
    match t {
        AnonView::Var(_) => {
            lemma_block_var(t);
        },
        AnonView::Lam(body) => {
            lemma_encodable(*body);
            lemma_block_lam(t);
        },
        AnonView::App(function, argument) => {
            lemma_encodable(*function);
            lemma_encodable(*argument);
            lemma_block_app(t);
        },
        AnonView::All(_, domain, image) => {
            lemma_encodable(*domain);
            lemma_encodable(*image);
            lemma_block_all(t);
        },
        AnonView::Slf(body) => {
            lemma_encodable(*body);
            lemma_block_slf(t);
        },
        AnonView::Dat(body) => {
            lemma_encodable(*body);
            lemma_block_dat(t);
        },
        AnonView::Cse(body) => {
            lemma_encodable(*body);
            lemma_block_cse(t);
        },
        AnonView::Ref(_) => {
            lemma_block_ref(t);
        },
        AnonView::Let(_, _, typ, value, body) => {
            lemma_encodable(*typ);
            lemma_encodable(*value);
            lemma_encodable(*body);
            lemma_block_let(t);
        },
        AnonView::Typ => {
            lemma_block_typ(t);
        },
        AnonView::Ann(typ, value) => {
            lemma_encodable(*typ);
            lemma_encodable(*value);
            lemma_block_ann(t);
        },
        AnonView::Lit(_) => {
            lemma_block_lit(t);
        },
        AnonView::LTy(_) => {
            lemma_block_lty(t);
        },
        AnonView::Opr(_) => {
            lemma_block_opr(t);
        },
        AnonView::Rec => {
            lemma_block_rec(t);
        },
    }
}

impl AnonTerm {
    /// The canonical form.
    pub fn to_ipld(&self) -> (v: Value)
        ensures
            v@ == self@.to_ipld(),
        decreases self,
    {
        match self {
            AnonTerm::Var(index) => tagged1("Var", Value::Integer(*index as i128)),
            AnonTerm::Lam(body) => tagged1("Lam", (**body).to_ipld()),
            AnonTerm::App(function, argument) => tagged2(
                "App",
                (**function).to_ipld(),
                (**argument).to_ipld(),
            ),
            AnonTerm::All(uses, domain, image) => tagged3(
                "All",
                uses.to_ipld(),
                (**domain).to_ipld(),
                (**image).to_ipld(),
            ),
            AnonTerm::Slf(body) => tagged1("Slf", (**body).to_ipld()),
            AnonTerm::Dat(body) => tagged1("Dat", (**body).to_ipld()),
            AnonTerm::Cse(body) => tagged1("Cse", (**body).to_ipld()),
            AnonTerm::Ref(ast) => tagged1("Ref", Value::Link(ast.clone())),
            AnonTerm::Let(recursive, uses, typ, value, body) => tagged5(
                "Let",
                Value::Bool(*recursive),
                uses.to_ipld(),
                (**typ).to_ipld(),
                (**value).to_ipld(),
                (**body).to_ipld(),
            ),
            AnonTerm::Typ => tagged0("Typ"),
            AnonTerm::Ann(typ, value) => tagged2("Ann", (**typ).to_ipld(), (**value).to_ipld()),
            AnonTerm::Lit(literal) => literal.to_ipld(),
            AnonTerm::LTy(typ) => typ.to_ipld(),
            AnonTerm::Opr(op) => op.to_ipld(),
            AnonTerm::Rec => tagged0("Rec"),
        }
    }

    /// What a value is the canonical form of.
    pub fn from_ipld(ipld: &Value) -> (r: Result<AnonTerm, IpldError>)
        ensures
            decoded(r) == AnonView::from_ipld(ipld@),
        decreases ipld,
    {
        let (tag, xs) = match tagged(ipld) {
            Some(parts) => parts,
            None => {
                return Err(IpldError::InvalidShape(ipld.clone()));
            },
        };
        if same_text(tag, "Var") {
            if xs.len() != 2 {
                return Err(IpldError::InvalidShape(ipld.clone()));
            }
            let index = index_field(ipld, &xs[1])?;
            Ok(AnonTerm::Var(index))
        } else if same_text(tag, "Lam") {
            if xs.len() != 2 {
                return Err(IpldError::InvalidShape(ipld.clone()));
            }
            let body = AnonTerm::from_ipld(&xs[1])?;
            Ok(AnonTerm::Lam(Box::new(body)))
        } else if same_text(tag, "App") {
            if xs.len() != 3 {
                return Err(IpldError::InvalidShape(ipld.clone()));
            }
            let function = AnonTerm::from_ipld(&xs[1])?;
            let argument = AnonTerm::from_ipld(&xs[2])?;
            Ok(AnonTerm::App(Box::new(function), Box::new(argument)))
        } else if same_text(tag, "All") {
            if xs.len() != 4 {
                return Err(IpldError::InvalidShape(ipld.clone()));
            }
            let uses = Uses::from_ipld(&xs[1])?;
            let domain = AnonTerm::from_ipld(&xs[2])?;
            let image = AnonTerm::from_ipld(&xs[3])?;
            Ok(AnonTerm::All(uses, Box::new(domain), Box::new(image)))
        } else if same_text(tag, "Slf") {
            if xs.len() != 2 {
                return Err(IpldError::InvalidShape(ipld.clone()));
            }
            let body = AnonTerm::from_ipld(&xs[1])?;
            Ok(AnonTerm::Slf(Box::new(body)))
        } else if same_text(tag, "Dat") {
            if xs.len() != 2 {
                return Err(IpldError::InvalidShape(ipld.clone()));
            }
            let body = AnonTerm::from_ipld(&xs[1])?;
            Ok(AnonTerm::Dat(Box::new(body)))
        } else if same_text(tag, "Cse") {
            if xs.len() != 2 {
                return Err(IpldError::InvalidShape(ipld.clone()));
            }
            let body = AnonTerm::from_ipld(&xs[1])?;
            Ok(AnonTerm::Cse(Box::new(body)))
        } else if same_text(tag, "Ref") {
            if xs.len() != 2 {
                return Err(IpldError::InvalidShape(ipld.clone()));
            }
            let ast = link_field(ipld, &xs[1])?;
            Ok(AnonTerm::Ref(ast))
        } else if same_text(tag, "Let") {
            if xs.len() != 6 {
                return Err(IpldError::InvalidShape(ipld.clone()));
            }
            let recursive = bool_field(ipld, &xs[1])?;
            let uses = Uses::from_ipld(&xs[2])?;
            let typ = AnonTerm::from_ipld(&xs[3])?;
            let value = AnonTerm::from_ipld(&xs[4])?;
            let body = AnonTerm::from_ipld(&xs[5])?;
            Ok(AnonTerm::Let(recursive, uses, Box::new(typ), Box::new(value), Box::new(body)))
        } else if same_text(tag, "Typ") {
            if xs.len() != 1 {
                return Err(IpldError::InvalidShape(ipld.clone()));
            }
            Ok(AnonTerm::Typ)
        } else if same_text(tag, "Ann") {
            if xs.len() != 3 {
                return Err(IpldError::InvalidShape(ipld.clone()));
            }
            let typ = AnonTerm::from_ipld(&xs[1])?;
            let value = AnonTerm::from_ipld(&xs[2])?;
            Ok(AnonTerm::Ann(Box::new(typ), Box::new(value)))
        } else if same_text(tag, "#Lit") {
            Ok(AnonTerm::Lit(Literal::from_ipld(ipld)?))
        } else if same_text(tag, "#LTy") {
            Ok(AnonTerm::LTy(PrimType::from_ipld(ipld)?))
        } else if same_text(tag, "#Opr") {
            Ok(AnonTerm::Opr(PrimOp::from_ipld(ipld)?))
        } else if same_text(tag, "Rec") {
            if xs.len() != 1 {
                return Err(IpldError::InvalidShape(ipld.clone()));
            }
            Ok(AnonTerm::Rec)
        } else {
            Err(IpldError::UnknownTag(ipld.clone()))
        }
    }
}

impl AnonView {
    /// The identifier of the block of an anonymous term.
    pub open spec fn cid(self) -> CidView {
        block_cid(dag_cbor(self.to_ipld()))
    }
}

impl AnonTerm {
    /// The identifier of the block of the anonymous term: version 1,
    /// DAG-CBOR, BLAKE2b-256 of the bytes of its canonical form.
    pub fn cid(&self) -> (c: Cid)
        requires
            self@.valid(),
        ensures
            c@ == self@.cid(),
            c@.valid(),
            c@.hash.digest.len() == 32,
    {
        proof {
            lemma_encodable(self@);
        }
        crate::codec::cid(&self.to_ipld())
    }
}

} // verus!
