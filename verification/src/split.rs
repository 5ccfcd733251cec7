//! Splitting a term into its anonymous skeleton and its metadata, and
//! merging the two back into the term.

use vstd::prelude::*;
use crate::address::Cid;
use crate::anon::{AnonTerm, AnonView};
use crate::error::{decoded, IpldError, IpldErrorView};
use crate::meta::{lemma_meta_view, Meta, MetaView};
use crate::position::Pos;
use crate::term::{Term, TermView};

verus! {

/// Why a metadata node fits not a constructor that has `children` terms
/// under it and has or has not a name and a link, if it fits not: another
/// number of children, a link or a name too many or a link too few are a
/// mismatch, a name too few is a missing name.
pub open spec fn misfit(m: MetaView, children: nat, named: bool, linked: bool) -> Option<
    IpldErrorView,
> {
    if m.children.len() != children {
        Some(IpldErrorView::MetaMismatch)
    } else if linked != (m.link is Some) {
        Some(IpldErrorView::MetaMismatch)
    } else if !named && m.name is Some {
        Some(IpldErrorView::MetaMismatch)
    } else if named && m.name is None {
        Some(IpldErrorView::NameMissing)
    } else {
        None
    }
}

/// The anonymous skeleton of a term, and its metadata: every node of the
/// metadata holds the position of a constructor, its name and its link to
/// an entry where it has one, and the metadata of the terms under it.
pub open spec fn spec_split(t: TermView) -> (AnonView, MetaView)
    decreases t,
{
    match t {
        TermView::Var(pos, name, index) => {
            (
                AnonView::Var(index),
                MetaView {
                    pos,
                    name: Some(name),
                    link: None,
                    children: Seq::empty(),
                },
            )
        },
        TermView::Lam(pos, name, body) => {
            let body = spec_split(*body);
            (
                AnonView::Lam(Box::new(body.0)),
                MetaView {
                    pos,
                    name: Some(name),
                    link: None,
                    children: seq![body.1],
                },
            )
        },
        TermView::App(pos, function, argument) => {
            let function = spec_split(*function);
            let argument = spec_split(*argument);
            (
                AnonView::App(Box::new(function.0), Box::new(argument.0)),
                MetaView {
                    pos,
                    name: None,
                    link: None,
                    children: seq![function.1, argument.1],
                },
            )
        },
        TermView::All(pos, uses, name, domain, image) => {
            let domain = spec_split(*domain);
            let image = spec_split(*image);
            (
                AnonView::All(uses, Box::new(domain.0), Box::new(image.0)),
                MetaView {
                    pos,
                    name: Some(name),
                    link: None,
                    children: seq![domain.1, image.1],
                },
            )
        },
        TermView::Slf(pos, name, body) => {
            let body = spec_split(*body);
            (
                AnonView::Slf(Box::new(body.0)),
                MetaView {
                    pos,
                    name: Some(name),
                    link: None,
                    children: seq![body.1],
                },
            )
        },
        TermView::Dat(pos, body) => {
            let body = spec_split(*body);
            (
                AnonView::Dat(Box::new(body.0)),
                MetaView {
                    pos,
                    name: None,
                    link: None,
                    children: seq![body.1],
                },
            )
        },
        TermView::Cse(pos, body) => {
            let body = spec_split(*body);
            (
                AnonView::Cse(Box::new(body.0)),
                MetaView {
                    pos,
                    name: None,
                    link: None,
                    children: seq![body.1],
                },
            )
        },
        TermView::Ref(pos, name, def, ast) => {
            (
                AnonView::Ref(ast),
                MetaView {
                    pos,
                    name: Some(name),
                    link: Some(def),
                    children: Seq::empty(),
                },
            )
        },
        TermView::Let(pos, recursive, uses, name, typ, value, body) => {
            let typ = spec_split(*typ);
            let value = spec_split(*value);
            let body = spec_split(*body);
            (
                AnonView::Let(
                    recursive,
                    uses,
                    Box::new(typ.0),
                    Box::new(value.0),
                    Box::new(body.0),
                ),
                MetaView {
                    pos,
                    name: Some(name),
                    link: None,
                    children: seq![typ.1, value.1, body.1],
                },
            )
        },
        TermView::Typ(pos) => {
            (
                AnonView::Typ,
                MetaView {
                    pos,
                    name: None,
                    link: None,
                    children: Seq::empty(),
                },
            )
        },
        TermView::Ann(pos, typ, value) => {
            let typ = spec_split(*typ);
            let value = spec_split(*value);
            (
                AnonView::Ann(Box::new(typ.0), Box::new(value.0)),
                MetaView {
                    pos,
                    name: None,
                    link: None,
                    children: seq![typ.1, value.1],
                },
            )
        },
        TermView::Lit(pos, literal) => {
            (
                AnonView::Lit(literal),
                MetaView {
                    pos,
                    name: None,
                    link: None,
                    children: Seq::empty(),
                },
            )
        },
        TermView::LTy(pos, typ) => {
            (
                AnonView::LTy(typ),
                MetaView {
                    pos,
                    name: None,
                    link: None,
                    children: Seq::empty(),
                },
            )
        },
        TermView::Opr(pos, op) => {
            (
                AnonView::Opr(op),
                MetaView {
                    pos,
                    name: None,
                    link: None,
                    children: Seq::empty(),
                },
            )
        },
        TermView::Rec(pos) => {
            (
                AnonView::Rec,
                MetaView {
                    pos,
                    name: None,
                    link: None,
                    children: Seq::empty(),
                },
            )
        },
    }
}

/// The term that an anonymous skeleton and metadata make together: every
/// constructor takes its position, its name and its link from the node of
/// the metadata, and the terms under it from the children of the node, in
/// order. The first node that fits not its constructor decides the error.
pub open spec fn spec_merge(a: AnonView, m: MetaView) -> Result<TermView, IpldErrorView>
    decreases a,
{
    match a {
        AnonView::Var(index) => match misfit(m, 0, true, false) {
            Some(e) => Err(e),
            None => {
                Ok(TermView::Var(m.pos, m.name->0, index))
            },
        },
        AnonView::Lam(body) => match misfit(m, 1, true, false) {
            Some(e) => Err(e),
            None => {
                match spec_merge(*body, m.children[0]) {
                    Err(e) => Err(e),
                    Ok(body) => {
                        Ok(TermView::Lam(m.pos, m.name->0, Box::new(body)))
                    },
                }
            },
        },
        AnonView::App(function, argument) => match misfit(m, 2, false, false) {
            Some(e) => Err(e),
            None => {
                match spec_merge(*function, m.children[0]) {
                    Err(e) => Err(e),
                    Ok(function) => {
                        match spec_merge(*argument, m.children[1]) {
                            Err(e) => Err(e),
                            Ok(argument) => {
                                Ok(TermView::App(m.pos, Box::new(function), Box::new(argument)))
                            },
                        }
                    },
                }
            },
        },
        AnonView::All(uses, domain, image) => match misfit(m, 2, true, false) {
            Some(e) => Err(e),
            None => {
                match spec_merge(*domain, m.children[0]) {
                    Err(e) => Err(e),
                    Ok(domain) => {
                        match spec_merge(*image, m.children[1]) {
                            Err(e) => Err(e),
                            Ok(image) => {
                                Ok(
                                    TermView::All(
                                        m.pos,
                                        uses,
                                        m.name->0,
                                        Box::new(domain),
                                        Box::new(image),
                                    ),
                                )
                            },
                        }
                    },
                }
            },
        },
        AnonView::Slf(body) => match misfit(m, 1, true, false) {
            Some(e) => Err(e),
            None => {
                match spec_merge(*body, m.children[0]) {
                    Err(e) => Err(e),
                    Ok(body) => {
                        Ok(TermView::Slf(m.pos, m.name->0, Box::new(body)))
                    },
                }
            },
        },
        AnonView::Dat(body) => match misfit(m, 1, false, false) {
            Some(e) => Err(e),
            None => {
                match spec_merge(*body, m.children[0]) {
                    Err(e) => Err(e),
                    Ok(body) => {
                        Ok(TermView::Dat(m.pos, Box::new(body)))
                    },
                }
            },
        },
        AnonView::Cse(body) => match misfit(m, 1, false, false) {
            Some(e) => Err(e),
            None => {
                match spec_merge(*body, m.children[0]) {
                    Err(e) => Err(e),
                    Ok(body) => {
                        Ok(TermView::Cse(m.pos, Box::new(body)))
                    },
                }
            },
        },
        AnonView::Ref(ast) => match misfit(m, 0, true, true) {
            Some(e) => Err(e),
            None => {
                Ok(TermView::Ref(m.pos, m.name->0, m.link->0, ast))
            },
        },
        AnonView::Let(recursive, uses, typ, value, body) => match misfit(m, 3, true, false) {
            Some(e) => Err(e),
            None => {
                match spec_merge(*typ, m.children[0]) {
                    Err(e) => Err(e),
                    Ok(typ) => {
                        match spec_merge(*value, m.children[1]) {
                            Err(e) => Err(e),
                            Ok(value) => {
                                match spec_merge(*body, m.children[2]) {
                                    Err(e) => Err(e),
                                    Ok(body) => {
                                        Ok(
                                            TermView::Let(
                                                m.pos,
                                                recursive,
                                                uses,
                                                m.name->0,
                                                Box::new(typ),
                                                Box::new(value),
                                                Box::new(body),
                                            ),
                                        )
                                    },
                                }
                            },
                        }
                    },
                }
            },
        },
        AnonView::Typ => match misfit(m, 0, false, false) {
            Some(e) => Err(e),
            None => {
                Ok(TermView::Typ(m.pos))
            },
        },
        AnonView::Ann(typ, value) => match misfit(m, 2, false, false) {
            Some(e) => Err(e),
            None => {
                match spec_merge(*typ, m.children[0]) {
                    Err(e) => Err(e),
                    Ok(typ) => {
                        match spec_merge(*value, m.children[1]) {
                            Err(e) => Err(e),
                            Ok(value) => {
                                Ok(TermView::Ann(m.pos, Box::new(typ), Box::new(value)))
                            },
                        }
                    },
                }
            },
        },
        AnonView::Lit(literal) => match misfit(m, 0, false, false) {
            Some(e) => Err(e),
            None => {
                Ok(TermView::Lit(m.pos, literal))
            },
        },
        AnonView::LTy(typ) => match misfit(m, 0, false, false) {
            Some(e) => Err(e),
            None => {
                Ok(TermView::LTy(m.pos, typ))
            },
        },
        AnonView::Opr(op) => match misfit(m, 0, false, false) {
            Some(e) => Err(e),
            None => {
                Ok(TermView::Opr(m.pos, op))
            },
        },
        AnonView::Rec => match misfit(m, 0, false, false) {
            Some(e) => Err(e),
            None => {
                Ok(TermView::Rec(m.pos))
            },
        },
    }
}

/// Merging what a term was split into gives the term back.
pub proof fn lemma_merge_split(t: TermView)
    ensures
        spec_merge(spec_split(t).0, spec_split(t).1) == Ok::<TermView, IpldErrorView>(t),
    decreases t,
{
    match t {
        TermView::Var(_, _, _) => {
        },
        TermView::Lam(_, _, body) => {
            lemma_merge_split(*body);
        },
        TermView::App(_, function, argument) => {
            lemma_merge_split(*function);
            lemma_merge_split(*argument);
        },
        TermView::All(_, _, _, domain, image) => {
            lemma_merge_split(*domain);
            lemma_merge_split(*image);
        },
        TermView::Slf(_, _, body) => {
            lemma_merge_split(*body);
        },
        TermView::Dat(_, body) => {
            lemma_merge_split(*body);
        },
        TermView::Cse(_, body) => {
            lemma_merge_split(*body);
        },
        TermView::Ref(_, _, _, _) => {
        },
        TermView::Let(_, _, _, _, typ, value, body) => {
            lemma_merge_split(*typ);
            lemma_merge_split(*value);
            lemma_merge_split(*body);
        },
        TermView::Typ(_) => {
        },
        TermView::Ann(_, typ, value) => {
            lemma_merge_split(*typ);
            lemma_merge_split(*value);
        },
        TermView::Lit(_, _) => {
        },
        TermView::LTy(_, _) => {
        },
        TermView::Opr(_, _) => {
        },
        TermView::Rec(_) => {
        },
    }
}

/// Splitting what a skeleton and metadata were merged into gives the two
/// back.
pub proof fn lemma_split_merge(a: AnonView, m: MetaView)
    requires
        spec_merge(a, m) is Ok,
    ensures
        spec_split(spec_merge(a, m)->Ok_0) == (a, m),
    decreases a,
{
    match a {
        AnonView::Var(_) => {
            assert(m.children =~= Seq::<MetaView>::empty());
        },
        AnonView::Lam(body) => {
            lemma_split_merge(*body, m.children[0]);
            assert(m.children =~= seq![m.children[0]]);
        },
        AnonView::App(function, argument) => {
            lemma_split_merge(*function, m.children[0]);
            lemma_split_merge(*argument, m.children[1]);
            assert(m.children =~= seq![m.children[0], m.children[1]]);
        },
        AnonView::All(_, domain, image) => {
            lemma_split_merge(*domain, m.children[0]);
            lemma_split_merge(*image, m.children[1]);
            assert(m.children =~= seq![m.children[0], m.children[1]]);
        },
        AnonView::Slf(body) => {
            lemma_split_merge(*body, m.children[0]);
            assert(m.children =~= seq![m.children[0]]);
        },
        AnonView::Dat(body) => {
            lemma_split_merge(*body, m.children[0]);
            assert(m.children =~= seq![m.children[0]]);
        },
        AnonView::Cse(body) => {
            lemma_split_merge(*body, m.children[0]);
            assert(m.children =~= seq![m.children[0]]);
        },
        AnonView::Ref(_) => {
            assert(m.children =~= Seq::<MetaView>::empty());
        },
        AnonView::Let(_, _, typ, value, body) => {
            lemma_split_merge(*typ, m.children[0]);
            lemma_split_merge(*value, m.children[1]);
            lemma_split_merge(*body, m.children[2]);
            assert(m.children =~= seq![m.children[0], m.children[1], m.children[2]]);
        },
        AnonView::Typ => {
            assert(m.children =~= Seq::<MetaView>::empty());
        },
        AnonView::Ann(typ, value) => {
            lemma_split_merge(*typ, m.children[0]);
            lemma_split_merge(*value, m.children[1]);
            assert(m.children =~= seq![m.children[0], m.children[1]]);
        },
        AnonView::Lit(_) => {
            assert(m.children =~= Seq::<MetaView>::empty());
        },
        AnonView::LTy(_) => {
            assert(m.children =~= Seq::<MetaView>::empty());
        },
        AnonView::Opr(_) => {
            assert(m.children =~= Seq::<MetaView>::empty());
        },
        AnonView::Rec => {
            assert(m.children =~= Seq::<MetaView>::empty());
        },
    }
}

/// Where every identifier of a term exists, every identifier of what it is
/// split into exists.
pub proof fn lemma_split_valid(t: TermView)
    requires
        t.valid(),
    ensures
        spec_split(t).0.valid(),
        spec_split(t).1.valid(),
    decreases t,
{
    let m = spec_split(t).1;
    match t {
        TermView::Var(_, _, _) => {
        },
        TermView::Lam(_, _, body) => {
            lemma_split_valid(*body);
        },
        TermView::App(_, function, argument) => {
            lemma_split_valid(*function);
            lemma_split_valid(*argument);
        },
        TermView::All(_, _, _, domain, image) => {
            lemma_split_valid(*domain);
            lemma_split_valid(*image);
        },
        TermView::Slf(_, _, body) => {
            lemma_split_valid(*body);
        },
        TermView::Dat(_, body) => {
            lemma_split_valid(*body);
        },
        TermView::Cse(_, body) => {
            lemma_split_valid(*body);
        },
        TermView::Ref(_, _, _, _) => {
        },
        TermView::Let(_, _, _, _, typ, value, body) => {
            lemma_split_valid(*typ);
            lemma_split_valid(*value);
            lemma_split_valid(*body);
        },
        TermView::Typ(_) => {
        },
        TermView::Ann(_, typ, value) => {
            lemma_split_valid(*typ);
            lemma_split_valid(*value);
        },
        TermView::Lit(_, _) => {
        },
        TermView::LTy(_, _) => {
        },
        TermView::Opr(_, _) => {
        },
        TermView::Rec(_) => {
        },
    }
    assert forall|i: int| 0 <= i < m.children.len() implies (#[trigger] m.children[i]).valid() by {
    }
}

fn node0(pos: &Pos, name: Option<String>, link: Option<Cid>) -> (m: Meta)
    ensures
        m@ == (MetaView {
            pos: pos@,
            name: match name {
                Some(n) => Some(n@),
                None => None,
            },
            link: match link {
                Some(c) => Some(c@),
                None => None,
            },
            children: Seq::empty(),
        }),
{
    let mut children: Vec<Meta> = Vec::new();
    let m = Meta { pos: pos.clone(), name, link, children };
    proof {
        lemma_meta_view(m);
        assert(m@.children =~= Seq::empty());
    }
    m
}

fn node1(pos: &Pos, name: Option<String>, link: Option<Cid>, a: Meta) -> (m: Meta)
    ensures
        m@ == (MetaView {
            pos: pos@,
            name: match name {
                Some(n) => Some(n@),
                None => None,
            },
            link: match link {
                Some(c) => Some(c@),
                None => None,
            },
            children: seq![a@],
        }),
{
    let mut children: Vec<Meta> = Vec::new();
    children.push(a);
    let m = Meta { pos: pos.clone(), name, link, children };
    proof {
        lemma_meta_view(m);
        assert(m@.children =~= seq![a@]);
    }
    m
}

fn node2(pos: &Pos, name: Option<String>, link: Option<Cid>, a: Meta, b: Meta) -> (m: Meta)
    ensures
        m@ == (MetaView {
            pos: pos@,
            name: match name {
                Some(n) => Some(n@),
                None => None,
            },
            link: match link {
                Some(c) => Some(c@),
                None => None,
            },
            children: seq![a@, b@],
        }),
{
    let mut children: Vec<Meta> = Vec::new();
    children.push(a);
    children.push(b);
    let m = Meta { pos: pos.clone(), name, link, children };
    proof {
        lemma_meta_view(m);
        assert(m@.children =~= seq![a@, b@]);
    }
    m
}

fn node3(pos: &Pos, name: Option<String>, link: Option<Cid>, a: Meta, b: Meta, c: Meta) -> (m: Meta)
    ensures
        m@ == (MetaView {
            pos: pos@,
            name: match name {
                Some(n) => Some(n@),
                None => None,
            },
            link: match link {
                Some(c) => Some(c@),
                None => None,
            },
            children: seq![a@, b@, c@],
        }),
{
    let mut children: Vec<Meta> = Vec::new();
    children.push(a);
    children.push(b);
    children.push(c);
    let m = Meta { pos: pos.clone(), name, link, children };
    proof {
        lemma_meta_view(m);
        assert(m@.children =~= seq![a@, b@, c@]);
    }
    m
}

/// The anonymous skeleton of a term, and its metadata.
pub fn split(t: &Term) -> (r: (AnonTerm, Meta))
    ensures
        (r.0@, r.1@) == spec_split(t@),
    decreases t,
{
    match t {
        Term::Var(pos, name, index) => {
            (AnonTerm::Var(*index), node0(pos, Some(name.clone()), None))
        },
        Term::Lam(pos, name, body) => {
            let body = split(&**body);
            (AnonTerm::Lam(Box::new(body.0)), node1(pos, Some(name.clone()), None, body.1))
        },
        Term::App(pos, function, argument) => {
            let function = split(&**function);
            let argument = split(&**argument);
            (
                AnonTerm::App(Box::new(function.0), Box::new(argument.0)),
                node2(pos, None, None, function.1, argument.1),
            )
        },
        Term::All(pos, uses, name, domain, image) => {
            let domain = split(&**domain);
            let image = split(&**image);
            (
                AnonTerm::All(*uses, Box::new(domain.0), Box::new(image.0)),
                node2(pos, Some(name.clone()), None, domain.1, image.1),
            )
        },
        Term::Slf(pos, name, body) => {
            let body = split(&**body);
            (AnonTerm::Slf(Box::new(body.0)), node1(pos, Some(name.clone()), None, body.1))
        },
        Term::Dat(pos, body) => {
            let body = split(&**body);
            (AnonTerm::Dat(Box::new(body.0)), node1(pos, None, None, body.1))
        },
        Term::Cse(pos, body) => {
            let body = split(&**body);
            (AnonTerm::Cse(Box::new(body.0)), node1(pos, None, None, body.1))
        },
        Term::Ref(pos, name, def, ast) => {
            (AnonTerm::Ref(ast.clone()), node0(pos, Some(name.clone()), Some(def.clone())))
        },
        Term::Let(pos, recursive, uses, name, typ, value, body) => {
            let typ = split(&**typ);
            let value = split(&**value);
            let body = split(&**body);
            (
                AnonTerm::Let(
                    *recursive,
                    *uses,
                    Box::new(typ.0),
                    Box::new(value.0),
                    Box::new(body.0),
                ),
                node3(pos, Some(name.clone()), None, typ.1, value.1, body.1),
            )
        },
        Term::Typ(pos) => {
            (AnonTerm::Typ, node0(pos, None, None))
        },
        Term::Ann(pos, typ, value) => {
            let typ = split(&**typ);
            let value = split(&**value);
            (
                AnonTerm::Ann(Box::new(typ.0), Box::new(value.0)),
                node2(pos, None, None, typ.1, value.1),
            )
        },
        Term::Lit(pos, literal) => {
            (AnonTerm::Lit(literal.clone()), node0(pos, None, None))
        },
        Term::LTy(pos, typ) => {
            (AnonTerm::LTy(*typ), node0(pos, None, None))
        },
        Term::Opr(pos, op) => {
            (AnonTerm::Opr(*op), node0(pos, None, None))
        },
        Term::Rec(pos) => {
            (AnonTerm::Rec, node0(pos, None, None))
        },
    }
}

/// Whether a metadata node fits a constructor, and why not.
fn fit(m: &Meta, children: usize, named: bool, linked: bool) -> (r: Result<(), IpldError>)
    ensures
        match r {
            Ok(_) => misfit(m@, children as nat, named, linked) is None,
            Err(e) => misfit(m@, children as nat, named, linked) == Some(e@),
        },
{
    proof {
        lemma_meta_view(*m);
    }
    if m.children.len() != children {
        Err(IpldError::MetaMismatch)
    } else if linked != m.link.is_some() {
        Err(IpldError::MetaMismatch)
    } else if !named && m.name.is_some() {
        Err(IpldError::MetaMismatch)
    } else if named && m.name.is_none() {
        Err(IpldError::NameMissing)
    } else {
        Ok(())
    }
}

fn name_of(m: &Meta) -> (n: String)
    requires
        m.name is Some,
    ensures
        Some(n@) == m@.name,
{
    match &m.name {
        Some(n) => n.clone(),
        None => vstd::pervasive::unreached(),
    }
}

fn link_of(m: &Meta) -> (c: Cid)
    requires
        m.link is Some,
    ensures
        Some(c@) == m@.link,
{
    match &m.link {
        Some(c) => c.clone(),
        None => vstd::pervasive::unreached(),
    }
}

/// The term that an anonymous skeleton and metadata make together, or why
/// they make none.
pub fn merge(a: &AnonTerm, m: &Meta) -> (r: Result<Term, IpldError>)
    ensures
        decoded(r) == spec_merge(a@, m@),
    decreases a,
{
    proof {
        lemma_meta_view(*m);
    }
    match a {
        AnonTerm::Var(index) => {
            fit(m, 0, true, false)?;
            Ok(Term::Var(m.pos.clone(), name_of(m), *index))
        },
        AnonTerm::Lam(body) => {
            fit(m, 1, true, false)?;
            let body = merge(&**body, &m.children[0])?;
            Ok(Term::Lam(m.pos.clone(), name_of(m), Box::new(body)))
        },
        AnonTerm::App(function, argument) => {
            fit(m, 2, false, false)?;
            let function = merge(&**function, &m.children[0])?;
            let argument = merge(&**argument, &m.children[1])?;
            Ok(Term::App(m.pos.clone(), Box::new(function), Box::new(argument)))
        },
        AnonTerm::All(uses, domain, image) => {
            fit(m, 2, true, false)?;
            let domain = merge(&**domain, &m.children[0])?;
            let image = merge(&**image, &m.children[1])?;
            Ok(Term::All(m.pos.clone(), *uses, name_of(m), Box::new(domain), Box::new(image)))
        },
        AnonTerm::Slf(body) => {
            fit(m, 1, true, false)?;
            let body = merge(&**body, &m.children[0])?;
            Ok(Term::Slf(m.pos.clone(), name_of(m), Box::new(body)))
        },
        AnonTerm::Dat(body) => {
            fit(m, 1, false, false)?;
            let body = merge(&**body, &m.children[0])?;
            Ok(Term::Dat(m.pos.clone(), Box::new(body)))
        },
        AnonTerm::Cse(body) => {
            fit(m, 1, false, false)?;
            let body = merge(&**body, &m.children[0])?;
            Ok(Term::Cse(m.pos.clone(), Box::new(body)))
        },
        AnonTerm::Ref(ast) => {
            fit(m, 0, true, true)?;
            Ok(Term::Ref(m.pos.clone(), name_of(m), link_of(m), ast.clone()))
        },
        AnonTerm::Let(recursive, uses, typ, value, body) => {
            fit(m, 3, true, false)?;
            let typ = merge(&**typ, &m.children[0])?;
            let value = merge(&**value, &m.children[1])?;
            let body = merge(&**body, &m.children[2])?;
            Ok(
                Term::Let(
                    m.pos.clone(),
                    *recursive,
                    *uses,
                    name_of(m),
                    Box::new(typ),
                    Box::new(value),
                    Box::new(body),
                ),
            )
        },
        AnonTerm::Typ => {
            fit(m, 0, false, false)?;
            Ok(Term::Typ(m.pos.clone()))
        },
        AnonTerm::Ann(typ, value) => {
            fit(m, 2, false, false)?;
            let typ = merge(&**typ, &m.children[0])?;
            let value = merge(&**value, &m.children[1])?;
            Ok(Term::Ann(m.pos.clone(), Box::new(typ), Box::new(value)))
        },
        AnonTerm::Lit(literal) => {
            fit(m, 0, false, false)?;
            Ok(Term::Lit(m.pos.clone(), literal.clone()))
        },
        AnonTerm::LTy(typ) => {
            fit(m, 0, false, false)?;
            Ok(Term::LTy(m.pos.clone(), *typ))
        },
        AnonTerm::Opr(op) => {
            fit(m, 0, false, false)?;
            Ok(Term::Opr(m.pos.clone(), *op))
        },
        AnonTerm::Rec => {
            fit(m, 0, false, false)?;
            Ok(Term::Rec(m.pos.clone()))
        },
    }
}

} // verus!
