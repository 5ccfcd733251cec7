//! Metadata: the names and positions of a term, apart from its anonymous
//! skeleton.

use vstd::prelude::*;
use crate::address::{Cid, CidView};
use crate::error::{decoded, IpldError, IpldErrorView};
use crate::ipld::{lemma_list_view, views, Value, ValueView};
use crate::position::{Pos, PositionView};

verus! {

broadcast use vstd::std_specs::vec::group_vec_axioms;

/// One node of a metadata tree: what a constructor of a term holds beside
/// its anonymous form, and the metadata of the terms under it.
#[derive(Debug, PartialEq)]
pub struct Meta {
    /// Where the term was read.
    pub pos: Pos,
    /// The name of a variable, a binder or a definition.
    pub name: Option<String>,
    /// The entry of a definition.
    pub link: Option<Cid>,
    /// The metadata of the terms directly under this one, in order.
    pub children: Vec<Meta>,
}

/// What a [`Meta`] holds, as mathematical values.
pub struct MetaView {
    pub pos: Option<PositionView>,
    pub name: Option<Seq<char>>,
    pub link: Option<CidView>,
    pub children: Seq<MetaView>,
}

impl View for Meta {
    type V = MetaView;

    open spec fn view(&self) -> MetaView
        decreases self,
    {
        MetaView {
            pos: self.pos@,
            name: match self.name {
                Some(n) => Some(n@),
                None => None,
            },
            link: match self.link {
                Some(c) => Some(c@),
                None => None,
            },
            children: Seq::new(
                self.children.len() as nat,
                |i: int|
                    if 0 <= i < self.children.len() {
                        self.children[i]@
                    } else {
                        arbitrary()
                    },
            ),
        }
    }
}

/// The views of metadata trees, in order.
pub open spec fn meta_views(items: Seq<Meta>) -> Seq<MetaView> {
    Seq::new(items.len(), |i: int| items[i]@)
}

/// The children of a view are the views of the children, and each child is
/// smaller than its parent.
pub proof fn lemma_meta_view(m: Meta)
    ensures
        m@.children == meta_views(m.children@),
        forall|i: int| 0 <= i < m.children.len() ==> decreases_to!(m => #[trigger] m.children[i]),
{
    reveal_with_fuel(<Meta as View>::view, 2);
    assert(m@.children =~= meta_views(m.children@));
    assert(decreases_to!(m => m.children));
}

/// The canonical form of a name that may be missing.
pub open spec fn name_to_ipld(name: Option<Seq<char>>) -> ValueView {
    match name {
        Some(n) => ValueView::String(n),
        None => ValueView::Null,
    }
}

/// The canonical form of a link that may be missing.
pub open spec fn link_to_ipld(link: Option<CidView>) -> ValueView {
    match link {
        Some(c) => ValueView::Link(c),
        None => ValueView::Null,
    }
}

impl MetaView {
    /// The trees in which every identifier exists.
    pub open spec fn valid(self) -> bool
        decreases self,
    {
        &&& Pos::valid(self.pos)
        &&& self.link matches Some(c) ==> c.valid()
        &&& forall|i: int| 0 <= i < self.children.len() ==> (#[trigger] self.children[i]).valid()
    }

    /// The canonical form of a tree: its position, its name or null, its
    /// link or null, and the list of the forms of its children.
    pub open spec fn to_ipld(self) -> ValueView
        decreases self,
    {
        ValueView::List(
            seq![
                Pos::spec_to_ipld(self.pos),
                name_to_ipld(self.name),
                link_to_ipld(self.link),
                ValueView::List(
                    Seq::new(
                        self.children.len(),
                        |i: int|
                            if 0 <= i < self.children.len() {
                                self.children[i].to_ipld()
                            } else {
                                ValueView::Null
                            },
                    ),
                ),
            ],
        )
    }

    /// The tree that a value is the canonical form of.
    pub open spec fn from_ipld(v: ValueView) -> Result<MetaView, IpldErrorView>
        decreases v, 0nat,
    {
        match v {
            ValueView::List(xs) => {
                if xs.len() != 4 {
                    Err(IpldErrorView::InvalidShape(v))
                } else {
                    match (xs[1], xs[2], xs[3]) {
                        (
                            ValueView::String(_) | ValueView::Null,
                            ValueView::Link(_) | ValueView::Null,
                            ValueView::List(cs),
                        ) => match Pos::spec_from_ipld(xs[0]) {
                            Err(e) => Err(e),
                            Ok(pos) => match Self::all_from_ipld(cs) {
                                Err(e) => Err(e),
                                Ok(children) => Ok(
                                    MetaView {
                                        pos,
                                        name: match xs[1] {
                                            ValueView::String(n) => Some(n),
                                            _ => None,
                                        },
                                        link: match xs[2] {
                                            ValueView::Link(c) => Some(c),
                                            _ => None,
                                        },
                                        children,
                                    },
                                ),
                            },
                        },
                        _ => Err(IpldErrorView::InvalidShape(v)),
                    }
                }
            },
            _ => Err(IpldErrorView::InvalidShape(v)),
        }
    }

    /// The trees that values are the canonical forms of, or what the first
    /// of them that is the form of none answers.
    pub open spec fn all_from_ipld(vs: Seq<ValueView>) -> Result<Seq<MetaView>, IpldErrorView>
        decreases vs, 1nat,
    {
        if vs.len() == 0 {
            Ok(Seq::empty())
        } else {
            match Self::from_ipld(vs[0]) {
                Err(e) => Err(e),
                Ok(first) => match Self::all_from_ipld(vs.drop_first()) {
                    Err(e) => Err(e),
                    Ok(rest) => Ok(seq![first] + rest),
                },
            }
        }
    }
}

/// Where every value is the form of a tree, the values are the forms of
/// those trees.
pub proof fn lemma_all_ok(vs: Seq<ValueView>, ms: Seq<MetaView>)
    requires
        ms.len() == vs.len(),
        forall|j: int|
            0 <= j < vs.len() ==> MetaView::from_ipld(#[trigger] vs[j]) == Ok::<
                MetaView,
                IpldErrorView,
            >(ms[j]),
    ensures
        MetaView::all_from_ipld(vs) == Ok::<Seq<MetaView>, IpldErrorView>(ms),
    decreases vs.len(),
{
    if vs.len() == 0 {
        assert(ms =~= Seq::empty());
    } else {
        assert(MetaView::from_ipld(vs[0]) == Ok::<MetaView, IpldErrorView>(ms[0]));
        assert forall|j: int| 0 <= j < vs.drop_first().len() implies MetaView::from_ipld(
            #[trigger] vs.drop_first()[j],
        ) == Ok::<MetaView, IpldErrorView>(ms.drop_first()[j]) by {
            assert(vs.drop_first()[j] == vs[j + 1]);
        }
        lemma_all_ok(vs.drop_first(), ms.drop_first());
        assert(seq![ms[0]] + ms.drop_first() =~= ms);
    }
}

/// The first value that is the form of no tree decides what the values
/// answer.
pub proof fn lemma_all_err(vs: Seq<ValueView>, k: int)
    requires
        0 <= k < vs.len(),
        forall|j: int| 0 <= j < k ==> MetaView::from_ipld(#[trigger] vs[j]) is Ok,
        MetaView::from_ipld(vs[k]) is Err,
    ensures
        MetaView::all_from_ipld(vs) == Err::<Seq<MetaView>, IpldErrorView>(
            MetaView::from_ipld(vs[k])->Err_0,
        ),
    decreases k,
{
    if k > 0 {
        assert(MetaView::from_ipld(vs[0]) is Ok);
        assert forall|j: int| 0 <= j < k - 1 implies MetaView::from_ipld(
            #[trigger] vs.drop_first()[j],
        ) is Ok by {
            assert(vs.drop_first()[j] == vs[j + 1]);
        }
        assert(vs.drop_first()[k - 1] == vs[k]);
        lemma_all_err(vs.drop_first(), k - 1);
    }
}

/// Decoding the canonical form of a tree gives the tree back.
pub proof fn lemma_meta_roundtrip(m: MetaView)
    ensures
        MetaView::from_ipld(m.to_ipld()) == Ok::<MetaView, IpldErrorView>(m),
    decreases m,
{
    reveal_with_fuel(MetaView::to_ipld, 2);
    let v = m.to_ipld();
    let xs = v->List_0;
    let cs = xs[3]->List_0;
    Pos::lemma_roundtrip(m.pos);
    assert forall|j: int| 0 <= j < cs.len() implies MetaView::from_ipld(#[trigger] cs[j]) == Ok::<
        MetaView,
        IpldErrorView,
    >(m.children[j]) by {
        lemma_meta_roundtrip(m.children[j]);
    }
    lemma_all_ok(cs, m.children);
}

/// The canonical form of a valid tree has a block.
pub proof fn lemma_meta_encodable(m: MetaView)
    requires
        m.valid(),
    ensures
        m.to_ipld().encodable(),
    decreases m,
{
    reveal_with_fuel(MetaView::to_ipld, 2);
    reveal_with_fuel(ValueView::encodable, 3);
    let v = m.to_ipld();
    let xs = v->List_0;
    let cs = xs[3]->List_0;
    Pos::lemma_encodable(m.pos);
    assert forall|j: int| 0 <= j < cs.len() implies (#[trigger] cs[j]).encodable() by {
        lemma_meta_encodable(m.children[j]);
    }
    assert forall|j: int| 0 <= j < xs.len() implies (#[trigger] xs[j]).encodable() by {
    }
}

impl Clone for Meta {
    fn clone(&self) -> (r: Self)
        ensures
            r@ == self@,
        decreases self,
    {
        let mut children: Vec<Meta> = Vec::new();
        let mut i: usize = 0;
        while i < self.children.len()
            invariant
                i <= self.children.len(),
                children.len() == i,
                forall|j: int| 0 <= j < i ==> children[j]@ == self.children[j]@,
            decreases self.children.len() - i,
        {
            proof {
                lemma_meta_view(*self);
            }
            children.push(self.children[i].clone());
            i += 1;
        }
        let name = match &self.name {
            Some(n) => Some(n.clone()),
            None => None,
        };
        let link = match &self.link {
            Some(c) => Some(c.clone()),
            None => None,
        };
        let r = Meta { pos: self.pos.clone(), name, link, children };
        proof {
            lemma_meta_view(*self);
            lemma_meta_view(r);
            assert(r@.children =~= self@.children);
        }
        r
    }
}

impl Meta {
    /// The canonical form of the tree.
    pub fn to_ipld(&self) -> (v: Value)
        ensures
            v@ == self@.to_ipld(),
        decreases self,
    {
        let mut kids: Vec<Value> = Vec::new();
        let mut i: usize = 0;
        while i < self.children.len()
            invariant
                i <= self.children.len(),
                kids.len() == i,
                forall|j: int| 0 <= j < i ==> kids[j]@ == self.children[j]@.to_ipld(),
            decreases self.children.len() - i,
        {
            proof {
                lemma_meta_view(*self);
            }
            kids.push(self.children[i].to_ipld());
            i += 1;
        }
        let name = match &self.name {
            Some(n) => Value::String(n.clone()),
            None => Value::Null,
        };
        let link = match &self.link {
            Some(c) => Value::Link(c.clone()),
            None => Value::Null,
        };
        let kids_form = Value::list(kids);
        let mut items: Vec<Value> = Vec::new();
        items.push(self.pos.to_ipld());
        items.push(name);
        items.push(link);
        items.push(kids_form);
        let v = Value::list(items);
        proof {
            lemma_meta_view(*self);
            reveal_with_fuel(MetaView::to_ipld, 2);
            let want = self@.to_ipld();
            assert(kids_form@->List_0 =~= want->List_0[3]->List_0);
            assert(v@->List_0 =~= want->List_0);
        }
        v
    }

    /// The tree that a value is the canonical form of.
    pub fn from_ipld(ipld: &Value) -> (r: Result<Meta, IpldError>)
        ensures
            decoded(r) == MetaView::from_ipld(ipld@),
        decreases ipld,
    {
        match ipld {
            Value::List(xs) => {
                proof {
                    lemma_list_view(*ipld);
                }
                if xs.len() != 4 {
                    return Err(IpldError::InvalidShape(ipld.clone()));
                }
                let name = match &xs[1] {
                    Value::String(n) => Some(n.clone()),
                    Value::Null => None,
                    _ => {
                        return Err(IpldError::InvalidShape(ipld.clone()));
                    },
                };
                let link = match &xs[2] {
                    Value::Link(c) => Some(c.clone()),
                    Value::Null => None,
                    _ => {
                        return Err(IpldError::InvalidShape(ipld.clone()));
                    },
                };
                let cs = match &xs[3] {
                    Value::List(cs) => cs,
                    _ => {
                        return Err(IpldError::InvalidShape(ipld.clone()));
                    },
                };
                proof {
                    lemma_list_view(xs[3]);
                }
                let pos = Pos::from_ipld(&xs[0])?;
                let mut children: Vec<Meta> = Vec::new();
                let mut i: usize = 0;
                while i < cs.len()
                    invariant
                        i <= cs.len(),
                        children.len() == i,
                        ipld is List,
                        ipld->List_0 == *xs,
                        xs.len() == 4,
                        xs[3] is List,
                        xs[3]->List_0 == *cs,
                        ipld@ == ValueView::List(views(xs@)),
                        xs[3]@ == ValueView::List(views(cs@)),
                        xs[1] is String || xs[1] is Null,
                        xs[2] is Link || xs[2] is Null,
                        Pos::spec_from_ipld(xs[0]@) is Ok,
                        forall|j: int|
                            0 <= j < i ==> MetaView::from_ipld(#[trigger] views(cs@)[j]) == Ok::<
                                MetaView,
                                IpldErrorView,
                            >(children[j]@),
                    decreases cs.len() - i,
                {
                    proof {
                        lemma_list_view(*ipld);
                        lemma_list_view(xs[3]);
                    }
                    match Meta::from_ipld(&cs[i]) {
                        Ok(m) => {
                            children.push(m);
                        },
                        Err(e) => {
                            proof {
                                lemma_all_err(views(cs@), i as int);
                            }
                            return Err(e);
                        },
                    }
                    i += 1;
                }
                let r = Meta { pos, name, link, children };
                proof {
                    lemma_meta_view(r);
                    lemma_all_ok(views(cs@), r@.children);
                }
                Ok(r)
            },
            _ => Err(IpldError::InvalidShape(ipld.clone())),
        }
    }
}

} // verus!
