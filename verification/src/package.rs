//! Packages: named definitions, each split into blocks, and the imports
//! that bring the definitions of other packages into scope.

use vstd::prelude::*;
use crate::address::{Cid, CidView};
use crate::bytes::{copy_texts, join, same_text, texts};
use crate::codec::{block_cid, dag_cbor};
use crate::error::{decoded, IpldError, IpldErrorView};
use crate::ipld::{all_from, lemma_all_from_err, lemma_all_from_ok, lemma_list_view, views};
use crate::ipld::{Value, ValueView};
use crate::meta::{lemma_meta_encodable, lemma_meta_roundtrip, Meta, MetaView};
use crate::position::{Pos, PositionView};

verus! {

/// The definitions of a package: each name with the block of its entry, in
/// the order of the source text. No name stands twice.
#[derive(Debug, PartialEq)]
pub struct Index(pub Vec<(String, Cid)>);

/// What an [`Index`] holds, as mathematical values.
pub struct IndexView {
    pub entries: Seq<(Seq<char>, CidView)>,
}

/// The views of the entries of an index, in order.
pub open spec fn index_entries(entries: Seq<(String, Cid)>) -> Seq<(Seq<char>, CidView)> {
    Seq::new(entries.len(), |i: int| (entries[i].0@, entries[i].1@))
}

impl View for Index {
    type V = IndexView;

    open spec fn view(&self) -> IndexView {
        IndexView { entries: index_entries(self.0@) }
    }
}

/// Whether one of `entries` has the name `name`.
pub open spec fn has_name(entries: Seq<(Seq<char>, CidView)>, name: Seq<char>) -> bool {
    exists|k: int| 0 <= k < entries.len() && (#[trigger] entries[k]).0 == name
}

/// Whether no name stands twice among `entries`.
pub open spec fn unique_names(entries: Seq<(Seq<char>, CidView)>) -> bool {
    forall|i: int, j: int|
        0 <= i < j < entries.len() ==> (#[trigger] entries[i]).0 != (#[trigger] entries[j]).0
}

impl IndexView {
    /// No name stands twice.
    pub open spec fn unique(self) -> bool {
        unique_names(self.entries)
    }

    /// Every identifier exists.
    pub open spec fn valid(self) -> bool {
        forall|i: int| 0 <= i < self.entries.len() ==> (#[trigger] self.entries[i]).1.valid()
    }

    /// The names, in order.
    pub open spec fn names(self) -> Seq<Seq<char>> {
        Seq::new(self.entries.len(), |i: int| self.entries[i].0)
    }

    /// The canonical form of one entry: its name and a link.
    pub open spec fn entry_to_ipld(e: (Seq<char>, CidView)) -> ValueView {
        ValueView::List(seq![ValueView::String(e.0), ValueView::Link(e.1)])
    }

    /// The canonical form of an index: the list of the forms of its entries.
    pub open spec fn to_ipld(self) -> ValueView {
        ValueView::List(
            Seq::new(self.entries.len(), |i: int| Self::entry_to_ipld(self.entries[i])),
        )
    }

    /// The entry that a value is the canonical form of.
    pub open spec fn entry_from_ipld(v: ValueView) -> Result<(Seq<char>, CidView), IpldErrorView> {
        match v {
            ValueView::List(xs) => {
                if xs.len() == 2 {
                    match (xs[0], xs[1]) {
                        (ValueView::String(n), ValueView::Link(c)) => Ok((n, c)),
                        _ => Err(IpldErrorView::InvalidShape(v)),
                    }
                } else {
                    Err(IpldErrorView::InvalidShape(v))
                }
            },
            _ => Err(IpldErrorView::InvalidShape(v)),
        }
    }

    /// The entries that the values from the `i`th on are the forms of, behind
    /// the entries `seen` of those before: the first value that is the form
    /// of no entry, or of one whose name was seen, decides the error.
    pub open spec fn entries_from(
        vs: Seq<ValueView>,
        i: int,
        seen: Seq<(Seq<char>, CidView)>,
    ) -> Result<Seq<(Seq<char>, CidView)>, IpldErrorView>
        decreases vs.len() - i,
    {
        if i < 0 || i >= vs.len() {
            Ok(seen)
        } else {
            match Self::entry_from_ipld(vs[i]) {
                Err(e) => Err(e),
                Ok(entry) => {
                    if has_name(seen, entry.0) {
                        Err(IpldErrorView::DuplicateName(entry.0))
                    } else {
                        Self::entries_from(vs, i + 1, seen.push(entry))
                    }
                },
            }
        }
    }

    /// The index that a value is the canonical form of.
    pub open spec fn from_ipld(v: ValueView) -> Result<IndexView, IpldErrorView> {
        match v {
            ValueView::List(vs) => match Self::entries_from(vs, 0, Seq::empty()) {
                Ok(entries) => Ok(IndexView { entries }),
                Err(e) => Err(e),
            },
            _ => Err(IpldErrorView::InvalidShape(v)),
        }
    }

    proof fn lemma_entries_from(self, i: int)
        requires
            self.unique(),
            0 <= i <= self.entries.len(),
        ensures
            Self::entries_from(self.to_ipld()->List_0, i, self.entries.take(i)) == Ok::<
                Seq<(Seq<char>, CidView)>,
                IpldErrorView,
            >(self.entries),
        decreases self.entries.len() - i,
    {
        let vs = self.to_ipld()->List_0;
        if i < self.entries.len() {
            let e = self.entries[i];
            assert(vs[i] == Self::entry_to_ipld(e));
            assert(Self::entry_from_ipld(vs[i]) == Ok::<(Seq<char>, CidView), IpldErrorView>(e));
            assert(!has_name(self.entries.take(i), e.0)) by {
                if has_name(self.entries.take(i), e.0) {
                    let k = choose|k: int|
                        0 <= k < self.entries.take(i).len() && (#[trigger] self.entries.take(
                            i,
                        )[k]).0 == e.0;
                    assert(self.entries[k].0 == self.entries[i].0);
                }
            }
            assert(self.entries.take(i).push(e) =~= self.entries.take(i + 1));
            self.lemma_entries_from(i + 1);
        } else {
            assert(self.entries.take(i) =~= self.entries);
        }
    }

    /// Decoding the canonical form of an index without a repeated name gives
    /// the index back.
    pub proof fn lemma_roundtrip(self)
        requires
            self.unique(),
        ensures
            Self::from_ipld(self.to_ipld()) == Ok::<IndexView, IpldErrorView>(self),
    {
        self.lemma_entries_from(0);
        assert(self.entries.take(0) =~= Seq::empty());
    }

    proof fn lemma_entries_unique(
        vs: Seq<ValueView>,
        i: int,
        seen: Seq<(Seq<char>, CidView)>,
    )
        requires
            0 <= i <= vs.len(),
            unique_names(seen),
            Self::entries_from(vs, i, seen) is Ok,
        ensures
            unique_names(Self::entries_from(vs, i, seen)->Ok_0),
        decreases vs.len() - i,
    {
        if i < vs.len() {
            let entry = Self::entry_from_ipld(vs[i])->Ok_0;
            let next = seen.push(entry);
            assert(unique_names(next)) by {
                assert forall|a: int, b: int| 0 <= a < b < next.len() implies (
                #[trigger] next[a]).0 != (#[trigger] next[b]).0 by {
                    if b == seen.len() {
                        assert(next[a] == seen[a]);
                        assert(next[b] == entry);
                        assert(!has_name(seen, entry.0));
                        assert(seen[a].0 != entry.0);
                    } else {
                        assert(next[a] == seen[a] && next[b] == seen[b]);
                        assert(seen[a].0 != seen[b].0);
                    }
                }
            }
            Self::lemma_entries_unique(vs, i + 1, next);
        }
    }

    /// What decodes as an index has no repeated name.
    pub proof fn lemma_decoded_unique(v: ValueView)
        requires
            Self::from_ipld(v) is Ok,
        ensures
            Self::from_ipld(v)->Ok_0.unique(),
    {
        Self::lemma_entries_unique(v->List_0, 0, Seq::empty());
    }

    /// The canonical form of an index of valid identifiers has a block.
    pub proof fn lemma_encodable(self)
        requires
            self.valid(),
        ensures
            self.to_ipld().encodable(),
    {
        reveal_with_fuel(ValueView::encodable, 3);
        let vs = self.to_ipld()->List_0;
        assert forall|i: int| 0 <= i < vs.len() implies (#[trigger] vs[i]).encodable() by {
            let xs = vs[i]->List_0;
            assert(self.entries[i].1.valid());
            assert forall|j: int| 0 <= j < xs.len() implies (#[trigger] xs[j]).encodable() by {
            }
        }
    }
}

impl Clone for Index {
    fn clone(&self) -> (r: Self)
        ensures
            r@ == self@,
    {
        let mut out: Vec<(String, Cid)> = Vec::new();
        let mut i: usize = 0;
        while i < self.0.len()
            invariant
                i <= self.0.len(),
                out.len() == i,
                forall|j: int|
                    0 <= j < i ==> out[j].0@ == self.0[j].0@ && out[j].1@ == self.0[j].1@,
            decreases self.0.len() - i,
        {
            out.push((self.0[i].0.clone(), self.0[i].1.clone()));
            i += 1;
        }
        let r = Index(out);
        assert(r@.entries =~= self@.entries);
        r
    }
}

fn seen_name(entries: &Vec<(String, Cid)>, name: &String) -> (b: bool)
    ensures
        b == has_name(index_entries(entries@), name@),
{
    let mut i: usize = 0;
    while i < entries.len()
        invariant
            i <= entries.len(),
            forall|k: int| 0 <= k < i ==> index_entries(entries@)[k].0 != name@,
        decreases entries.len() - i,
    {
        if same_text(entries[i].0.as_str(), name.as_str()) {
            assert(index_entries(entries@)[i as int].0 == name@);
            return true;
        }
        i += 1;
    }
    false
}

impl Index {
    /// The canonical form of the index.
    pub fn to_ipld(&self) -> (v: Value)
        ensures
            v@ == self@.to_ipld(),
    {
        let mut items: Vec<Value> = Vec::new();
        let mut i: usize = 0;
        while i < self.0.len()
            invariant
                i <= self.0.len(),
                items.len() == i,
                forall|j: int|
                    0 <= j < i ==> items[j]@ == IndexView::entry_to_ipld(
                        #[trigger] self@.entries[j],
                    ),
            decreases self.0.len() - i,
        {
            let mut pair: Vec<Value> = Vec::new();
            pair.push(Value::String(self.0[i].0.clone()));
            pair.push(Value::Link(self.0[i].1.clone()));
            let item = Value::list(pair);
            assert(item@->List_0 =~= IndexView::entry_to_ipld(self@.entries[i as int])->List_0);
            items.push(item);
            i += 1;
        }
        let v = Value::list(items);
        assert(v@->List_0 =~= self@.to_ipld()->List_0);
        v
    }

    /// The index that a value is the canonical form of. A value that is no
    /// list, and an item that is no pair of a name and a link, have not the
    /// shape; a name that stands twice is refused by that name.
    pub fn from_ipld(ipld: &Value) -> (r: Result<Index, IpldError>)
        ensures
            decoded(r) == IndexView::from_ipld(ipld@),
    {
        match ipld {
            Value::List(xs) => {
                proof {
                    lemma_list_view(*ipld);
                }
                let mut out: Vec<(String, Cid)> = Vec::new();
                let mut i: usize = 0;
                assert(index_entries(out@) =~= Seq::empty());
                while i < xs.len()
                    invariant
                        i <= xs.len(),
                        ipld@ == ValueView::List(views(xs@)),
                        IndexView::entries_from(views(xs@), 0, Seq::empty())
                            == IndexView::entries_from(views(xs@), i as int, index_entries(out@)),
                    decreases xs.len() - i,
                {
                    let ghost seen = index_entries(out@);
                    match &xs[i] {
                        Value::List(pair) => {
                            proof {
                                lemma_list_view(xs[i as int]);
                            }
                            if pair.len() != 2 {
                                return Err(IpldError::InvalidShape(xs[i].clone()));
                            }
                            match (&pair[0], &pair[1]) {
                                (Value::String(n), Value::Link(c)) => {
                                    if seen_name(&out, n) {
                                        return Err(IpldError::DuplicateName(n.clone()));
                                    }
                                    out.push((n.clone(), c.clone()));
                                    assert(index_entries(out@) =~= seen.push((n@, c@)));
                                },
                                _ => {
                                    return Err(IpldError::InvalidShape(xs[i].clone()));
                                },
                            }
                        },
                        _ => {
                            return Err(IpldError::InvalidShape(xs[i].clone()));
                        },
                    }
                    i += 1;
                }
                Ok(Index(out))
            },
            _ => Err(IpldError::InvalidShape(ipld.clone())),
        }
    }

    /// The names of the definitions, in order.
    pub fn keys(&self) -> (names: Vec<String>)
        ensures
            texts(names@) == self@.names(),
    {
        let mut res: Vec<String> = Vec::new();
        let mut i: usize = 0;
        while i < self.0.len()
            invariant
                i <= self.0.len(),
                res.len() == i,
                forall|j: int| 0 <= j < i ==> res[j]@ == self@.entries[j].0,
            decreases self.0.len() - i,
        {
            res.push(self.0[i].0.clone());
            i += 1;
        }
        assert(texts(res@) =~= self@.names());
        res
    }
}

/// The block of one definition: the identifiers of the anonymous forms of
/// its type and of its term, and the metadata of both.
#[derive(Debug, PartialEq)]
pub struct Entry {
    pub pos: Pos,
    pub type_anon: Cid,
    pub term_anon: Cid,
    pub type_meta: Meta,
    pub term_meta: Meta,
}

/// What an [`Entry`] holds, as mathematical values.
pub struct EntryView {
    pub pos: Option<PositionView>,
    pub type_anon: CidView,
    pub term_anon: CidView,
    pub type_meta: MetaView,
    pub term_meta: MetaView,
}

impl View for Entry {
    type V = EntryView;

    open spec fn view(&self) -> EntryView {
        EntryView {
            pos: self.pos@,
            type_anon: self.type_anon@,
            term_anon: self.term_anon@,
            type_meta: self.type_meta@,
            term_meta: self.term_meta@,
        }
    }
}

impl Clone for Entry {
    fn clone(&self) -> (r: Self)
        ensures
            r@ == self@,
    {
        Entry {
            pos: self.pos.clone(),
            type_anon: self.type_anon.clone(),
            term_anon: self.term_anon.clone(),
            type_meta: self.type_meta.clone(),
            term_meta: self.term_meta.clone(),
        }
    }
}

impl EntryView {
    /// Every identifier exists.
    pub open spec fn valid(self) -> bool {
        &&& Pos::valid(self.pos)
        &&& self.type_anon.valid()
        &&& self.term_anon.valid()
        &&& self.type_meta.valid()
        &&& self.term_meta.valid()
    }

    /// The canonical form of an entry: its position, the links to the two
    /// anonymous forms, and the two metadata trees.
    pub open spec fn to_ipld(self) -> ValueView {
        ValueView::List(
            seq![
                Pos::spec_to_ipld(self.pos),
                ValueView::Link(self.type_anon),
                ValueView::Link(self.term_anon),
                self.type_meta.to_ipld(),
                self.term_meta.to_ipld(),
            ],
        )
    }

    /// The entry that a value is the canonical form of: the value must be a
    /// list of five with links in the second and third place; then the
    /// position, the first tree and the second tree are decoded in turn.
    pub open spec fn from_ipld(v: ValueView) -> Result<EntryView, IpldErrorView> {
        match v {
            ValueView::List(xs) => {
                if xs.len() == 5 {
                    match (xs[1], xs[2]) {
                        (ValueView::Link(type_anon), ValueView::Link(term_anon)) => {
                            match Pos::spec_from_ipld(xs[0]) {
                                Err(e) => Err(e),
                                Ok(pos) => match MetaView::from_ipld(xs[3]) {
                                    Err(e) => Err(e),
                                    Ok(type_meta) => match MetaView::from_ipld(xs[4]) {
                                        Err(e) => Err(e),
                                        Ok(term_meta) => Ok(
                                            EntryView {
                                                pos,
                                                type_anon,
                                                term_anon,
                                                type_meta,
                                                term_meta,
                                            },
                                        ),
                                    },
                                },
                            }
                        },
                        _ => Err(IpldErrorView::InvalidShape(v)),
                    }
                } else {
                    Err(IpldErrorView::InvalidShape(v))
                }
            },
            _ => Err(IpldErrorView::InvalidShape(v)),
        }
    }

    /// The identifier of the block of an entry.
    pub open spec fn cid(self) -> CidView {
        block_cid(dag_cbor(self.to_ipld()))
    }

    /// Decoding the canonical form of an entry gives the entry back.
    pub proof fn lemma_roundtrip(self)
        ensures
            Self::from_ipld(self.to_ipld()) == Ok::<EntryView, IpldErrorView>(self),
    {
        Pos::lemma_roundtrip(self.pos);
        lemma_meta_roundtrip(self.type_meta);
        lemma_meta_roundtrip(self.term_meta);
    }

    /// The canonical form of a valid entry has a block.
    pub proof fn lemma_encodable(self)
        requires
            self.valid(),
        ensures
            self.to_ipld().encodable(),
    {
        reveal_with_fuel(ValueView::encodable, 2);
        Pos::lemma_encodable(self.pos);
        lemma_meta_encodable(self.type_meta);
        lemma_meta_encodable(self.term_meta);
        let xs = self.to_ipld()->List_0;
        assert forall|j: int| 0 <= j < xs.len() implies (#[trigger] xs[j]).encodable() by {
        }
    }
}

impl Entry {
    /// The canonical form of the entry.
    pub fn to_ipld(&self) -> (v: Value)
        ensures
            v@ == self@.to_ipld(),
    {
        let mut items: Vec<Value> = Vec::new();
        items.push(self.pos.to_ipld());
        items.push(Value::Link(self.type_anon.clone()));
        items.push(Value::Link(self.term_anon.clone()));
        items.push(self.type_meta.to_ipld());
        items.push(self.term_meta.to_ipld());
        let v = Value::list(items);
        assert(v@->List_0 =~= self@.to_ipld()->List_0);
        v
    }

    /// The entry that a value is the canonical form of.
    pub fn from_ipld(ipld: &Value) -> (r: Result<Entry, IpldError>)
        ensures
            decoded(r) == EntryView::from_ipld(ipld@),
    {
        match ipld {
            Value::List(xs) => {
                proof {
                    lemma_list_view(*ipld);
                }
                if xs.len() != 5 {
                    return Err(IpldError::InvalidShape(ipld.clone()));
                }
                match (&xs[1], &xs[2]) {
                    (Value::Link(type_anon), Value::Link(term_anon)) => {
                        let pos = Pos::from_ipld(&xs[0])?;
                        let type_meta = Meta::from_ipld(&xs[3])?;
                        let term_meta = Meta::from_ipld(&xs[4])?;
                        Ok(
                            Entry {
                                pos,
                                type_anon: type_anon.clone(),
                                term_anon: term_anon.clone(),
                                type_meta,
                                term_meta,
                            },
                        )
                    },
                    _ => Err(IpldError::InvalidShape(ipld.clone())),
                }
            },
            _ => Err(IpldError::InvalidShape(ipld.clone())),
        }
    }

    /// The identifier of the block of the entry: version 1, DAG-CBOR,
    /// BLAKE2b-256 of the bytes of its canonical form.
    pub fn cid(&self) -> (c: Cid)
        requires
            self@.valid(),
        ensures
            c@ == self@.cid(),
            c@.valid(),
            c@.hash.digest.len() == 32,
    {
        proof {
            self@.lemma_encodable();
        }
        crate::codec::cid(&self.to_ipld())
    }
}

/// A package brought into scope: the block of the package, its name, the
/// name it goes by here, and the names that are exposed.
#[derive(Debug, PartialEq)]
pub struct Import {
    pub cid: Cid,
    pub name: String,
    pub alias: String,
    pub with: Vec<String>,
}

/// What an [`Import`] holds, as mathematical values.
pub struct ImportView {
    pub cid: CidView,
    pub name: Seq<char>,
    pub alias: Seq<char>,
    pub with: Seq<Seq<char>>,
}

impl View for Import {
    type V = ImportView;

    open spec fn view(&self) -> ImportView {
        ImportView {
            cid: self.cid@,
            name: self.name@,
            alias: self.alias@,
            with: texts(self.with@),
        }
    }
}

impl Clone for Import {
    fn clone(&self) -> (r: Self)
        ensures
            r@ == self@,
    {
        Import {
            cid: self.cid.clone(),
            name: self.name.clone(),
            alias: self.alias.clone(),
            with: copy_texts(&self.with),
        }
    }
}

/// The name that a value is the canonical form of.
pub open spec fn name_from_ipld(v: ValueView) -> Result<Seq<char>, IpldErrorView> {
    match v {
        ValueView::String(n) => Ok(n),
        _ => Err(IpldErrorView::InvalidShape(v)),
    }
}

/// The decoder of names.
pub open spec fn name_decoder() -> spec_fn(ValueView) -> Result<Seq<char>, IpldErrorView> {
    |w: ValueView| name_from_ipld(w)
}

impl ImportView {
    /// The identifier of the package exists.
    pub open spec fn valid(self) -> bool {
        self.cid.valid()
    }

    /// The canonical form of an import: the link, the name, the alias, and
    /// the list of the exposed names.
    pub open spec fn to_ipld(self) -> ValueView {
        ValueView::List(
            seq![
                ValueView::Link(self.cid),
                ValueView::String(self.name),
                ValueView::String(self.alias),
                ValueView::List(
                    Seq::new(self.with.len(), |i: int| ValueView::String(self.with[i])),
                ),
            ],
        )
    }

    /// The import that a value is the canonical form of: the value must be
    /// a list of a link, two strings and a list; an item of that list that
    /// is no string has not the shape.
    pub open spec fn from_ipld(v: ValueView) -> Result<ImportView, IpldErrorView> {
        match v {
            ValueView::List(xs) => {
                if xs.len() == 4 {
                    match (xs[0], xs[1], xs[2], xs[3]) {
                        (
                            ValueView::Link(cid),
                            ValueView::String(name),
                            ValueView::String(alias),
                            ValueView::List(ws),
                        ) => match all_from(ws, name_decoder()) {
                            Err(e) => Err(e),
                            Ok(with) => Ok(ImportView { cid, name, alias, with }),
                        },
                        _ => Err(IpldErrorView::InvalidShape(v)),
                    }
                } else {
                    Err(IpldErrorView::InvalidShape(v))
                }
            },
            _ => Err(IpldErrorView::InvalidShape(v)),
        }
    }

    /// Decoding the canonical form of an import gives the import back.
    pub proof fn lemma_roundtrip(self)
        ensures
            Self::from_ipld(self.to_ipld()) == Ok::<ImportView, IpldErrorView>(self),
    {
        let ws = self.to_ipld()->List_0[3]->List_0;
        lemma_all_from_ok(ws, name_decoder(), self.with);
    }

    /// The canonical form of a valid import has a block.
    pub proof fn lemma_encodable(self)
        requires
            self.valid(),
        ensures
            self.to_ipld().encodable(),
    {
        reveal_with_fuel(ValueView::encodable, 3);
        let xs = self.to_ipld()->List_0;
        let ws = xs[3]->List_0;
        assert forall|j: int| 0 <= j < ws.len() implies (#[trigger] ws[j]).encodable() by {
        }
        assert forall|j: int| 0 <= j < xs.len() implies (#[trigger] xs[j]).encodable() by {
        }
    }
}

impl Import {
    /// The canonical form of the import.
    pub fn to_ipld(&self) -> (v: Value)
        ensures
            v@ == self@.to_ipld(),
    {
        let mut names: Vec<Value> = Vec::new();
        let mut i: usize = 0;
        while i < self.with.len()
            invariant
                i <= self.with.len(),
                names.len() == i,
                forall|j: int| 0 <= j < i ==> names[j]@ == ValueView::String(self.with[j]@),
            decreases self.with.len() - i,
        {
            names.push(Value::String(self.with[i].clone()));
            i += 1;
        }
        let names_form = Value::list(names);
        let mut items: Vec<Value> = Vec::new();
        items.push(Value::Link(self.cid.clone()));
        items.push(Value::String(self.name.clone()));
        items.push(Value::String(self.alias.clone()));
        items.push(names_form);
        let v = Value::list(items);
        proof {
            let want = self@.to_ipld();
            assert(names_form@->List_0 =~= want->List_0[3]->List_0);
            assert(v@->List_0 =~= want->List_0);
        }
        v
    }

    /// The import that a value is the canonical form of.
    pub fn from_ipld(ipld: &Value) -> (r: Result<Import, IpldError>)
        ensures
            decoded(r) == ImportView::from_ipld(ipld@),
    {
        match ipld {
            Value::List(xs) => {
                proof {
                    lemma_list_view(*ipld);
                }
                if xs.len() != 4 {
                    return Err(IpldError::InvalidShape(ipld.clone()));
                }
                match (&xs[0], &xs[1], &xs[2], &xs[3]) {
                    (
                        Value::Link(cid),
                        Value::String(name),
                        Value::String(alias),
                        Value::List(ws),
                    ) => {
                        proof {
                            lemma_list_view(xs[3]);
                        }
                        let ghost f = name_decoder();
                        let mut res: Vec<String> = Vec::new();
                        let mut i: usize = 0;
                        while i < ws.len()
                            invariant
                                i <= ws.len(),
                                res.len() == i,
                                f == name_decoder(),
                                xs.len() == 4,
                                ipld@ == ValueView::List(views(xs@)),
                                xs[0] is Link && xs[1] is String && xs[2] is String,
                                xs[3]@ == ValueView::List(views(ws@)),
                                forall|j: int|
                                    0 <= j < i ==> f(#[trigger] views(ws@)[j]) == Ok::<
                                        Seq<char>,
                                        IpldErrorView,
                                    >(res[j]@),
                            decreases ws.len() - i,
                        {
                            match &ws[i] {
                                Value::String(w) => {
                                    res.push(w.clone());
                                },
                                w => {
                                    proof {
                                        lemma_all_from_err(views(ws@), f, i as int);
                                    }
                                    return Err(IpldError::InvalidShape(w.clone()));
                                },
                            }
                            i += 1;
                        }
                        proof {
                            lemma_all_from_ok(views(ws@), f, texts(res@));
                        }
                        Ok(
                            Import {
                                cid: cid.clone(),
                                name: name.clone(),
                                alias: alias.clone(),
                                with: res,
                            },
                        )
                    },
                    _ => Err(IpldError::InvalidShape(ipld.clone())),
                }
            },
            _ => Err(IpldError::InvalidShape(ipld.clone())),
        }
    }
}

/// The views of imports, in order.
pub open spec fn import_views(items: Seq<Import>) -> Seq<ImportView> {
    Seq::new(items.len(), |i: int| items[i]@)
}

/// The decoder of imports.
pub open spec fn import_decoder() -> spec_fn(ValueView) -> Result<ImportView, IpldErrorView> {
    |v: ValueView| ImportView::from_ipld(v)
}

/// The name under which a definition of an imported package is known:
/// the name behind the alias where the import has an alias; else the bare
/// name where the import lists it, and the name behind the name of the
/// package where it does not.
pub open spec fn spec_import_alias(name: Seq<char>, import: ImportView) -> Seq<char> {
    if import.alias.len() != 0 {
        import.alias + "."@ + name
    } else if import.with.contains(name) {
        name
    } else {
        import.name + "."@ + name
    }
}

/// The name under which the definition `name` of the package that `import`
/// brings is known.
pub fn import_alias(name: String, import: &Import) -> (alias: String)
    ensures
        alias@ == spec_import_alias(name@, import@),
{
    proof {
        reveal_strlit("");
        if import@.alias.len() == 0 {
            assert(import@.alias =~= ""@);
        }
    }
    if !same_text(import.alias.as_str(), "") {
        let qualifier: String = join(import.alias.as_str(), ".");
        return join(qualifier.as_str(), name.as_str());
    }
    let mut listed: bool = false;
    let mut i: usize = 0;
    while i < import.with.len()
        invariant
            i <= import.with.len(),
            listed == exists|k: int| 0 <= k < i && import@.with[k] == name@,
        decreases import.with.len() - i,
    {
        if same_text(import.with[i].as_str(), name.as_str()) {
            listed = true;
            assert(import@.with[i as int] == name@);
        }
        i += 1;
    }
    if listed {
        name
    } else {
        let qualifier: String = join(import.name.as_str(), ".");
        join(qualifier.as_str(), name.as_str())
    }
}

/// A package: where it was read, its name, what it imports, and what it
/// defines.
#[derive(Debug, PartialEq)]
pub struct Package {
    pub pos: Pos,
    pub name: String,
    pub imports: Vec<Import>,
    pub index: Index,
}

/// What a [`Package`] holds, as mathematical values.
pub struct PackageView {
    pub pos: Option<PositionView>,
    pub name: Seq<char>,
    pub imports: Seq<ImportView>,
    pub index: IndexView,
}

impl View for Package {
    type V = PackageView;

    open spec fn view(&self) -> PackageView {
        PackageView {
            pos: self.pos@,
            name: self.name@,
            imports: import_views(self.imports@),
            index: self.index@,
        }
    }
}

impl Clone for Package {
    fn clone(&self) -> (r: Self)
        ensures
            r@ == self@,
    {
        let mut imports: Vec<Import> = Vec::new();
        let mut i: usize = 0;
        while i < self.imports.len()
            invariant
                i <= self.imports.len(),
                imports.len() == i,
                forall|j: int| 0 <= j < i ==> imports[j]@ == self.imports[j]@,
            decreases self.imports.len() - i,
        {
            imports.push(self.imports[i].clone());
            i += 1;
        }
        let r = Package {
            pos: self.pos.clone(),
            name: self.name.clone(),
            imports,
            index: self.index.clone(),
        };
        assert(r@.imports =~= self@.imports);
        r
    }
}

impl PackageView {
    /// No definition is named twice.
    pub open spec fn wf(self) -> bool {
        self.index.unique()
    }

    /// Every identifier exists.
    pub open spec fn valid(self) -> bool {
        &&& Pos::valid(self.pos)
        &&& forall|i: int| 0 <= i < self.imports.len() ==> (#[trigger] self.imports[i]).valid()
        &&& self.index.valid()
    }

    /// The canonical form of a package: its position, its name, the list of
    /// the forms of its imports, and the form of its index.
    pub open spec fn to_ipld(self) -> ValueView {
        ValueView::List(
            seq![
                Pos::spec_to_ipld(self.pos),
                ValueView::String(self.name),
                ValueView::List(Seq::new(self.imports.len(), |i: int| self.imports[i].to_ipld())),
                self.index.to_ipld(),
            ],
        )
    }

    /// The package that a value is the canonical form of: the value must be
    /// a list of four with a string in the second place and a list in the
    /// third; then the position, the imports in order and the index are
    /// decoded in turn.
    pub open spec fn from_ipld(v: ValueView) -> Result<PackageView, IpldErrorView> {
        match v {
            ValueView::List(xs) => {
                if xs.len() == 4 {
                    match (xs[1], xs[2]) {
                        (ValueView::String(name), ValueView::List(is)) => {
                            match Pos::spec_from_ipld(xs[0]) {
                                Err(e) => Err(e),
                                Ok(pos) => match all_from(is, import_decoder()) {
                                    Err(e) => Err(e),
                                    Ok(imports) => match IndexView::from_ipld(xs[3]) {
                                        Err(e) => Err(e),
                                        Ok(index) => Ok(PackageView { pos, name, imports, index }),
                                    },
                                },
                            }
                        },
                        _ => Err(IpldErrorView::InvalidShape(v)),
                    }
                } else {
                    Err(IpldErrorView::InvalidShape(v))
                }
            },
            _ => Err(IpldErrorView::InvalidShape(v)),
        }
    }

    /// The identifier of the block of a package.
    pub open spec fn cid(self) -> CidView {
        block_cid(dag_cbor(self.to_ipld()))
    }

    /// Decoding the canonical form of a package without a repeated name
    /// gives the package back.
    pub proof fn lemma_roundtrip(self)
        requires
            self.wf(),
        ensures
            Self::from_ipld(self.to_ipld()) == Ok::<PackageView, IpldErrorView>(self),
    {
        Pos::lemma_roundtrip(self.pos);
        self.index.lemma_roundtrip();
        let is = self.to_ipld()->List_0[2]->List_0;
        assert forall|j: int| 0 <= j < is.len() implies import_decoder()(#[trigger] is[j]) == Ok::<
            ImportView,
            IpldErrorView,
        >(self.imports[j]) by {
            self.imports[j].lemma_roundtrip();
        }
        lemma_all_from_ok(is, import_decoder(), self.imports);
    }

    /// The canonical form of a valid package has a block.
    pub proof fn lemma_encodable(self)
        requires
            self.valid(),
        ensures
            self.to_ipld().encodable(),
    {
        reveal_with_fuel(ValueView::encodable, 2);
        Pos::lemma_encodable(self.pos);
        self.index.lemma_encodable();
        let xs = self.to_ipld()->List_0;
        let is = xs[2]->List_0;
        assert forall|j: int| 0 <= j < is.len() implies (#[trigger] is[j]).encodable() by {
            self.imports[j].lemma_encodable();
        }
        assert forall|j: int| 0 <= j < xs.len() implies (#[trigger] xs[j]).encodable() by {
        }
    }
}

impl Package {
    /// The canonical form of the package.
    pub fn to_ipld(&self) -> (v: Value)
        ensures
            v@ == self@.to_ipld(),
    {
        let mut imports: Vec<Value> = Vec::new();
        let mut i: usize = 0;
        while i < self.imports.len()
            invariant
                i <= self.imports.len(),
                imports.len() == i,
                forall|j: int| 0 <= j < i ==> imports[j]@ == self.imports[j]@.to_ipld(),
            decreases self.imports.len() - i,
        {
            imports.push(self.imports[i].to_ipld());
            i += 1;
        }
        let imports_form = Value::list(imports);
        let mut items: Vec<Value> = Vec::new();
        items.push(self.pos.to_ipld());
        items.push(Value::String(self.name.clone()));
        items.push(imports_form);
        items.push(self.index.to_ipld());
        let v = Value::list(items);
        proof {
            let want = self@.to_ipld();
            assert(imports_form@->List_0 =~= want->List_0[2]->List_0);
            assert(v@->List_0 =~= want->List_0);
        }
        v
    }

    /// The package that a value is the canonical form of.
    pub fn from_ipld(ipld: &Value) -> (r: Result<Package, IpldError>)
        ensures
            decoded(r) == PackageView::from_ipld(ipld@),
    {
        match ipld {
            Value::List(xs) => {
                proof {
                    lemma_list_view(*ipld);
                }
                if xs.len() != 4 {
                    return Err(IpldError::InvalidShape(ipld.clone()));
                }
                match (&xs[1], &xs[2]) {
                    (Value::String(name), Value::List(is)) => {
                        proof {
                            lemma_list_view(xs[2]);
                        }
                        let pos = Pos::from_ipld(&xs[0])?;
                        let ghost f = import_decoder();
                        let mut imports: Vec<Import> = Vec::new();
                        let mut i: usize = 0;
                        while i < is.len()
                            invariant
                                i <= is.len(),
                                imports.len() == i,
                                f == import_decoder(),
                                xs.len() == 4,
                                ipld@ == ValueView::List(views(xs@)),
                                xs[1] is String,
                                xs[2]@ == ValueView::List(views(is@)),
                                Pos::spec_from_ipld(xs[0]@) is Ok,
                                forall|j: int|
                                    0 <= j < i ==> f(#[trigger] views(is@)[j]) == Ok::<
                                        ImportView,
                                        IpldErrorView,
                                    >(imports[j]@),
                            decreases is.len() - i,
                        {
                            match Import::from_ipld(&is[i]) {
                                Ok(import) => {
                                    imports.push(import);
                                },
                                Err(e) => {
                                    proof {
                                        lemma_all_from_err(views(is@), f, i as int);
                                    }
                                    return Err(e);
                                },
                            }
                            i += 1;
                        }
                        proof {
                            lemma_all_from_ok(views(is@), f, import_views(imports@));
                        }
                        let index = Index::from_ipld(&xs[3])?;
                        Ok(Package { pos, name: name.clone(), imports, index })
                    },
                    _ => Err(IpldError::InvalidShape(ipld.clone())),
                }
            },
            _ => Err(IpldError::InvalidShape(ipld.clone())),
        }
    }

    /// The identifier of the block of the package.
    pub fn cid(&self) -> (c: Cid)
        requires
            self@.valid(),
        ensures
            c@ == self@.cid(),
            c@.valid(),
            c@.hash.digest.len() == 32,
    {
        proof {
            self@.lemma_encodable();
        }
        crate::codec::cid(&self.to_ipld())
    }
}

} // verus!
