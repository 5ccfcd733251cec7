//! Definitions, and the environment that names them.

use vstd::prelude::*;
use crate::address::{Cid, CidView};
use crate::anon::{AnonTerm, AnonView};
use crate::bytes::{join, same_text, texts};
use crate::error::{decoded, IpldError, IpldErrorView};
use crate::package::{Entry, EntryView, Import, ImportView};
use crate::position::{Pos, PositionView};
use crate::split::{lemma_merge_split, lemma_split_valid, merge, spec_merge, spec_split, split};
use crate::term::{Term, TermView};

verus! {

/// A definition: a name, its documentation, a term and the type of the term.
#[derive(Debug, PartialEq)]
pub struct Definition {
    pub pos: Pos,
    pub name: String,
    pub docs: String,
    pub typ: Term,
    pub term: Term,
}

/// What a [`Definition`] holds, as mathematical values.
pub struct DefinitionView {
    pub pos: Option<PositionView>,
    pub name: Seq<char>,
    pub docs: Seq<char>,
    pub typ: TermView,
    pub term: TermView,
}

impl View for Definition {
    type V = DefinitionView;

    open spec fn view(&self) -> DefinitionView {
        DefinitionView {
            pos: self.pos@,
            name: self.name@,
            docs: self.docs@,
            typ: self.typ@,
            term: self.term@,
        }
    }
}

impl Clone for Definition {
    fn clone(&self) -> (r: Self)
        ensures
            r@ == self@,
    {
        Definition {
            pos: self.pos.clone(),
            name: self.name.clone(),
            docs: self.docs.clone(),
            typ: self.typ.clone(),
            term: self.term.clone(),
        }
    }
}

impl DefinitionView {
    /// Every identifier exists.
    pub open spec fn valid(self) -> bool {
        Pos::valid(self.pos) && self.typ.valid() && self.term.valid()
    }

    /// The entry of a definition, and the anonymous terms that the entry
    /// links to: the type and the term are split, and the entry holds the
    /// identifiers of the two skeletons and the metadata of both.
    pub open spec fn embed(self) -> (EntryView, AnonView, AnonView) {
        let typ = spec_split(self.typ);
        let term = spec_split(self.term);
        (
            EntryView {
                pos: self.pos,
                type_anon: typ.0.cid(),
                term_anon: term.0.cid(),
                type_meta: typ.1,
                term_meta: term.1,
            },
            typ.0,
            term.0,
        )
    }

    /// The definition with a name and documentation that an entry and the
    /// two anonymous terms make: the type is merged first, then the term.
    pub open spec fn unembed(
        name: Seq<char>,
        docs: Seq<char>,
        entry: EntryView,
        type_anon: AnonView,
        term_anon: AnonView,
    ) -> Result<DefinitionView, IpldErrorView> {
        match spec_merge(type_anon, entry.type_meta) {
            Err(e) => Err(e),
            Ok(typ) => match spec_merge(term_anon, entry.term_meta) {
                Err(e) => Err(e),
                Ok(term) => Ok(DefinitionView { pos: entry.pos, name, docs, typ, term }),
            },
        }
    }

    /// What a definition was embedded into makes the definition again.
    pub proof fn lemma_unembed_embed(self)
        ensures
            Self::unembed(
                self.name,
                self.docs,
                self.embed().0,
                self.embed().1,
                self.embed().2,
            ) == Ok::<DefinitionView, IpldErrorView>(self),
    {
        lemma_merge_split(self.typ);
        lemma_merge_split(self.term);
    }

    /// The entry of a valid definition is valid.
    pub proof fn lemma_embed_valid(self)
        requires
            self.valid(),
        ensures
            self.embed().1.valid(),
            self.embed().2.valid(),
            self.embed().0.type_meta.valid(),
            self.embed().0.term_meta.valid(),
    {
        lemma_split_valid(self.typ);
        lemma_split_valid(self.term);
    }
}

impl Definition {
    /// The entry of the definition, and the anonymous terms that the entry
    /// links to.
    pub fn embed(&self) -> (r: (Entry, AnonTerm, AnonTerm))
        requires
            self@.valid(),
        ensures
            (r.0@, r.1@, r.2@) == self@.embed(),
            r.0@.valid(),
            r.0@.type_anon.hash.digest.len() == 32,
            r.0@.term_anon.hash.digest.len() == 32,
    {
        proof {
            self@.lemma_embed_valid();
        }
        let (type_anon, type_meta) = split(&self.typ);
        let (term_anon, term_meta) = split(&self.term);
        let entry = Entry {
            pos: self.pos.clone(),
            type_anon: type_anon.cid(),
            term_anon: term_anon.cid(),
            type_meta,
            term_meta,
        };
        (entry, type_anon, term_anon)
    }

    /// The definition that an entry and the two anonymous terms make, under
    /// a name and with documentation.
    pub fn unembed(
        name: String,
        docs: String,
        entry: &Entry,
        type_anon: &AnonTerm,
        term_anon: &AnonTerm,
    ) -> (r: Result<Definition, IpldError>)
        ensures
            decoded(r) == DefinitionView::unembed(
                name@,
                docs@,
                entry@,
                type_anon@,
                term_anon@,
            ),
    {
        let typ = merge(type_anon, &entry.type_meta)?;
        let term = merge(term_anon, &entry.term_meta)?;
        Ok(Definition { pos: entry.pos.clone(), name, docs, typ, term })
    }
}

/// A definition in an environment: the name that it goes by there, and the
/// block of its entry.
#[derive(Debug, PartialEq)]
pub struct Binding {
    pub name: String,
    pub cid: Cid,
    pub def: Definition,
}

/// What a [`Binding`] holds, as mathematical values.
pub struct BindingView {
    pub name: Seq<char>,
    pub cid: CidView,
    pub def: DefinitionView,
}

impl View for Binding {
    type V = BindingView;

    open spec fn view(&self) -> BindingView {
        BindingView { name: self.name@, cid: self.cid@, def: self.def@ }
    }
}

impl Clone for Binding {
    fn clone(&self) -> (r: Self)
        ensures
            r@ == self@,
    {
        Binding { name: self.name.clone(), cid: self.cid.clone(), def: self.def.clone() }
    }
}

/// The definitions in scope. A later binding shadows an earlier one of the
/// same name or of the same block.
#[derive(Debug, PartialEq)]
pub struct Defs {
    pub bindings: Vec<Binding>,
}

/// The views of bindings, in order.
pub open spec fn binding_views(items: Seq<Binding>) -> Seq<BindingView> {
    Seq::new(items.len(), |i: int| items[i]@)
}

impl View for Defs {
    type V = Seq<BindingView>;

    open spec fn view(&self) -> Seq<BindingView> {
        binding_views(self.bindings@)
    }
}

/// The last of `bindings` that goes by `name`.
pub open spec fn find_name(bindings: Seq<BindingView>, name: Seq<char>) -> Option<BindingView>
    decreases bindings.len(),
{
    if bindings.len() == 0 {
        None
    } else if bindings.last().name == name {
        Some(bindings.last())
    } else {
        find_name(bindings.drop_last(), name)
    }
}

/// The last of `bindings` whose entry has the block `cid`.
pub open spec fn find_cid(bindings: Seq<BindingView>, cid: CidView) -> Option<BindingView>
    decreases bindings.len(),
{
    if bindings.len() == 0 {
        None
    } else if bindings.last().cid == cid {
        Some(bindings.last())
    } else {
        find_cid(bindings.drop_last(), cid)
    }
}

/// The names under which an import exposes the definition `b` of the
/// package that it brings: the name behind the alias where there is an
/// alias, and then the bare name where the import lists it.
pub open spec fn exposures(b: BindingView, import: ImportView) -> Seq<BindingView> {
    let qualified = if import.alias.len() != 0 {
        seq![BindingView { name: import.alias + "."@ + b.name, cid: b.cid, def: b.def }]
    } else {
        Seq::empty()
    };
    let bare = if import.with.contains(b.name) {
        seq![b]
    } else {
        Seq::empty()
    };
    qualified + bare
}

/// What an import exposes of the definitions of the package that it
/// brings, in their order.
pub open spec fn exposed(bindings: Seq<BindingView>, import: ImportView) -> Seq<BindingView>
    decreases bindings.len(),
{
    if bindings.len() == 0 {
        Seq::empty()
    } else {
        exposed(bindings.drop_last(), import) + exposures(bindings.last(), import)
    }
}

fn lists(names: &Vec<String>, name: &String) -> (b: bool)
    ensures
        b == texts(names@).contains(name@),
{
    let mut i: usize = 0;
    while i < names.len()
        invariant
            i <= names.len(),
            forall|k: int| 0 <= k < i ==> texts(names@)[k] != name@,
        decreases names.len() - i,
    {
        if same_text(names[i].as_str(), name.as_str()) {
            assert(texts(names@)[i as int] == name@);
            return true;
        }
        i += 1;
    }
    false
}

impl Defs {
    /// No definition.
    pub fn new() -> (defs: Defs)
        ensures
            defs@ == Seq::<BindingView>::empty(),
    {
        let defs = Defs { bindings: Vec::new() };
        assert(defs@ =~= Seq::<BindingView>::empty());
        defs
    }

    fn position_of_name(&self, name: &str) -> (r: Option<usize>)
        ensures
            match r {
                Some(i) => i < self.bindings.len() && find_name(self@, name@) == Some(
                    self.bindings[i as int]@,
                ),
                None => find_name(self@, name@) is None,
            },
    {
        let mut i: usize = self.bindings.len();
        assert(self@.take(i as int) == self@);
        while i > 0
            invariant
                i <= self.bindings.len(),
                find_name(self@, name@) == find_name(self@.take(i as int), name@),
            decreases i,
        {
            proof {
                let s = self@.take(i as int);
                assert(s.last() == self.bindings[i - 1]@);
                assert(s.drop_last() =~= self@.take(i - 1));
            }
            if same_text(self.bindings[i - 1].name.as_str(), name) {
                return Some(i - 1);
            }
            i -= 1;
        }
        None
    }

    /// The definition that goes by `name`.
    pub fn get(&self, name: &str) -> (r: Option<&Definition>)
        ensures
            match r {
                Some(d) => find_name(self@, name@) matches Some(b) && b.def == d@,
                None => find_name(self@, name@) is None,
            },
    {
        match self.position_of_name(name) {
            Some(i) => Some(&self.bindings[i].def),
            None => None,
        }
    }

    /// The definition whose entry has the block `cid`; a block that no
    /// definition in scope has is an unresolved reference.
    pub fn resolve(&self, cid: &Cid) -> (r: Result<&Definition, IpldError>)
        ensures
            match r {
                Ok(d) => find_cid(self@, cid@) matches Some(b) && b.def == d@,
                Err(e) => find_cid(self@, cid@) is None && e@ == IpldErrorView::UnresolvedRef(cid@),
            },
    {
        let mut i: usize = self.bindings.len();
        assert(self@.take(i as int) == self@);
        while i > 0
            invariant
                i <= self.bindings.len(),
                find_cid(self@, cid@) == find_cid(self@.take(i as int), cid@),
            decreases i,
        {
            proof {
                let s = self@.take(i as int);
                assert(s.last() == self.bindings[i - 1]@);
                assert(s.drop_last() =~= self@.take(i - 1));
            }
            if self.bindings[i - 1].cid.same(cid) {
                return Ok(&self.bindings[i - 1].def);
            }
            i -= 1;
        }
        Err(IpldError::UnresolvedRef(cid.clone()))
    }

    /// Adds a definition of a package under its own name. A name that is
    /// in scope already is refused, and nothing changes.
    pub fn insert(&mut self, cid: Cid, def: Definition) -> (r: Result<(), IpldError>)
        ensures
            match r {
                Ok(_) => find_name(old(self)@, def@.name) is None && final(self)@
                    == old(self)@.push(BindingView { name: def@.name, cid: cid@, def: def@ }),
                Err(e) => find_name(old(self)@, def@.name) is Some && e@
                    == IpldErrorView::DuplicateName(def@.name) && final(self)@ == old(self)@,
            },
    {
        match self.position_of_name(def.name.as_str()) {
            Some(_) => Err(IpldError::DuplicateName(def.name.clone())),
            None => {
                let ghost before = self@;
                let binding = Binding { name: def.name.clone(), cid, def };
                self.bindings.push(binding);
                assert(self@ =~= before.push(binding@));
                Ok(())
            },
        }
    }

    /// Brings into scope what an import exposes of the definitions of a
    /// package. They shadow what was in scope under the same names.
    pub fn import(&mut self, package: &Defs, import: &Import)
        ensures
            final(self)@ == old(self)@ + exposed(package@, import@),
    {
        let ghost before = self@;
        let aliased: bool = !same_text(import.alias.as_str(), "");
        proof {
            reveal_strlit("");
            if import@.alias.len() == 0 {
                assert(import@.alias =~= ""@);
            }
            assert(package@.take(0) =~= Seq::<BindingView>::empty());
            assert(self@ =~= before + exposed(package@.take(0), import@));
        }
        let mut i: usize = 0;
        while i < package.bindings.len()
            invariant
                i <= package.bindings.len(),
                aliased == (import@.alias.len() != 0),
                self@ == before + exposed(package@.take(i as int), import@),
            decreases package.bindings.len() - i,
        {
            let ghost so_far = self@;
            let b = &package.bindings[i];
            proof {
                let now = package@.take(i + 1);
                assert(now.last() == b@);
                assert(now.drop_last() =~= package@.take(i as int));
            }
            if aliased {
                let qualifier: String = join(import.alias.as_str(), ".");
                let binding = Binding {
                    name: join(qualifier.as_str(), b.name.as_str()),
                    cid: b.cid.clone(),
                    def: b.def.clone(),
                };
                let ghost at = self@;
                self.bindings.push(binding);
                assert(self@ =~= at.push(binding@));
            }
            if lists(&import.with, &b.name) {
                let ghost at = self@;
                let binding = b.clone();
                self.bindings.push(binding);
                assert(self@ =~= at.push(binding@));
            }
            assert(self@ =~= so_far + exposures(b@, import@));
            assert(so_far + exposures(b@, import@) =~= before + exposed(
                package@.take(i + 1),
                import@,
            ));
            i += 1;
        }
        assert(package@.take(package.bindings.len() as int) =~= package@);
    }
}

} // verus!
