//! The IPLD data model: the tree of values that every canonical form is
//! written in.

use vstd::prelude::*;
use crate::address::{Cid, CidView};
use crate::bytes::copy_bytes;
use crate::error::{decoded, IpldError, IpldErrorView};

verus! {

broadcast use vstd::std_specs::vec::group_vec_axioms;

/// A value of the IPLD data model.
///
/// A map that has a block holds its entries in the strictly ascending
/// order of their keys, so that no key stands twice.
#[derive(Debug, PartialEq)]
pub enum Value {
    Null,
    Bool(bool),
    Integer(i128),
    String(String),
    Bytes(Vec<u8>),
    List(Vec<Value>),
    StringMap(Vec<(String, Value)>),
    Link(Cid),
}

/// What a [`Value`] holds, as mathematical values.
pub enum ValueView {
    Null,
    Bool(bool),
    Integer(int),
    String(Seq<char>),
    Bytes(Seq<u8>),
    List(Seq<ValueView>),
    StringMap(Seq<(Seq<char>, ValueView)>),
    Link(CidView),
}

impl View for Value {
    type V = ValueView;

    open spec fn view(&self) -> ValueView
        decreases self,
    {
        match self {
            Value::Null => ValueView::Null,
            Value::Bool(b) => ValueView::Bool(*b),
            Value::Integer(i) => ValueView::Integer(*i as int),
            Value::String(s) => ValueView::String(s@),
            Value::Bytes(b) => ValueView::Bytes(b@),
            Value::List(xs) => ValueView::List(
                Seq::new(
                    xs.len() as nat,
                    |i: int|
                        if 0 <= i < xs.len() {
                            xs[i]@
                        } else {
                            ValueView::Null
                        },
                ),
            ),
            Value::StringMap(m) => ValueView::StringMap(
                Seq::new(
                    m.len() as nat,
                    |i: int|
                        if 0 <= i < m.len() {
                            (m[i].0@, m[i].1@)
                        } else {
                            (Seq::empty(), ValueView::Null)
                        },
                ),
            ),
            Value::Link(c) => ValueView::Link(c@),
        }
    }
}

/// The least and the greatest integer that DAG-CBOR can write.
pub open spec fn cbor_integer(i: int) -> bool {
    -0x1_0000_0000_0000_0000 <= i <= 0xffff_ffff_ffff_ffff
}

/// Whether the bytes `a` come before the bytes `b`: at the first place
/// where they differ `a` has the lesser byte, or `a` ends there and `b`
/// does not.
pub open spec fn bytes_before(a: Seq<u8>, b: Seq<u8>) -> bool
    decreases a.len(),
{
    if b.len() == 0 {
        false
    } else if a.len() == 0 {
        true
    } else if a[0] != b[0] {
        a[0] < b[0]
    } else {
        bytes_before(a.drop_first(), b.drop_first())
    }
}

/// Whether the key `a` comes before the key `b` in the order of strings,
/// which is that of the bytes of their UTF-8 forms.
pub open spec fn key_before(a: Seq<char>, b: Seq<char>) -> bool {
    bytes_before(vstd::utf8::encode_utf8(a), vstd::utf8::encode_utf8(b))
}

/// Whether the keys of the entries stand in strictly ascending order.
pub open spec fn ascending(entries: Seq<(Seq<char>, ValueView)>) -> bool {
    forall|i: int, j: int|
        0 <= i && j == i + 1 && j < entries.len() ==> key_before(
            (#[trigger] entries[i]).0,
            (#[trigger] entries[j]).0,
        )
}

impl ValueView {
    /// The values in which every map, at any depth, holds its keys in
    /// strictly ascending order.
    pub open spec fn ordered(self) -> bool
        decreases self,
    {
        match self {
            ValueView::List(xs) => forall|i: int|
                0 <= i < xs.len() ==> (#[trigger] xs[i]).ordered(),
            ValueView::StringMap(m) => ascending(m) && forall|i: int|
                0 <= i < m.len() ==> (#[trigger] m[i]).1.ordered(),
            _ => true,
        }
    }

    /// The values that have a DAG-CBOR encoding: every integer fits in 64
    /// bits and a sign, every link is a valid identifier, and every map
    /// holds its keys in strictly ascending order.
    pub open spec fn encodable(self) -> bool
        decreases self,
    {
        match self {
            ValueView::Integer(i) => cbor_integer(i),
            ValueView::Link(c) => c.valid(),
            ValueView::List(xs) => forall|i: int|
                0 <= i < xs.len() ==> (#[trigger] xs[i]).encodable(),
            ValueView::StringMap(m) => ascending(m) && forall|i: int|
                0 <= i < m.len() ==> (#[trigger] m[i]).1.encodable(),
            _ => true,
        }
    }
}

/// A value that has a DAG-CBOR encoding holds the keys of its maps in
/// order.
pub proof fn lemma_encodable_ordered(v: ValueView)
    requires
        v.encodable(),
    ensures
        v.ordered(),
    decreases v,
{
    match v {
        ValueView::List(xs) => {
            assert forall|i: int| 0 <= i < xs.len() implies (#[trigger] xs[i]).ordered() by {
                lemma_encodable_ordered(xs[i]);
            }
        },
        ValueView::StringMap(m) => {
            assert forall|i: int| 0 <= i < m.len() implies (#[trigger] m[i]).1.ordered() by {
                lemma_encodable_ordered(m[i].1);
            }
        },
        _ => {},
    }
}

/// The views of the entries of a map, in order.
pub open spec fn entry_views(entries: Seq<(String, Value)>) -> Seq<(Seq<char>, ValueView)> {
    Seq::new(entries.len(), |i: int| (entries[i].0@, entries[i].1@))
}

/// The view of a map is the list of the views of its entries, and each
/// value in it is smaller than the map.
pub proof fn lemma_map_view(v: Value)
    requires
        v is StringMap,
    ensures
        v@ == ValueView::StringMap(entry_views(v->StringMap_0@)),
        forall|i: int|
            0 <= i < v->StringMap_0.len() ==> decreases_to!(v => (#[trigger] v->StringMap_0[i]).1),
{
    reveal_with_fuel(<Value as View>::view, 2);
    assert(v@->StringMap_0 =~= entry_views(v->StringMap_0@));
    assert(decreases_to!(v => v->StringMap_0));
}

/// The views of the items of a list, in order.
pub open spec fn views(items: Seq<Value>) -> Seq<ValueView> {
    Seq::new(items.len(), |i: int| items[i]@)
}

/// The view of a list is the list of the views of its items, and each item
/// is smaller than the list.
pub proof fn lemma_list_view(v: Value)
    requires
        v is List,
    ensures
        v@ == ValueView::List(views(v->List_0@)),
        forall|i: int| 0 <= i < v->List_0.len() ==> decreases_to!(v => #[trigger] v->List_0[i]),
{
    reveal_with_fuel(<Value as View>::view, 2);
    assert(v@->List_0 =~= views(v->List_0@));
    assert(decreases_to!(v => v->List_0));
}

/// What a decoder makes of each of `vs` in turn: all the results, or what it
/// answers on the first value that it refuses.
pub open spec fn all_from<T>(
    vs: Seq<ValueView>,
    f: spec_fn(ValueView) -> Result<T, IpldErrorView>,
) -> Result<Seq<T>, IpldErrorView>
    decreases vs.len(),
{
    if vs.len() == 0 {
        Ok(Seq::empty())
    } else {
        match f(vs[0]) {
            Err(e) => Err(e),
            Ok(first) => match all_from(vs.drop_first(), f) {
                Err(e) => Err(e),
                Ok(rest) => Ok(seq![first] + rest),
            },
        }
    }
}

/// Where the decoder accepts every value, the results stand in order.
pub proof fn lemma_all_from_ok<T>(
    vs: Seq<ValueView>,
    f: spec_fn(ValueView) -> Result<T, IpldErrorView>,
    ts: Seq<T>,
)
    requires
        ts.len() == vs.len(),
        forall|j: int| 0 <= j < vs.len() ==> f(#[trigger] vs[j]) == Ok::<T, IpldErrorView>(ts[j]),
    ensures
        all_from(vs, f) == Ok::<Seq<T>, IpldErrorView>(ts),
    decreases vs.len(),
{
    if vs.len() == 0 {
        assert(ts =~= Seq::empty());
    } else {
        assert(f(vs[0]) == Ok::<T, IpldErrorView>(ts[0]));
        assert forall|j: int| 0 <= j < vs.drop_first().len() implies f(
            #[trigger] vs.drop_first()[j],
        ) == Ok::<T, IpldErrorView>(ts.drop_first()[j]) by {
            assert(vs.drop_first()[j] == vs[j + 1]);
        }
        lemma_all_from_ok(vs.drop_first(), f, ts.drop_first());
        assert(seq![ts[0]] + ts.drop_first() =~= ts);
    }
}

/// The first value that the decoder refuses decides the answer.
pub proof fn lemma_all_from_err<T>(
    vs: Seq<ValueView>,
    f: spec_fn(ValueView) -> Result<T, IpldErrorView>,
    k: int,
)
    requires
        0 <= k < vs.len(),
        forall|j: int| 0 <= j < k ==> f(#[trigger] vs[j]) is Ok,
        f(vs[k]) is Err,
    ensures
        all_from(vs, f) == Err::<Seq<T>, IpldErrorView>(f(vs[k])->Err_0),
    decreases k,
{
    if k > 0 {
        assert(f(vs[0]) is Ok);
        assert forall|j: int| 0 <= j < k - 1 implies f(#[trigger] vs.drop_first()[j]) is Ok by {
            assert(vs.drop_first()[j] == vs[j + 1]);
        }
        assert(vs.drop_first()[k - 1] == vs[k]);
        lemma_all_from_err(vs.drop_first(), f, k - 1);
    }
}

impl Value {
    /// The list of `items`.
    pub fn list(items: Vec<Value>) -> (v: Value)
        ensures
            v@ == ValueView::List(views(items@)),
    {
        let v = Value::List(items);
        proof {
            lemma_list_view(v);
        }
        v
    }
}

impl Clone for Value {
    fn clone(&self) -> (r: Self)
        ensures
            r@ == self@,
        decreases self,
    {
        match self {
            Value::Null => Value::Null,
            Value::Bool(b) => Value::Bool(*b),
            Value::Integer(i) => Value::Integer(*i),
            Value::String(s) => Value::String(s.clone()),
            Value::Bytes(b) => Value::Bytes(copy_bytes(b)),
            Value::List(xs) => {
                let mut out: Vec<Value> = Vec::new();
                let mut i: usize = 0;
                while i < xs.len()
                    invariant
                        self is List,
                        self->List_0 == *xs,
                        i <= xs.len(),
                        out.len() == i,
                        forall|j: int| 0 <= j < i ==> out[j]@ == xs[j]@,
                    decreases xs.len() - i,
                {
                    assert(decreases_to!(*self => self->List_0));
                    out.push(xs[i].clone());
                    i += 1;
                }
                let r = Value::List(out);
                assert(r@->List_0 =~= self@->List_0);
                r
            },
            Value::StringMap(m) => {
                let mut out: Vec<(String, Value)> = Vec::new();
                let mut i: usize = 0;
                while i < m.len()
                    invariant
                        self is StringMap,
                        self->StringMap_0 == *m,
                        i <= m.len(),
                        out.len() == i,
                        forall|j: int|
                            0 <= j < i ==> out[j].0@ == m[j].0@ && out[j].1@ == m[j].1@,
                    decreases m.len() - i,
                {
                    assert(decreases_to!(*self => self->StringMap_0));
                    let key = m[i].0.clone();
                    let value = m[i].1.clone();
                    out.push((key, value));
                    i += 1;
                }
                let r = Value::StringMap(out);
                assert(r@->StringMap_0 =~= self@->StringMap_0);
                r
            },
            Value::Link(c) => Value::Link(c.clone()),
        }
    }
}

/// The list of a string and no more values, in order.
pub fn tagged0(tag: &str) -> (v: Value)
    ensures
        v@ == ValueView::List(seq![ValueView::String(tag@)]),
{
    let mut items: Vec<Value> = Vec::new();
    items.push(Value::String(tag.to_owned()));
    let v = Value::list(items);
    assert(v@->List_0 =~= seq![ValueView::String(tag@)]);
    v
}

/// The list of a string and one more value, in order.
pub fn tagged1(tag: &str, a: Value) -> (v: Value)
    ensures
        v@ == ValueView::List(seq![ValueView::String(tag@), a@]),
{
    let mut items: Vec<Value> = Vec::new();
    items.push(Value::String(tag.to_owned()));
    items.push(a);
    let v = Value::list(items);
    assert(v@->List_0 =~= seq![ValueView::String(tag@), a@]);
    v
}

/// The list of a string and two more values, in order.
pub fn tagged2(tag: &str, a: Value, b: Value) -> (v: Value)
    ensures
        v@ == ValueView::List(seq![ValueView::String(tag@), a@, b@]),
{
    let mut items: Vec<Value> = Vec::new();
    items.push(Value::String(tag.to_owned()));
    items.push(a);
    items.push(b);
    let v = Value::list(items);
    assert(v@->List_0 =~= seq![ValueView::String(tag@), a@, b@]);
    v
}

/// The list of a string and three more values, in order.
pub fn tagged3(tag: &str, a: Value, b: Value, c: Value) -> (v: Value)
    ensures
        v@ == ValueView::List(seq![ValueView::String(tag@), a@, b@, c@]),
{
    let mut items: Vec<Value> = Vec::new();
    items.push(Value::String(tag.to_owned()));
    items.push(a);
    items.push(b);
    items.push(c);
    let v = Value::list(items);
    assert(v@->List_0 =~= seq![ValueView::String(tag@), a@, b@, c@]);
    v
}

/// The list of a string and four more values, in order.
pub fn tagged4(tag: &str, a: Value, b: Value, c: Value, d: Value) -> (v: Value)
    ensures
        v@ == ValueView::List(seq![ValueView::String(tag@), a@, b@, c@, d@]),
{
    let mut items: Vec<Value> = Vec::new();
    items.push(Value::String(tag.to_owned()));
    items.push(a);
    items.push(b);
    items.push(c);
    items.push(d);
    let v = Value::list(items);
    assert(v@->List_0 =~= seq![ValueView::String(tag@), a@, b@, c@, d@]);
    v
}

/// The list of a string and five more values, in order.
pub fn tagged5(tag: &str, a: Value, b: Value, c: Value, d: Value, e: Value) -> (v: Value)
    ensures
        v@ == ValueView::List(seq![ValueView::String(tag@), a@, b@, c@, d@, e@]),
{
    let mut items: Vec<Value> = Vec::new();
    items.push(Value::String(tag.to_owned()));
    items.push(a);
    items.push(b);
    items.push(c);
    items.push(d);
    items.push(e);
    let v = Value::list(items);
    assert(v@->List_0 =~= seq![ValueView::String(tag@), a@, b@, c@, d@, e@]);
    v
}

/// The list of a string and seven more values, in order.
pub fn tagged7(
    tag: &str,
    a: Value,
    b: Value,
    c: Value,
    d: Value,
    e: Value,
    f: Value,
    g: Value,
) -> (v: Value)
    ensures
        v@ == ValueView::List(seq![ValueView::String(tag@), a@, b@, c@, d@, e@, f@, g@]),
{
    let mut items: Vec<Value> = Vec::new();
    items.push(Value::String(tag.to_owned()));
    items.push(a);
    items.push(b);
    items.push(c);
    items.push(d);
    items.push(e);
    items.push(f);
    items.push(g);
    let v = Value::list(items);
    assert(v@->List_0 =~= seq![ValueView::String(tag@), a@, b@, c@, d@, e@, f@, g@]);
    v
}

/// The string at the head of a list.
pub open spec fn spec_tag(v: ValueView) -> Option<Seq<char>> {
    match v {
        ValueView::List(xs) => if xs.len() > 0 && xs[0] is String {
            Some(xs[0]->String_0)
        } else {
            None
        },
        _ => None,
    }
}

/// The string that the part `x` of `v` is; `v` has not the shape where `x`
/// is none.
pub open spec fn spec_string_field(v: ValueView, x: ValueView) -> Result<Seq<char>, IpldErrorView> {
    match x {
        ValueView::String(s) => Ok(s),
        _ => Err(IpldErrorView::InvalidShape(v)),
    }
}

/// The index that the part `x` of `v` is: an integer of 64 bits without a
/// sign; `v` has not the shape where `x` is none.
pub open spec fn spec_index_field(v: ValueView, x: ValueView) -> Result<u64, IpldErrorView> {
    match x {
        ValueView::Integer(i) => if 0 <= i <= u64::MAX {
            Ok(i as u64)
        } else {
            Err(IpldErrorView::InvalidShape(v))
        },
        _ => Err(IpldErrorView::InvalidShape(v)),
    }
}

/// The boolean that the part `x` of `v` is; `v` has not the shape where `x`
/// is none.
pub open spec fn spec_bool_field(v: ValueView, x: ValueView) -> Result<bool, IpldErrorView> {
    match x {
        ValueView::Bool(b) => Ok(b),
        _ => Err(IpldErrorView::InvalidShape(v)),
    }
}

/// The link that the part `x` of `v` is; `v` has not the shape where `x` is
/// none.
pub open spec fn spec_link_field(v: ValueView, x: ValueView) -> Result<CidView, IpldErrorView> {
    match x {
        ValueView::Link(c) => Ok(c),
        _ => Err(IpldErrorView::InvalidShape(v)),
    }
}

/// The string at the head of a list, and the items of the list. Every item
/// is smaller than the list.
pub fn tagged(v: &Value) -> (r: Option<(&str, &Vec<Value>)>)
    ensures
        match r {
            Some((tag, xs)) => spec_tag(v@) == Some(tag@) && v@ == ValueView::List(views(xs@))
                && forall|i: int| 0 <= i < xs.len() ==> decreases_to!(v => #[trigger] xs[i]),
            None => spec_tag(v@) is None,
        },
{
    match v {
        Value::List(xs) => {
            proof {
                lemma_list_view(*v);
            }
            if xs.len() == 0 {
                return None;
            }
            match &xs[0] {
                Value::String(s) => Some((s.as_str(), xs)),
                _ => None,
            }
        },
        _ => None,
    }
}

/// The string that the part `x` of `whole` is.
pub fn string_field(whole: &Value, x: &Value) -> (r: Result<String, IpldError>)
    ensures
        decoded(r) == spec_string_field(whole@, x@),
{
    match x {
        Value::String(s) => Ok(s.clone()),
        _ => Err(IpldError::InvalidShape(whole.clone())),
    }
}

/// The index that the part `x` of `whole` is.
pub fn index_field(whole: &Value, x: &Value) -> (r: Result<u64, IpldError>)
    ensures
        match r {
            Ok(i) => spec_index_field(whole@, x@) == Ok::<u64, IpldErrorView>(i),
            Err(e) => spec_index_field(whole@, x@) == Err::<u64, IpldErrorView>(e@),
        },
{
    match x {
        Value::Integer(i) => {
            if 0 <= *i && *i <= u64::MAX as i128 {
                Ok(*i as u64)
            } else {
                Err(IpldError::InvalidShape(whole.clone()))
            }
        },
        _ => Err(IpldError::InvalidShape(whole.clone())),
    }
}

/// The boolean that the part `x` of `whole` is.
pub fn bool_field(whole: &Value, x: &Value) -> (r: Result<bool, IpldError>)
    ensures
        match r {
            Ok(b) => spec_bool_field(whole@, x@) == Ok::<bool, IpldErrorView>(b),
            Err(e) => spec_bool_field(whole@, x@) == Err::<bool, IpldErrorView>(e@),
        },
{
    match x {
        Value::Bool(b) => Ok(*b),
        _ => Err(IpldError::InvalidShape(whole.clone())),
    }
}

/// The link that the part `x` of `whole` is.
pub fn link_field(whole: &Value, x: &Value) -> (r: Result<Cid, IpldError>)
    ensures
        decoded(r) == spec_link_field(whole@, x@),
{
    match x {
        Value::Link(c) => Ok(c.clone()),
        _ => Err(IpldError::InvalidShape(whole.clone())),
    }
}

/// Whether the key `a` comes before the key `b`.
fn is_before(a: &str, b: &str) -> (r: bool)
    ensures
        r == key_before(a@, b@),
{
    let x = a.as_bytes();
    let y = b.as_bytes();
    let mut i: usize = 0;
    proof {
        assert(x@.skip(0) =~= x@);
        assert(y@.skip(0) =~= y@);
    }
    while i < x.len() && i < y.len()
        invariant
            i <= x.len(),
            i <= y.len(),
            x@ == vstd::utf8::encode_utf8(a@),
            y@ == vstd::utf8::encode_utf8(b@),
            bytes_before(x@, y@) == bytes_before(x@.skip(i as int), y@.skip(i as int)),
        decreases x.len() - i,
    {
        proof {
            assert(x@.skip(i as int)[0] == x@[i as int]);
            assert(y@.skip(i as int)[0] == y@[i as int]);
            assert(x@.skip(i as int).drop_first() =~= x@.skip(i + 1));
            assert(y@.skip(i as int).drop_first() =~= y@.skip(i + 1));
        }
        if x[i] != y[i] {
            return x[i] < y[i];
        }
        i += 1;
    }
    i < y.len()
}

/// Whether the keys of the entries stand in strictly ascending order.
fn is_ascending(entries: &Vec<(String, Value)>) -> (r: bool)
    ensures
        r == ascending(entry_views(entries@)),
{
    let ghost m = entry_views(entries@);
    if entries.len() < 2 {
        return true;
    }
    let mut i: usize = 0;
    while i < entries.len() - 1
        invariant
            2 <= entries.len(),
            i <= entries.len() - 1,
            m == entry_views(entries@),
            forall|k: int, j: int|
                0 <= k && j == k + 1 && j <= i ==> key_before(
                    (#[trigger] m[k]).0,
                    (#[trigger] m[j]).0,
                ),
        decreases entries.len() - i,
    {
        if !is_before(entries[i].0.as_str(), entries[i + 1].0.as_str()) {
            assert(!key_before(m[i as int].0, m[i + 1].0));
            return false;
        }
        i += 1;
    }
    true
}

impl Value {
    /// Whether every map in the value, at any depth, holds its keys in
    /// strictly ascending order.
    pub fn is_ordered(&self) -> (r: bool)
        ensures
            r == self@.ordered(),
        decreases self,
    {
        match self {
            Value::List(xs) => {
                proof {
                    lemma_list_view(*self);
                }
                let mut i: usize = 0;
                while i < xs.len()
                    invariant
                        i <= xs.len(),
                        self is List,
                        self->List_0 == *xs,
                        self@ == ValueView::List(views(xs@)),
                        forall|j: int| 0 <= j < i ==> (#[trigger] views(xs@)[j]).ordered(),
                    decreases xs.len() - i,
                {
                    proof {
                        lemma_list_view(*self);
                    }
                    assert(views(xs@)[i as int] == xs[i as int]@);
                    if !xs[i].is_ordered() {
                        assert(!views(xs@)[i as int].ordered());
                        assert(self@->List_0 == views(xs@));
                        assert(!self@.ordered());
                        return false;
                    }
                    i += 1;
                }
                true
            },
            Value::StringMap(m) => {
                proof {
                    lemma_map_view(*self);
                }
                if !is_ascending(m) {
                    return false;
                }
                let mut i: usize = 0;
                while i < m.len()
                    invariant
                        i <= m.len(),
                        self is StringMap,
                        self->StringMap_0 == *m,
                        self@ == ValueView::StringMap(entry_views(m@)),
                        ascending(entry_views(m@)),
                        forall|j: int|
                            0 <= j < i ==> (#[trigger] entry_views(m@)[j]).1.ordered(),
                    decreases m.len() - i,
                {
                    proof {
                        lemma_map_view(*self);
                    }
                    assert(entry_views(m@)[i as int].1 == m[i as int].1@);
                    if !m[i].1.is_ordered() {
                        return false;
                    }
                    i += 1;
                }
                true
            },
            _ => true,
        }
    }
}

} // verus!
