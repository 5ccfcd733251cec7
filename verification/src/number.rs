//! The canonical forms of numbers: an integer where DAG-CBOR can write the
//! number, else the list of the limbs.

use vstd::prelude::*;
use crate::bignum::{lemma_limbs_of, lemma_limbs_small, lemma_limbs_unique};
use crate::bignum::{limb, limbs_of, limbs_value, trimmed, BigInt, BigNat};
use crate::ipld::{lemma_list_view, views, Value, ValueView};

verus! {

/// The greatest number that DAG-CBOR writes as an integer.
pub open spec fn greatest() -> int {
    0xffff_ffff_ffff_ffff
}

/// The least number that DAG-CBOR writes as an integer.
pub open spec fn least() -> int {
    -0x1_0000_0000_0000_0000
}

/// The limbs as integers, in order.
pub open spec fn limbs_form(limbs: Seq<u64>) -> Seq<ValueView> {
    Seq::new(limbs.len(), |i: int| ValueView::Integer(limbs[i] as int))
}

/// Whether a value is an integer that is a limb.
pub open spec fn is_limb(v: ValueView) -> bool {
    v matches ValueView::Integer(x) && 0 <= x <= u64::MAX
}

/// The limbs that a list of integers holds, where each of them is a limb.
pub open spec fn limbs_of_form(xs: Seq<ValueView>) -> Option<Seq<u64>> {
    if forall|i: int| 0 <= i < xs.len() ==> is_limb(#[trigger] xs[i]) {
        Some(Seq::new(xs.len(), |i: int| xs[i]->Integer_0 as u64))
    } else {
        None
    }
}

/// The canonical form of a natural number.
pub open spec fn nat_form(n: nat) -> ValueView {
    if n <= greatest() {
        ValueView::Integer(n as int)
    } else {
        ValueView::List(limbs_form(limbs_of(n)))
    }
}

/// The natural number that a value is the canonical form of.
pub open spec fn nat_of_form(v: ValueView) -> Option<nat> {
    match v {
        ValueView::Integer(i) => if 0 <= i <= greatest() {
            Some(i as nat)
        } else {
            None
        },
        ValueView::List(xs) => match limbs_of_form(xs) {
            Some(limbs) => if trimmed(limbs) && limbs_value(limbs) > greatest() {
                Some(limbs_value(limbs))
            } else {
                None
            },
            None => None,
        },
        _ => None,
    }
}

/// The magnitude of an integer.
pub open spec fn magnitude(i: int) -> nat {
    if i < 0 {
        (-i) as nat
    } else {
        i as nat
    }
}

/// The canonical form of an integer: where DAG-CBOR cannot write it, its
/// sign before the limbs of its magnitude.
pub open spec fn int_form(i: int) -> ValueView {
    if least() <= i <= greatest() {
        ValueView::Integer(i)
    } else {
        ValueView::List(seq![ValueView::Bool(i < 0)] + limbs_form(limbs_of(magnitude(i))))
    }
}

/// The integer that a value is the canonical form of.
pub open spec fn int_of_form(v: ValueView) -> Option<int> {
    match v {
        ValueView::Integer(i) => if least() <= i <= greatest() {
            Some(i)
        } else {
            None
        },
        ValueView::List(xs) => if xs.len() > 0 && xs[0] is Bool {
            match limbs_of_form(xs.drop_first()) {
                Some(limbs) => {
                    let i = if xs[0]->Bool_0 {
                        -(limbs_value(limbs) as int)
                    } else {
                        limbs_value(limbs) as int
                    };
                    if trimmed(limbs) && !(least() <= i <= greatest()) {
                        Some(i)
                    } else {
                        None
                    }
                },
                None => None,
            }
        } else {
            None
        },
        _ => None,
    }
}

/// The canonical forms of numbers have blocks.
pub proof fn lemma_number_encodable(n: nat, i: int)
    ensures
        nat_form(n).encodable(),
        int_form(i).encodable(),
{
    reveal_with_fuel(ValueView::encodable, 2);
    let a = nat_form(n);
    if a is List {
        let xs = a->List_0;
        assert forall|j: int| 0 <= j < xs.len() implies (#[trigger] xs[j]).encodable() by {
        }
    }
    let b = int_form(i);
    if b is List {
        let ys = b->List_0;
        assert forall|j: int| 0 <= j < ys.len() implies (#[trigger] ys[j]).encodable() by {
        }
    }
}

/// The limbs that the form of limbs holds are those limbs.
pub proof fn lemma_limbs_form(limbs: Seq<u64>)
    ensures
        limbs_of_form(limbs_form(limbs)) == Some(limbs),
{
    assert(Seq::new(limbs.len(), |i: int| limbs_form(limbs)[i]->Integer_0 as u64) =~= limbs);
}

/// Decoding the canonical form of a natural number gives the number back.
pub proof fn lemma_nat_roundtrip(n: nat)
    ensures
        nat_of_form(nat_form(n)) == Some(n),
{
    if n > greatest() {
        lemma_limbs_of(n);
        lemma_limbs_form(limbs_of(n));
    }
}

/// Decoding the canonical form of an integer gives the integer back.
pub proof fn lemma_int_roundtrip(i: int)
    ensures
        int_of_form(int_form(i)) == Some(i),
{
    if !(least() <= i <= greatest()) {
        let limbs = limbs_of(magnitude(i));
        lemma_limbs_of(magnitude(i));
        lemma_limbs_form(limbs);
        let xs = seq![ValueView::Bool(i < 0)] + limbs_form(limbs);
        assert(xs.drop_first() =~= limbs_form(limbs));
    }
}

/// The integers of a list that holds `limbs`, in order.
fn limbs_to_items(limbs: &Vec<u64>, items: &mut Vec<Value>)
    ensures
        views(final(items)@) == views(old(items)@) + limbs_form(limbs@),
{
    let ghost before = views(items@);
    let mut i: usize = 0;
    while i < limbs.len()
        invariant
            i <= limbs.len(),
            views(items@) == before + limbs_form(limbs@.take(i as int)),
        decreases limbs.len() - i,
    {
        let ghost so_far = views(items@);
        items.push(Value::Integer(limbs[i] as i128));
        proof {
            assert(views(items@) =~= so_far.push(ValueView::Integer(limbs[i as int] as int)));
            assert(limbs_form(limbs@.take(i + 1)) =~= limbs_form(limbs@.take(i as int)).push(
                ValueView::Integer(limbs[i as int] as int),
            ));
            assert(before + limbs_form(limbs@.take(i + 1)) =~= so_far.push(
                ValueView::Integer(limbs[i as int] as int),
            ));
        }
        i += 1;
    }
    proof {
        assert(limbs@.take(limbs.len() as int) == limbs@);
    }
}

/// The limbs that the items from the `from`th on hold, where each is a limb.
fn limbs_from_items(items: &Vec<Value>, from: usize) -> (r: Option<Vec<u64>>)
    requires
        from <= items.len(),
    ensures
        match r {
            Some(limbs) => limbs_of_form(views(items@).skip(from as int)) == Some(limbs@),
            None => limbs_of_form(views(items@).skip(from as int)) is None,
        },
{
    let ghost xs = views(items@).skip(from as int);
    let mut limbs: Vec<u64> = Vec::new();
    let mut i: usize = from;
    while i < items.len()
        invariant
            from <= i <= items.len(),
            xs == views(items@).skip(from as int),
            limbs.len() == i - from,
            forall|j: int| 0 <= j < i - from ==> is_limb(#[trigger] xs[j]),
            forall|j: int| 0 <= j < i - from ==> limbs[j] == xs[j]->Integer_0,
        decreases items.len() - i,
    {
        assert(xs[i - from] == items[i as int]@);
        match &items[i] {
            Value::Integer(x) => {
                if 0 <= *x && *x <= u64::MAX as i128 {
                    limbs.push(*x as u64);
                } else {
                    assert(!is_limb(xs[i - from]));
                    return None;
                }
            },
            _ => {
                assert(!is_limb(xs[i - from]));
                return None;
            },
        }
        i += 1;
    }
    proof {
        assert(limbs@ =~= Seq::new(xs.len(), |j: int| xs[j]->Integer_0 as u64));
    }
    Some(limbs)
}

fn is_trimmed(limbs: &Vec<u64>) -> (b: bool)
    ensures
        b == trimmed(limbs@),
{
    limbs.len() == 0 || limbs[limbs.len() - 1] != 0
}

impl BigNat {
    /// The canonical form of the number.
    pub fn to_ipld(&self) -> (v: Value)
        ensures
            v@ == nat_form(self@),
    {
        match self.to_u128() {
            Some(x) => {
                if x <= u64::MAX as u128 {
                    return Value::Integer(x as i128);
                }
            },
            None => {},
        }
        let n = self.normalize();
        let mut items: Vec<Value> = Vec::new();
        assert(views(items@) =~= Seq::empty());
        limbs_to_items(&n.limbs, &mut items);
        proof {
            lemma_limbs_unique(n.limbs@);
            assert(views(items@) =~= limbs_form(n.limbs@));
        }
        Value::list(items)
    }

    /// The number that a value is the canonical form of.
    pub fn from_ipld(ipld: &Value) -> (r: Option<BigNat>)
        ensures
            match r {
                Some(n) => nat_of_form(ipld@) == Some(n@) && n.wf(),
                None => nat_of_form(ipld@) is None,
            },
    {
        match ipld {
            Value::Integer(i) => {
                if 0 <= *i && *i <= u64::MAX as i128 {
                    Some(BigNat::from_u64(*i as u64))
                } else {
                    None
                }
            },
            Value::List(xs) => {
                proof {
                    lemma_list_view(*ipld);
                    assert(views(xs@).skip(0) =~= views(xs@));
                }
                match limbs_from_items(xs, 0) {
                    Some(limbs) => {
                        if !is_trimmed(&limbs) {
                            return None;
                        }
                        let n = BigNat { limbs };
                        match n.to_u128() {
                            Some(x) => {
                                if x <= u64::MAX as u128 {
                                    None
                                } else {
                                    Some(n)
                                }
                            },
                            None => Some(n),
                        }
                    },
                    None => None,
                }
            },
            _ => None,
        }
    }
}

impl BigInt {
    /// The same number without wasted limbs and without a sign on zero.
    pub fn normalize(&self) -> (n: BigInt)
        ensures
            n@ == self@,
            n.wf(),
    {
        let magnitude = self.magnitude.normalize();
        proof {
            lemma_limbs_small(magnitude.limbs@);
            if magnitude.limbs@.len() > 0 {
                crate::bignum::lemma_trimmed_positive(magnitude.limbs@);
            }
        }
        let negative = self.negative && magnitude.limbs.len() > 0;
        BigInt { negative, magnitude }
    }

    /// The canonical form of the number.
    pub fn to_ipld(&self) -> (v: Value)
        ensures
            v@ == int_form(self@),
    {
        match self.to_i128() {
            Some(x) => {
                if -0x1_0000_0000_0000_0000 <= x && x <= 0xffff_ffff_ffff_ffff {
                    return Value::Integer(x);
                }
            },
            None => {},
        }
        let n = self.normalize();
        let mut items: Vec<Value> = Vec::new();
        items.push(Value::Bool(n.negative));
        assert(views(items@) =~= seq![ValueView::Bool(n.negative)]);
        limbs_to_items(&n.magnitude.limbs, &mut items);
        proof {
            lemma_limbs_unique(n.magnitude.limbs@);
        }
        Value::list(items)
    }

    /// The number that a value is the canonical form of.
    pub fn from_ipld(ipld: &Value) -> (r: Option<BigInt>)
        ensures
            match r {
                Some(n) => int_of_form(ipld@) == Some(n@) && n.wf(),
                None => int_of_form(ipld@) is None,
            },
    {
        match ipld {
            Value::Integer(i) => {
                if -0x1_0000_0000_0000_0000 <= *i && *i <= 0xffff_ffff_ffff_ffff {
                    Some(BigInt::from_i128(*i))
                } else {
                    None
                }
            },
            Value::List(xs) => {
                proof {
                    lemma_list_view(*ipld);
                }
                if xs.len() == 0 {
                    return None;
                }
                let negative: bool = match &xs[0] {
                    Value::Bool(b) => *b,
                    _ => {
                        return None;
                    },
                };
                proof {
                    assert(views(xs@).skip(1) =~= views(xs@).drop_first());
                }
                match limbs_from_items(xs, 1) {
                    Some(limbs) => {
                        if !is_trimmed(&limbs) {
                            return None;
                        }
                        let n = BigInt { negative, magnitude: BigNat { limbs } };
                        proof {
                            if n.magnitude.limbs@.len() > 0 {
                                crate::bignum::lemma_trimmed_positive(n.magnitude.limbs@);
                            }
                        }
                        match n.to_i128() {
                            Some(x) => {
                                if -0x1_0000_0000_0000_0000 <= x && x <= 0xffff_ffff_ffff_ffff {
                                    None
                                } else {
                                    Some(n)
                                }
                            },
                            None => Some(n),
                        }
                    },
                    None => None,
                }
            },
            _ => None,
        }
    }
}

} // verus!
