//! Literals: the typed scalars of the language, and the types they have.

use vstd::prelude::*;
use crate::bignum::{BigInt, BigNat};
use crate::bytes::{copy_bytes, fingerprint, same_text, text};
use crate::error::{decoded, IpldError, IpldErrorView};
use crate::ipld::{lemma_list_view, views, Value, ValueView};
use crate::number::{int_form, int_of_form, lemma_int_roundtrip, lemma_nat_roundtrip};
use crate::number::lemma_number_encodable;
use crate::number::{nat_form, nat_of_form};

verus! {

/// The types of the literals.
#[derive(Clone, Copy, Debug, PartialEq, Eq, Structural)]
pub enum PrimType {
    Nat,
    Int,
    Bits,
    Bytes,
    Text,
    Char,
    Bool,
    U8,
    U16,
    U32,
    U64,
    U128,
    I8,
    I16,
    I32,
    I64,
    I128,
}

/// A literal: a scalar with the tag of its type.
#[derive(Debug, PartialEq, Eq)]
pub enum Literal {
    Nat(BigNat),
    Int(BigInt),
    Bits(Vec<bool>),
    Bytes(Vec<u8>),
    Text(String),
    Char(char),
    Bool(bool),
    U8(u8),
    U16(u16),
    U32(u32),
    U64(u64),
    U128(u128),
    I8(i8),
    I16(i16),
    I32(i32),
    I64(i64),
    I128(i128),
}

/// What a [`Literal`] holds, as mathematical values.
pub enum LiteralView {
    Nat(nat),
    Int(int),
    Bits(Seq<bool>),
    Bytes(Seq<u8>),
    Text(Seq<char>),
    Char(char),
    Bool(bool),
    U8(u8),
    U16(u16),
    U32(u32),
    U64(u64),
    U128(u128),
    I8(i8),
    I16(i16),
    I32(i32),
    I64(i64),
    I128(i128),
}

impl View for Literal {
    type V = LiteralView;

    open spec fn view(&self) -> LiteralView {
        match self {
            Literal::Nat(n) => LiteralView::Nat(n@),
            Literal::Int(n) => LiteralView::Int(n@),
            Literal::Bits(b) => LiteralView::Bits(b@),
            Literal::Bytes(b) => LiteralView::Bytes(b@),
            Literal::Text(s) => LiteralView::Text(s@),
            Literal::Char(c) => LiteralView::Char(*c),
            Literal::Bool(b) => LiteralView::Bool(*b),
            Literal::U8(x) => LiteralView::U8(*x),
            Literal::U16(x) => LiteralView::U16(*x),
            Literal::U32(x) => LiteralView::U32(*x),
            Literal::U64(x) => LiteralView::U64(*x),
            Literal::U128(x) => LiteralView::U128(*x),
            Literal::I8(x) => LiteralView::I8(*x),
            Literal::I16(x) => LiteralView::I16(*x),
            Literal::I32(x) => LiteralView::I32(*x),
            Literal::I64(x) => LiteralView::I64(*x),
            Literal::I128(x) => LiteralView::I128(*x),
        }
    }
}

impl LiteralView {
    /// The type of a literal.
    pub open spec fn type_of(self) -> PrimType {
        match self {
            LiteralView::Nat(_) => PrimType::Nat,
            LiteralView::Int(_) => PrimType::Int,
            LiteralView::Bits(_) => PrimType::Bits,
            LiteralView::Bytes(_) => PrimType::Bytes,
            LiteralView::Text(_) => PrimType::Text,
            LiteralView::Char(_) => PrimType::Char,
            LiteralView::Bool(_) => PrimType::Bool,
            LiteralView::U8(_) => PrimType::U8,
            LiteralView::U16(_) => PrimType::U16,
            LiteralView::U32(_) => PrimType::U32,
            LiteralView::U64(_) => PrimType::U64,
            LiteralView::U128(_) => PrimType::U128,
            LiteralView::I8(_) => PrimType::I8,
            LiteralView::I16(_) => PrimType::I16,
            LiteralView::I32(_) => PrimType::I32,
            LiteralView::I64(_) => PrimType::I64,
            LiteralView::I128(_) => PrimType::I128,
        }
    }
}

/// The view of a literal that may be missing.
pub open spec fn option_view(r: Option<Literal>) -> Option<LiteralView> {
    match r {
        Some(l) => Some(l@),
        None => None,
    }
}

/// A fresh vector with the same bits.
pub fn copy_bits(v: &Vec<bool>) -> (r: Vec<bool>)
    ensures
        r@ == v@,
{
    let mut r: Vec<bool> = Vec::new();
    let mut i: usize = 0;
    while i < v.len()
        invariant
            i <= v.len(),
            r@ == v@.take(i as int),
        decreases v.len() - i,
    {
        r.push(v[i]);
        assert(v@.take(i as int).push(v@[i as int]) == v@.take(i + 1));
        i += 1;
    }
    assert(v@.take(v.len() as int) == v@);
    r
}

impl Clone for Literal {
    fn clone(&self) -> (r: Self)
        ensures
            r@ == self@,
    {
        match self {
            Literal::Nat(n) => Literal::Nat(n.clone()),
            Literal::Int(n) => Literal::Int(n.clone()),
            Literal::Bits(b) => Literal::Bits(copy_bits(b)),
            Literal::Bytes(b) => Literal::Bytes(copy_bytes(b)),
            Literal::Text(s) => Literal::Text(s.clone()),
            Literal::Char(c) => Literal::Char(*c),
            Literal::Bool(b) => Literal::Bool(*b),
            Literal::U8(x) => Literal::U8(*x),
            Literal::U16(x) => Literal::U16(*x),
            Literal::U32(x) => Literal::U32(*x),
            Literal::U64(x) => Literal::U64(*x),
            Literal::U128(x) => Literal::U128(*x),
            Literal::I8(x) => Literal::I8(*x),
            Literal::I16(x) => Literal::I16(*x),
            Literal::I32(x) => Literal::I32(*x),
            Literal::I64(x) => Literal::I64(*x),
            Literal::I128(x) => Literal::I128(*x),
        }
    }
}

/// Whether a number is a Unicode scalar value.
pub open spec fn is_scalar(n: nat) -> bool {
    n <= 0xd7ff || 0xe000 <= n <= 0x10_ffff
}

/// The booleans as values, in order.
pub open spec fn bits_form(bits: Seq<bool>) -> Seq<ValueView> {
    Seq::new(bits.len(), |i: int| ValueView::Bool(bits[i]))
}

/// The booleans that a list holds, where each item is one.
pub open spec fn bits_of_form(xs: Seq<ValueView>) -> Option<Seq<bool>> {
    if forall|i: int| 0 <= i < xs.len() ==> (#[trigger] xs[i]) is Bool {
        Some(Seq::new(xs.len(), |i: int| xs[i]->Bool_0))
    } else {
        None
    }
}

impl PrimType {
    /// The name of the type.
    pub open spec fn spec_name(self) -> Seq<char> {
        match self {
            PrimType::Nat => "Nat"@,
            PrimType::Int => "Int"@,
            PrimType::Bits => "Bits"@,
            PrimType::Bytes => "Bytes"@,
            PrimType::Text => "Text"@,
            PrimType::Char => "Char"@,
            PrimType::Bool => "Bool"@,
            PrimType::U8 => "U8"@,
            PrimType::U16 => "U16"@,
            PrimType::U32 => "U32"@,
            PrimType::U64 => "U64"@,
            PrimType::U128 => "U128"@,
            PrimType::I8 => "I8"@,
            PrimType::I16 => "I16"@,
            PrimType::I32 => "I32"@,
            PrimType::I64 => "I64"@,
            PrimType::I128 => "I128"@,
        }
    }

    /// The type that a name stands for.
    pub open spec fn spec_from_name(x: Seq<char>) -> Option<PrimType> {
        if x == "Nat"@ {
            Some(PrimType::Nat)
        } else if x == "Int"@ {
            Some(PrimType::Int)
        } else if x == "Bits"@ {
            Some(PrimType::Bits)
        } else if x == "Bytes"@ {
            Some(PrimType::Bytes)
        } else if x == "Text"@ {
            Some(PrimType::Text)
        } else if x == "Char"@ {
            Some(PrimType::Char)
        } else if x == "Bool"@ {
            Some(PrimType::Bool)
        } else if x == "U8"@ {
            Some(PrimType::U8)
        } else if x == "U16"@ {
            Some(PrimType::U16)
        } else if x == "U32"@ {
            Some(PrimType::U32)
        } else if x == "U64"@ {
            Some(PrimType::U64)
        } else if x == "U128"@ {
            Some(PrimType::U128)
        } else if x == "I8"@ {
            Some(PrimType::I8)
        } else if x == "I16"@ {
            Some(PrimType::I16)
        } else if x == "I32"@ {
            Some(PrimType::I32)
        } else if x == "I64"@ {
            Some(PrimType::I64)
        } else if x == "I128"@ {
            Some(PrimType::I128)
        } else {
            None
        }
    }

    /// The canonical form of the type.
    pub open spec fn spec_to_ipld(self) -> ValueView {
        ValueView::List(seq![ValueView::String("#LTy"@), ValueView::String(self.spec_name())])
    }

    /// The type that a value is the canonical form of.
    pub open spec fn spec_from_ipld(v: ValueView) -> Result<PrimType, IpldErrorView> {
        match v {
            ValueView::List(xs) => {
                if xs.len() == 2 && xs[0] == ValueView::String("#LTy"@) && xs[1] is String {
                    match Self::spec_from_name(xs[1]->String_0) {
                        Some(t) => Ok(t),
                        None => Err(IpldErrorView::UnknownTag(v)),
                    }
                } else {
                    Err(IpldErrorView::InvalidShape(v))
                }
            },
            _ => Err(IpldErrorView::InvalidShape(v)),
        }
    }

    /// The name of the type.
    pub fn name(self) -> (s: String)
        ensures
            s@ == self.spec_name(),
    {
        match self {
            PrimType::Nat => text("Nat"),
            PrimType::Int => text("Int"),
            PrimType::Bits => text("Bits"),
            PrimType::Bytes => text("Bytes"),
            PrimType::Text => text("Text"),
            PrimType::Char => text("Char"),
            PrimType::Bool => text("Bool"),
            PrimType::U8 => text("U8"),
            PrimType::U16 => text("U16"),
            PrimType::U32 => text("U32"),
            PrimType::U64 => text("U64"),
            PrimType::U128 => text("U128"),
            PrimType::I8 => text("I8"),
            PrimType::I16 => text("I16"),
            PrimType::I32 => text("I32"),
            PrimType::I64 => text("I64"),
            PrimType::I128 => text("I128"),
        }
    }

    /// The type that a name stands for, if it stands for one.
    pub fn from_name(x: &str) -> (r: Option<PrimType>)
        ensures
            r == Self::spec_from_name(x@),
    {
        if same_text(x, "Nat") {
            Some(PrimType::Nat)
        } else if same_text(x, "Int") {
            Some(PrimType::Int)
        } else if same_text(x, "Bits") {
            Some(PrimType::Bits)
        } else if same_text(x, "Bytes") {
            Some(PrimType::Bytes)
        } else if same_text(x, "Text") {
            Some(PrimType::Text)
        } else if same_text(x, "Char") {
            Some(PrimType::Char)
        } else if same_text(x, "Bool") {
            Some(PrimType::Bool)
        } else if same_text(x, "U8") {
            Some(PrimType::U8)
        } else if same_text(x, "U16") {
            Some(PrimType::U16)
        } else if same_text(x, "U32") {
            Some(PrimType::U32)
        } else if same_text(x, "U64") {
            Some(PrimType::U64)
        } else if same_text(x, "U128") {
            Some(PrimType::U128)
        } else if same_text(x, "I8") {
            Some(PrimType::I8)
        } else if same_text(x, "I16") {
            Some(PrimType::I16)
        } else if same_text(x, "I32") {
            Some(PrimType::I32)
        } else if same_text(x, "I64") {
            Some(PrimType::I64)
        } else if same_text(x, "I128") {
            Some(PrimType::I128)
        } else {
            None
        }
    }

    /// The canonical form of the type.
    pub fn to_ipld(self) -> (v: Value)
        ensures
            v@ == self.spec_to_ipld(),
    {
        let mut items: Vec<Value> = Vec::new();
        items.push(Value::String(text("#LTy")));
        items.push(Value::String(self.name()));
        let v = Value::list(items);
        assert(v@->List_0 =~= self.spec_to_ipld()->List_0);
        v
    }

    /// The type that a value is the canonical form of.
    pub fn from_ipld(ipld: &Value) -> (r: Result<PrimType, IpldError>)
        ensures
            match r {
                Ok(t) => Self::spec_from_ipld(ipld@) == Ok::<PrimType, IpldErrorView>(t),
                Err(e) => Self::spec_from_ipld(ipld@) == Err::<PrimType, IpldErrorView>(e@),
            },
    {
        match ipld {
            Value::List(xs) => {
                proof {
                    lemma_list_view(*ipld);
                }
                if xs.len() != 2 {
                    return Err(IpldError::InvalidShape(ipld.clone()));
                }
                match (&xs[0], &xs[1]) {
                    (Value::String(head), Value::String(name)) => {
                        if !same_text(head.as_str(), "#LTy") {
                            return Err(IpldError::InvalidShape(ipld.clone()));
                        }
                        match PrimType::from_name(name.as_str()) {
                            Some(t) => Ok(t),
                            None => Err(IpldError::UnknownTag(ipld.clone())),
                        }
                    },
                    _ => Err(IpldError::InvalidShape(ipld.clone())),
                }
            },
            _ => Err(IpldError::InvalidShape(ipld.clone())),
        }
    }
}

/// Every type is the type that its name stands for.
pub proof fn lemma_type_name_roundtrip(t: PrimType)
    ensures
        PrimType::spec_from_name(t.spec_name()) == Some(t),
{
    reveal_strlit("Nat");
    assert(fingerprint("Nat"@) == (3nat, 'N', 'a', 't', ' ', 't'));
    reveal_strlit("Int");
    assert(fingerprint("Int"@) == (3nat, 'I', 'n', 't', ' ', 't'));
    reveal_strlit("Bits");
    assert(fingerprint("Bits"@) == (4nat, 'B', 'i', 't', 's', 's'));
    reveal_strlit("Bytes");
    assert(fingerprint("Bytes"@) == (5nat, 'B', 'y', 't', 'e', 's'));
    reveal_strlit("Text");
    assert(fingerprint("Text"@) == (4nat, 'T', 'e', 'x', 't', 't'));
    reveal_strlit("Char");
    assert(fingerprint("Char"@) == (4nat, 'C', 'h', 'a', 'r', 'r'));
    reveal_strlit("Bool");
    assert(fingerprint("Bool"@) == (4nat, 'B', 'o', 'o', 'l', 'l'));
    reveal_strlit("U8");
    assert(fingerprint("U8"@) == (2nat, 'U', '8', ' ', ' ', '8'));
    reveal_strlit("U16");
    assert(fingerprint("U16"@) == (3nat, 'U', '1', '6', ' ', '6'));
    reveal_strlit("U32");
    assert(fingerprint("U32"@) == (3nat, 'U', '3', '2', ' ', '2'));
    reveal_strlit("U64");
    assert(fingerprint("U64"@) == (3nat, 'U', '6', '4', ' ', '4'));
    reveal_strlit("U128");
    assert(fingerprint("U128"@) == (4nat, 'U', '1', '2', '8', '8'));
    reveal_strlit("I8");
    assert(fingerprint("I8"@) == (2nat, 'I', '8', ' ', ' ', '8'));
    reveal_strlit("I16");
    assert(fingerprint("I16"@) == (3nat, 'I', '1', '6', ' ', '6'));
    reveal_strlit("I32");
    assert(fingerprint("I32"@) == (3nat, 'I', '3', '2', ' ', '2'));
    reveal_strlit("I64");
    assert(fingerprint("I64"@) == (3nat, 'I', '6', '4', ' ', '4'));
    reveal_strlit("I128");
    assert(fingerprint("I128"@) == (4nat, 'I', '1', '2', '8', '8'));
}

/// A name stands for a type only if it is the name of that type.
pub proof fn lemma_type_name_canonical(x: Seq<char>, t: PrimType)
    requires
        PrimType::spec_from_name(x) == Some(t),
    ensures
        x == t.spec_name(),
{
}

/// Decoding the canonical form of a type gives the type back.
pub proof fn lemma_type_roundtrip(t: PrimType)
    ensures
        PrimType::spec_from_ipld(t.spec_to_ipld()) == Ok::<PrimType, IpldErrorView>(t),
{
    lemma_type_name_roundtrip(t);
}

impl LiteralView {
    /// What a literal holds, as a value: an integer for a number and for a
    /// character, a list of booleans for bits, bytes for bytes, a string for
    /// a text, a boolean for a boolean.
    pub open spec fn payload(self) -> ValueView {
        match self {
            LiteralView::Nat(n) => nat_form(n),
            LiteralView::Int(i) => int_form(i),
            LiteralView::Bits(b) => ValueView::List(bits_form(b)),
            LiteralView::Bytes(b) => ValueView::Bytes(b),
            LiteralView::Text(s) => ValueView::String(s),
            LiteralView::Char(c) => nat_form(c as nat),
            LiteralView::Bool(b) => ValueView::Bool(b),
            LiteralView::U8(x) => nat_form(x as nat),
            LiteralView::U16(x) => nat_form(x as nat),
            LiteralView::U32(x) => nat_form(x as nat),
            LiteralView::U64(x) => nat_form(x as nat),
            LiteralView::U128(x) => nat_form(x as nat),
            LiteralView::I8(x) => int_form(x as int),
            LiteralView::I16(x) => int_form(x as int),
            LiteralView::I32(x) => int_form(x as int),
            LiteralView::I64(x) => int_form(x as int),
            LiteralView::I128(x) => int_form(x as int),
        }
    }

    /// The literal of the type `t` that holds what the value `p` says, if
    /// there is one.
    pub open spec fn of_payload(t: PrimType, p: ValueView) -> Option<LiteralView> {
        match t {
            PrimType::Nat => match nat_of_form(p) {
                Some(n) => Some(LiteralView::Nat(n)),
                None => None,
            },
            PrimType::Int => match int_of_form(p) {
                Some(i) => Some(LiteralView::Int(i)),
                None => None,
            },
            PrimType::Bits => match p {
                ValueView::List(xs) => match bits_of_form(xs) {
                    Some(b) => Some(LiteralView::Bits(b)),
                    None => None,
                },
                _ => None,
            },
            PrimType::Bytes => match p {
                ValueView::Bytes(b) => Some(LiteralView::Bytes(b)),
                _ => None,
            },
            PrimType::Text => match p {
                ValueView::String(s) => Some(LiteralView::Text(s)),
                _ => None,
            },
            PrimType::Char => match nat_of_form(p) {
                Some(n) => if is_scalar(n) {
                    Some(LiteralView::Char(n as char))
                } else {
                    None
                },
                None => None,
            },
            PrimType::Bool => match p {
                ValueView::Bool(b) => Some(LiteralView::Bool(b)),
                _ => None,
            },
            PrimType::U8 => match nat_of_form(p) {
                Some(n) => if n <= u8::MAX {
                    Some(LiteralView::U8(n as u8))
                } else {
                    None
                },
                None => None,
            },
            PrimType::U16 => match nat_of_form(p) {
                Some(n) => if n <= u16::MAX {
                    Some(LiteralView::U16(n as u16))
                } else {
                    None
                },
                None => None,
            },
            PrimType::U32 => match nat_of_form(p) {
                Some(n) => if n <= u32::MAX {
                    Some(LiteralView::U32(n as u32))
                } else {
                    None
                },
                None => None,
            },
            PrimType::U64 => match nat_of_form(p) {
                Some(n) => if n <= u64::MAX {
                    Some(LiteralView::U64(n as u64))
                } else {
                    None
                },
                None => None,
            },
            PrimType::U128 => match nat_of_form(p) {
                Some(n) => if n <= u128::MAX {
                    Some(LiteralView::U128(n as u128))
                } else {
                    None
                },
                None => None,
            },
            PrimType::I8 => match int_of_form(p) {
                Some(i) => if i8::MIN <= i <= i8::MAX {
                    Some(LiteralView::I8(i as i8))
                } else {
                    None
                },
                None => None,
            },
            PrimType::I16 => match int_of_form(p) {
                Some(i) => if i16::MIN <= i <= i16::MAX {
                    Some(LiteralView::I16(i as i16))
                } else {
                    None
                },
                None => None,
            },
            PrimType::I32 => match int_of_form(p) {
                Some(i) => if i32::MIN <= i <= i32::MAX {
                    Some(LiteralView::I32(i as i32))
                } else {
                    None
                },
                None => None,
            },
            PrimType::I64 => match int_of_form(p) {
                Some(i) => if i64::MIN <= i <= i64::MAX {
                    Some(LiteralView::I64(i as i64))
                } else {
                    None
                },
                None => None,
            },
            PrimType::I128 => match int_of_form(p) {
                Some(i) => if i128::MIN <= i <= i128::MAX {
                    Some(LiteralView::I128(i as i128))
                } else {
                    None
                },
                None => None,
            },
        }
    }

    /// The canonical form of a literal: the mark of literals, the name of
    /// its type, and what it holds.
    pub open spec fn to_ipld(self) -> ValueView {
        ValueView::List(
            seq![
                ValueView::String("#Lit"@),
                ValueView::String(self.type_of().spec_name()),
                self.payload(),
            ],
        )
    }

    /// The literal that a value is the canonical form of. A value that is
    /// no list of the mark, a string and one more has not the shape; a
    /// string that names no type is an unknown tag; what fits not the type
    /// has not the shape.
    pub open spec fn from_ipld(v: ValueView) -> Result<LiteralView, IpldErrorView> {
        match v {
            ValueView::List(xs) => {
                if xs.len() == 3 && xs[0] == ValueView::String("#Lit"@) && xs[1] is String {
                    match PrimType::spec_from_name(xs[1]->String_0) {
                        Some(t) => match Self::of_payload(t, xs[2]) {
                            Some(l) => Ok(l),
                            None => Err(IpldErrorView::InvalidShape(v)),
                        },
                        None => Err(IpldErrorView::UnknownTag(v)),
                    }
                } else {
                    Err(IpldErrorView::InvalidShape(v))
                }
            },
            _ => Err(IpldErrorView::InvalidShape(v)),
        }
    }
}

/// What a literal holds is read back as that literal.
pub proof fn lemma_payload_roundtrip(l: LiteralView)
    ensures
        LiteralView::of_payload(l.type_of(), l.payload()) == Some(l),
{
    match l {
        LiteralView::Nat(n) => lemma_nat_roundtrip(n),
        LiteralView::Int(i) => lemma_int_roundtrip(i),
        LiteralView::Bits(b) => {
            assert(Seq::new(b.len(), |i: int| bits_form(b)[i]->Bool_0) =~= b);
        },
        LiteralView::Bytes(_) => {},
        LiteralView::Text(_) => {},
        LiteralView::Char(c) => {
            lemma_nat_roundtrip(c as nat);
        },
        LiteralView::Bool(_) => {},
        LiteralView::U8(x) => lemma_nat_roundtrip(x as nat),
        LiteralView::U16(x) => lemma_nat_roundtrip(x as nat),
        LiteralView::U32(x) => lemma_nat_roundtrip(x as nat),
        LiteralView::U64(x) => lemma_nat_roundtrip(x as nat),
        LiteralView::U128(x) => lemma_nat_roundtrip(x as nat),
        LiteralView::I8(x) => lemma_int_roundtrip(x as int),
        LiteralView::I16(x) => lemma_int_roundtrip(x as int),
        LiteralView::I32(x) => lemma_int_roundtrip(x as int),
        LiteralView::I64(x) => lemma_int_roundtrip(x as int),
        LiteralView::I128(x) => lemma_int_roundtrip(x as int),
    }
}

/// The canonical form of a literal has a block.
pub proof fn lemma_literal_encodable(l: LiteralView)
    ensures
        l.to_ipld().encodable(),
{
    reveal_with_fuel(ValueView::encodable, 3);
    let p = l.payload();
    assert(p.encodable()) by {
        match l {
            LiteralView::Nat(n) => lemma_number_encodable(n, 0),
            LiteralView::Int(i) => lemma_number_encodable(0, i),
            LiteralView::Bits(b) => {
                assert forall|j: int| 0 <= j < p->List_0.len() implies (
                #[trigger] p->List_0[j]).encodable() by {
                }
            },
            LiteralView::Bytes(_) => {},
            LiteralView::Text(_) => {},
            LiteralView::Char(c) => lemma_number_encodable(c as nat, 0),
            LiteralView::Bool(_) => {},
            LiteralView::U8(x) => lemma_number_encodable(x as nat, 0),
            LiteralView::U16(x) => lemma_number_encodable(x as nat, 0),
            LiteralView::U32(x) => lemma_number_encodable(x as nat, 0),
            LiteralView::U64(x) => lemma_number_encodable(x as nat, 0),
            LiteralView::U128(x) => lemma_number_encodable(x as nat, 0),
            LiteralView::I8(x) => lemma_number_encodable(0, x as int),
            LiteralView::I16(x) => lemma_number_encodable(0, x as int),
            LiteralView::I32(x) => lemma_number_encodable(0, x as int),
            LiteralView::I64(x) => lemma_number_encodable(0, x as int),
            LiteralView::I128(x) => lemma_number_encodable(0, x as int),
        }
    }
    let xs = l.to_ipld()->List_0;
    assert forall|j: int| 0 <= j < xs.len() implies (#[trigger] xs[j]).encodable() by {
    }
}

/// Decoding the canonical form of a literal gives the literal back.
pub proof fn lemma_literal_roundtrip(l: LiteralView)
    ensures
        LiteralView::from_ipld(l.to_ipld()) == Ok::<LiteralView, IpldErrorView>(l),
{
    lemma_type_name_roundtrip(l.type_of());
    lemma_payload_roundtrip(l);
}

/// `char::from_u32` of std: the character with the code `u`, where `u` is a
/// Unicode scalar value, and nothing where it is none.
#[verifier::external_body]
fn char_of(u: u32) -> (r: Option<char>)
    ensures
        r == (if is_scalar(u as nat) {
            Some(u as char)
        } else {
            None
        }),
{
    char::from_u32(u)
}

/// The natural number that a value is the canonical form of, where it is at
/// most `max`.
fn small_nat(ipld: &Value, max: u128) -> (r: Option<u128>)
    ensures
        r == (match nat_of_form(ipld@) {
            Some(n) => if n <= max {
                Some(n as u128)
            } else {
                None
            },
            None => None,
        }),
{
    match BigNat::from_ipld(ipld) {
        Some(n) => match n.to_u128() {
            Some(x) => if x <= max {
                Some(x)
            } else {
                None
            },
            None => None,
        },
        None => None,
    }
}

/// The integer that a value is the canonical form of, where it lies from
/// `min` to `max`.
fn small_int(ipld: &Value, min: i128, max: i128) -> (r: Option<i128>)
    ensures
        r == (match int_of_form(ipld@) {
            Some(i) => if min <= i <= max {
                Some(i as i128)
            } else {
                None
            },
            None => None,
        }),
{
    match BigInt::from_ipld(ipld) {
        Some(n) => match n.to_i128() {
            Some(x) => if min <= x && x <= max {
                Some(x)
            } else {
                None
            },
            None => None,
        },
        None => None,
    }
}

fn bits_to_ipld(bits: &Vec<bool>) -> (v: Value)
    ensures
        v@ == ValueView::List(bits_form(bits@)),
{
    let mut items: Vec<Value> = Vec::new();
    let mut i: usize = 0;
    while i < bits.len()
        invariant
            i <= bits.len(),
            items.len() == i,
            forall|j: int| 0 <= j < i ==> items[j]@ == ValueView::Bool(bits[j]),
        decreases bits.len() - i,
    {
        items.push(Value::Bool(bits[i]));
        i += 1;
    }
    let v = Value::list(items);
    assert(v@->List_0 =~= bits_form(bits@));
    v
}

fn bits_from_ipld(ipld: &Value) -> (r: Option<Vec<bool>>)
    ensures
        match r {
            Some(bits) => ipld@ matches ValueView::List(xs) && bits_of_form(xs) == Some(bits@),
            None => ipld@ matches ValueView::List(xs) ==> bits_of_form(xs) is None,
        },
{
    match ipld {
        Value::List(xs) => {
            proof {
                lemma_list_view(*ipld);
            }
            let mut bits: Vec<bool> = Vec::new();
            let mut i: usize = 0;
            while i < xs.len()
                invariant
                    i <= xs.len(),
                    bits.len() == i,
                    ipld@ == ValueView::List(views(xs@)),
                    forall|j: int| 0 <= j < i ==> (#[trigger] views(xs@)[j]) is Bool,
                    forall|j: int| 0 <= j < i ==> bits[j] == views(xs@)[j]->Bool_0,
                decreases xs.len() - i,
            {
                match &xs[i] {
                    Value::Bool(b) => {
                        bits.push(*b);
                    },
                    _ => {
                        assert(!(views(xs@)[i as int] is Bool));
                        return None;
                    },
                }
                i += 1;
            }
            assert(bits@ =~= Seq::new(xs.len() as nat, |j: int| views(xs@)[j]->Bool_0));
            Some(bits)
        },
        _ => None,
    }
}

fn same_bits(a: &Vec<bool>, b: &Vec<bool>) -> (r: bool)
    ensures
        r == (a@ == b@),
{
    if a.len() != b.len() {
        return false;
    }
    let mut i: usize = 0;
    while i < a.len()
        invariant
            i <= a.len(),
            a.len() == b.len(),
            forall|j: int| 0 <= j < i ==> a[j] == b[j],
        decreases a.len() - i,
    {
        if a[i] != b[i] {
            return false;
        }
        i += 1;
    }
    assert(a@ =~= b@);
    true
}

fn same_bytes(a: &Vec<u8>, b: &Vec<u8>) -> (r: bool)
    ensures
        r == (a@ == b@),
{
    if a.len() != b.len() {
        return false;
    }
    let mut i: usize = 0;
    while i < a.len()
        invariant
            i <= a.len(),
            a.len() == b.len(),
            forall|j: int| 0 <= j < i ==> a[j] == b[j],
        decreases a.len() - i,
    {
        if a[i] != b[i] {
            return false;
        }
        i += 1;
    }
    assert(a@ =~= b@);
    true
}

impl Literal {
    /// Whether two literals have the same type and hold the same.
    pub fn same(&self, other: &Literal) -> (b: bool)
        ensures
            b == (self@ == other@),
    {
        match (self, other) {
            (Literal::Nat(x), Literal::Nat(y)) => x.same(y),
            (Literal::Int(x), Literal::Int(y)) => x.same(y),
            (Literal::Bits(x), Literal::Bits(y)) => same_bits(x, y),
            (Literal::Bytes(x), Literal::Bytes(y)) => same_bytes(x, y),
            (Literal::Text(x), Literal::Text(y)) => same_text(x.as_str(), y.as_str()),
            (Literal::Char(x), Literal::Char(y)) => *x == *y,
            (Literal::Bool(x), Literal::Bool(y)) => *x == *y,
            (Literal::U8(x), Literal::U8(y)) => *x == *y,
            (Literal::U16(x), Literal::U16(y)) => *x == *y,
            (Literal::U32(x), Literal::U32(y)) => *x == *y,
            (Literal::U64(x), Literal::U64(y)) => *x == *y,
            (Literal::U128(x), Literal::U128(y)) => *x == *y,
            (Literal::I8(x), Literal::I8(y)) => *x == *y,
            (Literal::I16(x), Literal::I16(y)) => *x == *y,
            (Literal::I32(x), Literal::I32(y)) => *x == *y,
            (Literal::I64(x), Literal::I64(y)) => *x == *y,
            (Literal::I128(x), Literal::I128(y)) => *x == *y,
            _ => false,
        }
    }

    /// The type of the literal.
    pub fn type_of(&self) -> (t: PrimType)
        ensures
            t == self@.type_of(),
    {
        match self {
            Literal::Nat(_) => PrimType::Nat,
            Literal::Int(_) => PrimType::Int,
            Literal::Bits(_) => PrimType::Bits,
            Literal::Bytes(_) => PrimType::Bytes,
            Literal::Text(_) => PrimType::Text,
            Literal::Char(_) => PrimType::Char,
            Literal::Bool(_) => PrimType::Bool,
            Literal::U8(_) => PrimType::U8,
            Literal::U16(_) => PrimType::U16,
            Literal::U32(_) => PrimType::U32,
            Literal::U64(_) => PrimType::U64,
            Literal::U128(_) => PrimType::U128,
            Literal::I8(_) => PrimType::I8,
            Literal::I16(_) => PrimType::I16,
            Literal::I32(_) => PrimType::I32,
            Literal::I64(_) => PrimType::I64,
            Literal::I128(_) => PrimType::I128,
        }
    }

    fn payload(&self) -> (v: Value)
        ensures
            v@ == self@.payload(),
    {
        match self {
            Literal::Nat(n) => n.to_ipld(),
            Literal::Int(i) => i.to_ipld(),
            Literal::Bits(b) => bits_to_ipld(b),
            Literal::Bytes(b) => Value::Bytes(copy_bytes(b)),
            Literal::Text(s) => Value::String(s.clone()),
            Literal::Char(c) => Value::Integer(*c as u32 as i128),
            Literal::Bool(b) => Value::Bool(*b),
            Literal::U8(x) => Value::Integer(*x as i128),
            Literal::U16(x) => Value::Integer(*x as i128),
            Literal::U32(x) => Value::Integer(*x as i128),
            Literal::U64(x) => Value::Integer(*x as i128),
            Literal::U128(x) => BigNat::from_u128(*x).to_ipld(),
            Literal::I8(x) => Value::Integer(*x as i128),
            Literal::I16(x) => Value::Integer(*x as i128),
            Literal::I32(x) => Value::Integer(*x as i128),
            Literal::I64(x) => Value::Integer(*x as i128),
            Literal::I128(x) => BigInt::from_i128(*x).to_ipld(),
        }
    }

    fn of_payload(t: PrimType, p: &Value) -> (r: Option<Literal>)
        ensures
            option_view(r) == LiteralView::of_payload(t, p@),
    {
        match t {
            PrimType::Nat => match BigNat::from_ipld(p) {
                Some(n) => Some(Literal::Nat(n)),
                None => None,
            },
            PrimType::Int => match BigInt::from_ipld(p) {
                Some(i) => Some(Literal::Int(i)),
                None => None,
            },
            PrimType::Bits => match bits_from_ipld(p) {
                Some(b) => Some(Literal::Bits(b)),
                None => None,
            },
            PrimType::Bytes => match p {
                Value::Bytes(b) => Some(Literal::Bytes(copy_bytes(b))),
                _ => None,
            },
            PrimType::Text => match p {
                Value::String(s) => Some(Literal::Text(s.clone())),
                _ => None,
            },
            PrimType::Char => match small_nat(p, 0x10_ffff) {
                Some(n) => match char_of(n as u32) {
                    Some(c) => Some(Literal::Char(c)),
                    None => None,
                },
                None => None,
            },
            PrimType::Bool => match p {
                Value::Bool(b) => Some(Literal::Bool(*b)),
                _ => None,
            },
            PrimType::U8 => match small_nat(p, u8::MAX as u128) {
                Some(n) => Some(Literal::U8(n as u8)),
                None => None,
            },
            PrimType::U16 => match small_nat(p, u16::MAX as u128) {
                Some(n) => Some(Literal::U16(n as u16)),
                None => None,
            },
            PrimType::U32 => match small_nat(p, u32::MAX as u128) {
                Some(n) => Some(Literal::U32(n as u32)),
                None => None,
            },
            PrimType::U64 => match small_nat(p, u64::MAX as u128) {
                Some(n) => Some(Literal::U64(n as u64)),
                None => None,
            },
            PrimType::U128 => match small_nat(p, u128::MAX) {
                Some(n) => Some(Literal::U128(n)),
                None => None,
            },
            PrimType::I8 => match small_int(p, i8::MIN as i128, i8::MAX as i128) {
                Some(i) => Some(Literal::I8(i as i8)),
                None => None,
            },
            PrimType::I16 => match small_int(p, i16::MIN as i128, i16::MAX as i128) {
                Some(i) => Some(Literal::I16(i as i16)),
                None => None,
            },
            PrimType::I32 => match small_int(p, i32::MIN as i128, i32::MAX as i128) {
                Some(i) => Some(Literal::I32(i as i32)),
                None => None,
            },
            PrimType::I64 => match small_int(p, i64::MIN as i128, i64::MAX as i128) {
                Some(i) => Some(Literal::I64(i as i64)),
                None => None,
            },
            PrimType::I128 => match small_int(p, i128::MIN, i128::MAX) {
                Some(i) => Some(Literal::I128(i)),
                None => None,
            },
        }
    }

    /// The canonical form of the literal.
    pub fn to_ipld(&self) -> (v: Value)
        ensures
            v@ == self@.to_ipld(),
    {
        let mut items: Vec<Value> = Vec::new();
        items.push(Value::String(text("#Lit")));
        items.push(Value::String(self.type_of().name()));
        items.push(self.payload());
        let v = Value::list(items);
        assert(v@->List_0 =~= self@.to_ipld()->List_0);
        v
    }

    /// The literal that a value is the canonical form of.
    pub fn from_ipld(ipld: &Value) -> (r: Result<Literal, IpldError>)
        ensures
            decoded(r) == LiteralView::from_ipld(ipld@),
    {
        match ipld {
            Value::List(xs) => {
                proof {
                    lemma_list_view(*ipld);
                }
                if xs.len() != 3 {
                    return Err(IpldError::InvalidShape(ipld.clone()));
                }
                match (&xs[0], &xs[1]) {
                    (Value::String(head), Value::String(name)) => {
                        if !same_text(head.as_str(), "#Lit") {
                            return Err(IpldError::InvalidShape(ipld.clone()));
                        }
                        match PrimType::from_name(name.as_str()) {
                            Some(t) => match Literal::of_payload(t, &xs[2]) {
                                Some(l) => Ok(l),
                                None => Err(IpldError::InvalidShape(ipld.clone())),
                            },
                            None => Err(IpldError::UnknownTag(ipld.clone())),
                        }
                    },
                    _ => Err(IpldError::InvalidShape(ipld.clone())),
                }
            },
            _ => Err(IpldError::InvalidShape(ipld.clone())),
        }
    }
}

} // verus!
