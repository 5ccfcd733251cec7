//! Primitive operations: first-order functions on literals, family by
//! family.

use vstd::prelude::*;
use crate::bytes::{same_text, text};
use crate::error::{IpldError, IpldErrorView};
use crate::ipld::{lemma_list_view, Value, ValueView};
use crate::literal::{option_view, Literal, LiteralView};
use crate::prim::u16::{lemma_ipld_roundtrip, U16Op};
use crate::term::{Term, TermView};

pub mod bits;
pub mod power;
pub mod u16;

verus! {

/// An operation of one of the families.
#[derive(Clone, Copy, Debug, PartialEq, Eq, Structural)]
pub enum PrimOp {
    U16(U16Op),
}

impl PrimOp {
    /// The name of the family of the operation.
    pub open spec fn spec_family(self) -> Seq<char> {
        match self {
            PrimOp::U16(_) => "U16"@,
        }
    }

    /// The name of the operation in source text.
    pub open spec fn spec_symbol(self) -> Seq<char> {
        match self {
            PrimOp::U16(op) => op.spec_symbol(),
        }
    }

    /// How many arguments the operation takes.
    pub open spec fn spec_arity(self) -> u64 {
        match self {
            PrimOp::U16(op) => op.spec_arity(),
        }
    }

    /// The type of the operation, a closed term.
    pub open spec fn spec_type_of(self) -> TermView {
        match self {
            PrimOp::U16(op) => op.spec_type_of(),
        }
    }

    /// What the operation is without an argument, where it takes none.
    pub open spec fn spec_apply0(self) -> Option<LiteralView> {
        match self {
            PrimOp::U16(op) => op.spec_apply0(),
        }
    }

    /// What the operation makes of one argument.
    pub open spec fn spec_apply1(self, x: LiteralView) -> Option<LiteralView> {
        match self {
            PrimOp::U16(op) => op.spec_apply1(x),
        }
    }

    /// What the operation makes of two arguments.
    pub open spec fn spec_apply2(self, x: LiteralView, y: LiteralView) -> Option<LiteralView> {
        match self {
            PrimOp::U16(op) => op.spec_apply2(x, y),
        }
    }

    /// The canonical form of the operation: the mark of operations, the
    /// name of its family, and its number in the family.
    pub open spec fn spec_to_ipld(self) -> ValueView {
        ValueView::List(
            seq![
                ValueView::String("#Opr"@),
                ValueView::String(self.spec_family()),
                match self {
                    PrimOp::U16(op) => op.spec_to_ipld(),
                },
            ],
        )
    }

    /// The operation that a value is the canonical form of. A value that is
    /// no list of the mark, a string and one more has not the shape; a
    /// string that names no family is an unknown tag; the family says what
    /// is no number of an operation.
    pub open spec fn spec_from_ipld(v: ValueView) -> Result<PrimOp, IpldErrorView> {
        match v {
            ValueView::List(xs) => {
                if xs.len() == 3 && xs[0] == ValueView::String("#Opr"@) && xs[1] is String {
                    if xs[1]->String_0 == "U16"@ {
                        match U16Op::spec_from_ipld(xs[2]) {
                            Ok(op) => Ok(PrimOp::U16(op)),
                            Err(e) => Err(e),
                        }
                    } else {
                        Err(IpldErrorView::UnknownTag(v))
                    }
                } else {
                    Err(IpldErrorView::InvalidShape(v))
                }
            },
            _ => Err(IpldErrorView::InvalidShape(v)),
        }
    }

    /// The name of the operation in source text.
    pub fn symbol(self) -> (s: String)
        ensures
            s@ == self.spec_symbol(),
    {
        match self {
            PrimOp::U16(op) => op.symbol(),
        }
    }

    /// How many arguments the operation takes.
    #[verifier::when_used_as_spec(spec_arity)]
    pub fn arity(self) -> (n: u64)
        ensures
            n == self.spec_arity(),
    {
        match self {
            PrimOp::U16(op) => op.arity(),
        }
    }

    /// The type of the operation, a closed term.
    pub fn type_of(self) -> (t: Term)
        ensures
            t@ == self.spec_type_of(),
    {
        match self {
            PrimOp::U16(op) => op.type_of(),
        }
    }

    /// What the operation is without an argument, where it takes none.
    pub fn apply0(self) -> (r: Option<Literal>)
        ensures
            option_view(r) == self.spec_apply0(),
    {
        match self {
            PrimOp::U16(op) => op.apply0(),
        }
    }

    /// What the operation makes of `x`, where it takes one argument of that
    /// type and has a result on it.
    pub fn apply1(self, x: Literal) -> (r: Option<Literal>)
        ensures
            option_view(r) == self.spec_apply1(x@),
    {
        match self {
            PrimOp::U16(op) => op.apply1(x),
        }
    }

    /// What the operation makes of `x` and `y`, where it takes two arguments
    /// of those types and has a result on them.
    pub fn apply2(self, x: Literal, y: Literal) -> (r: Option<Literal>)
        ensures
            option_view(r) == self.spec_apply2(x@, y@),
    {
        match self {
            PrimOp::U16(op) => op.apply2(x, y),
        }
    }

    /// The canonical form of the operation.
    pub fn to_ipld(self) -> (v: Value)
        ensures
            v@ == self.spec_to_ipld(),
    {
        let mut items: Vec<Value> = Vec::new();
        items.push(Value::String(text("#Opr")));
        match self {
            PrimOp::U16(op) => {
                items.push(Value::String(text("U16")));
                items.push(op.to_ipld());
            },
        }
        let v = Value::list(items);
        assert(v@->List_0 =~= self.spec_to_ipld()->List_0);
        v
    }

    /// The operation that a value is the canonical form of.
    pub fn from_ipld(ipld: &Value) -> (r: Result<PrimOp, IpldError>)
        ensures
            match r {
                Ok(op) => Self::spec_from_ipld(ipld@) == Ok::<PrimOp, IpldErrorView>(op),
                Err(e) => Self::spec_from_ipld(ipld@) == Err::<PrimOp, IpldErrorView>(e@),
            },
    {
        match ipld {
            Value::List(xs) => {
                proof {
                    lemma_list_view(*ipld);
                }
                if xs.len() != 3 {
                    return Err(IpldError::InvalidShape(ipld.clone()));
                }
                match (&xs[0], &xs[1]) {
                    (Value::String(head), Value::String(family)) => {
                        if !same_text(head.as_str(), "#Opr") {
                            return Err(IpldError::InvalidShape(ipld.clone()));
                        }
                        if same_text(family.as_str(), "U16") {
                            match U16Op::from_ipld(&xs[2]) {
                                Ok(op) => Ok(PrimOp::U16(op)),
                                Err(e) => Err(e),
                            }
                        } else {
                            Err(IpldError::UnknownTag(ipld.clone()))
                        }
                    },
                    _ => Err(IpldError::InvalidShape(ipld.clone())),
                }
            },
            _ => Err(IpldError::InvalidShape(ipld.clone())),
        }
    }
}

/// Decoding the canonical form of an operation gives the operation back.
pub proof fn lemma_op_roundtrip(op: PrimOp)
    ensures
        PrimOp::spec_from_ipld(op.spec_to_ipld()) == Ok::<PrimOp, IpldErrorView>(op),
{
    match op {
        PrimOp::U16(o) => lemma_ipld_roundtrip(o),
    }
}

} // verus!
