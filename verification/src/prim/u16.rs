//! The operations on 16-bit unsigned integers.

use vstd::prelude::*;
use vstd::arithmetic::power::pow;
use crate::bytes::{fingerprint, same_text, text};
use crate::error::{IpldError, IpldErrorView};
use crate::ipld::{Value, ValueView};
use crate::bignum::{BigInt, BigNat};
use crate::literal::{option_view, Literal, LiteralView, PrimType};
use crate::position::Pos;
use crate::prim::bits::{bits_be, bytes_be, count_ones, ones, to_bits_be, to_bytes_be};
use crate::prim::power::wrapping_pow_u16;
use crate::term::{Term, TermView};
use crate::uses::Uses;

verus! {

/// An operation on 16-bit unsigned integers.
#[derive(Clone, Copy, Debug, PartialEq, Eq, Structural)]
pub enum U16Op {
    Max,
    Min,
    Eql,
    Lte,
    Lth,
    Gth,
    Gte,
    Not,
    And,
    Or,
    Xor,
    Add,
    Sub,
    Mul,
    Div,
    Mod,
    Pow,
    Shl,
    Shr,
    Rol,
    Ror,
    CountZeros,
    CountOnes,
    ToU8,
    ToU32,
    ToU64,
    ToU128,
    ToNat,
    ToI8,
    ToI16,
    ToI32,
    ToI64,
    ToI128,
    ToInt,
    ToBits,
    ToBytes,
}

/// The width of the integers, in bits.
pub open spec fn width() -> int {
    16
}

/// The number of 16-bit unsigned integers.
pub open spec fn range() -> int {
    0x1_0000
}

/// `x` with its bits turned left by `n` places, the bits that leave at the
/// top coming back at the bottom.
pub open spec fn rotate_left(x: u16, n: u32) -> u16 {
    let k = n % 16;
    if k == 0 {
        x
    } else {
        (x << k) | (x >> ((16 - k) as u32))
    }
}

/// `x` with its bits turned right by `n` places.
pub open spec fn rotate_right(x: u16, n: u32) -> u16 {
    let k = n % 16;
    if k == 0 {
        x
    } else {
        (x >> k) | (x << ((16 - k) as u32))
    }
}

/// The type of a function from literals of the type `dom` to `img`.
pub open spec fn arrow(dom: PrimType, img: TermView) -> TermView {
    TermView::All(
        None,
        Uses::Many,
        Seq::empty(),
        Box::new(TermView::LTy(None, dom)),
        Box::new(img),
    )
}

fn make_arrow(dom: PrimType, img: Term) -> (t: Term)
    ensures
        t@ == arrow(dom, img@),
{
    proof {
        reveal_with_fuel(<Term as View>::view, 2);
    }
    Term::All(
        Pos(None),
        Uses::Many,
        String::new(),
        Box::new(Term::LTy(Pos(None), dom)),
        Box::new(img),
    )
}

fn make_type(t: PrimType) -> (r: Term)
    ensures
        r@ == TermView::LTy(None, t),
{
    Term::LTy(Pos(None), t)
}

fn turn_left(x: u16, n: u32) -> (r: u16)
    ensures
        r == rotate_left(x, n),
{
    let k: u32 = n % 16;
    if k == 0 {
        x
    } else {
        (x << k) | (x >> (16 - k))
    }
}

fn turn_right(x: u16, n: u32) -> (r: u16)
    ensures
        r == rotate_right(x, n),
{
    let k: u32 = n % 16;
    if k == 0 {
        x
    } else {
        (x >> k) | (x << (16 - k))
    }
}

impl U16Op {
    /// The name of the operation in source text.
    pub open spec fn spec_symbol(self) -> Seq<char> {
        match self {
            U16Op::Max => "max"@,
            U16Op::Min => "min"@,
            U16Op::Eql => "eql"@,
            U16Op::Lte => "lte"@,
            U16Op::Lth => "lth"@,
            U16Op::Gth => "gth"@,
            U16Op::Gte => "gte"@,
            U16Op::Not => "not"@,
            U16Op::And => "and"@,
            U16Op::Or => "or"@,
            U16Op::Xor => "xor"@,
            U16Op::Add => "add"@,
            U16Op::Sub => "sub"@,
            U16Op::Mul => "mul"@,
            U16Op::Div => "div"@,
            U16Op::Mod => "mod"@,
            U16Op::Pow => "pow"@,
            U16Op::Shl => "shl"@,
            U16Op::Shr => "shr"@,
            U16Op::Rol => "rol"@,
            U16Op::Ror => "ror"@,
            U16Op::CountZeros => "count_zeros"@,
            U16Op::CountOnes => "count_ones"@,
            U16Op::ToU8 => "to_U8"@,
            U16Op::ToU32 => "to_U32"@,
            U16Op::ToU64 => "to_U64"@,
            U16Op::ToU128 => "to_U128"@,
            U16Op::ToNat => "to_Nat"@,
            U16Op::ToI8 => "to_I8"@,
            U16Op::ToI16 => "to_I16"@,
            U16Op::ToI32 => "to_I32"@,
            U16Op::ToI64 => "to_I64"@,
            U16Op::ToI128 => "to_I128"@,
            U16Op::ToInt => "to_Int"@,
            U16Op::ToBits => "to_Bits"@,
            U16Op::ToBytes => "to_Bytes"@,
        }
    }

    /// The operation that a name stands for.
    pub open spec fn spec_from_symbol(x: Seq<char>) -> Option<U16Op> {
        if x == "max"@ {
            Some(U16Op::Max)
        } else if x == "min"@ {
            Some(U16Op::Min)
        } else if x == "eql"@ {
            Some(U16Op::Eql)
        } else if x == "lte"@ {
            Some(U16Op::Lte)
        } else if x == "lth"@ {
            Some(U16Op::Lth)
        } else if x == "gth"@ {
            Some(U16Op::Gth)
        } else if x == "gte"@ {
            Some(U16Op::Gte)
        } else if x == "not"@ {
            Some(U16Op::Not)
        } else if x == "and"@ {
            Some(U16Op::And)
        } else if x == "or"@ {
            Some(U16Op::Or)
        } else if x == "xor"@ {
            Some(U16Op::Xor)
        } else if x == "add"@ {
            Some(U16Op::Add)
        } else if x == "sub"@ {
            Some(U16Op::Sub)
        } else if x == "mul"@ {
            Some(U16Op::Mul)
        } else if x == "div"@ {
            Some(U16Op::Div)
        } else if x == "mod"@ {
            Some(U16Op::Mod)
        } else if x == "pow"@ {
            Some(U16Op::Pow)
        } else if x == "shl"@ {
            Some(U16Op::Shl)
        } else if x == "shr"@ {
            Some(U16Op::Shr)
        } else if x == "rol"@ {
            Some(U16Op::Rol)
        } else if x == "ror"@ {
            Some(U16Op::Ror)
        } else if x == "count_zeros"@ {
            Some(U16Op::CountZeros)
        } else if x == "count_ones"@ {
            Some(U16Op::CountOnes)
        } else if x == "to_U8"@ {
            Some(U16Op::ToU8)
        } else if x == "to_U32"@ {
            Some(U16Op::ToU32)
        } else if x == "to_U64"@ {
            Some(U16Op::ToU64)
        } else if x == "to_U128"@ {
            Some(U16Op::ToU128)
        } else if x == "to_Nat"@ {
            Some(U16Op::ToNat)
        } else if x == "to_I8"@ {
            Some(U16Op::ToI8)
        } else if x == "to_I16"@ {
            Some(U16Op::ToI16)
        } else if x == "to_I32"@ {
            Some(U16Op::ToI32)
        } else if x == "to_I64"@ {
            Some(U16Op::ToI64)
        } else if x == "to_I128"@ {
            Some(U16Op::ToI128)
        } else if x == "to_Int"@ {
            Some(U16Op::ToInt)
        } else if x == "to_Bytes"@ {
            Some(U16Op::ToBytes)
        } else if x == "to_Bits"@ {
            Some(U16Op::ToBits)
        } else {
            None
        }
    }

    /// How many arguments the operation takes.
    pub open spec fn spec_arity(self) -> u64 {
        match self {
            U16Op::Max => 0,
            U16Op::Min => 0,
            U16Op::Eql => 2,
            U16Op::Lte => 2,
            U16Op::Lth => 2,
            U16Op::Gth => 2,
            U16Op::Gte => 2,
            U16Op::Not => 1,
            U16Op::And => 2,
            U16Op::Or => 2,
            U16Op::Xor => 2,
            U16Op::Add => 2,
            U16Op::Sub => 2,
            U16Op::Mul => 2,
            U16Op::Div => 2,
            U16Op::Mod => 2,
            U16Op::Pow => 2,
            U16Op::Shl => 2,
            U16Op::Shr => 2,
            U16Op::Rol => 2,
            U16Op::Ror => 2,
            U16Op::CountZeros => 1,
            U16Op::CountOnes => 1,
            U16Op::ToU8 => 1,
            U16Op::ToU32 => 1,
            U16Op::ToU64 => 1,
            U16Op::ToU128 => 1,
            U16Op::ToNat => 1,
            U16Op::ToI8 => 1,
            U16Op::ToI16 => 1,
            U16Op::ToI32 => 1,
            U16Op::ToI64 => 1,
            U16Op::ToI128 => 1,
            U16Op::ToInt => 1,
            U16Op::ToBits => 1,
            U16Op::ToBytes => 1,
        }
    }

    /// The number that stands for the operation in a block.
    pub open spec fn tag(self) -> int {
        match self {
            U16Op::Max => 0,
            U16Op::Min => 1,
            U16Op::Eql => 2,
            U16Op::Lte => 3,
            U16Op::Lth => 4,
            U16Op::Gth => 5,
            U16Op::Gte => 6,
            U16Op::Not => 7,
            U16Op::And => 8,
            U16Op::Or => 9,
            U16Op::Xor => 10,
            U16Op::Add => 11,
            U16Op::Sub => 12,
            U16Op::Mul => 13,
            U16Op::Div => 14,
            U16Op::Mod => 15,
            U16Op::Pow => 16,
            U16Op::Shl => 17,
            U16Op::Shr => 18,
            U16Op::Rol => 19,
            U16Op::Ror => 20,
            U16Op::CountZeros => 21,
            U16Op::CountOnes => 22,
            U16Op::ToU8 => 23,
            U16Op::ToU32 => 24,
            U16Op::ToU64 => 25,
            U16Op::ToU128 => 26,
            U16Op::ToNat => 27,
            U16Op::ToI8 => 28,
            U16Op::ToI16 => 29,
            U16Op::ToI32 => 30,
            U16Op::ToI64 => 31,
            U16Op::ToI128 => 32,
            U16Op::ToInt => 33,
            U16Op::ToBits => 34,
            U16Op::ToBytes => 35,
        }
    }

    /// The operation that a number stands for in a block.
    pub open spec fn of_tag(i: int) -> Option<U16Op> {
        if i == 0 {
            Some(U16Op::Max)
        } else if i == 1 {
            Some(U16Op::Min)
        } else if i == 2 {
            Some(U16Op::Eql)
        } else if i == 3 {
            Some(U16Op::Lte)
        } else if i == 4 {
            Some(U16Op::Lth)
        } else if i == 5 {
            Some(U16Op::Gth)
        } else if i == 6 {
            Some(U16Op::Gte)
        } else if i == 7 {
            Some(U16Op::Not)
        } else if i == 8 {
            Some(U16Op::And)
        } else if i == 9 {
            Some(U16Op::Or)
        } else if i == 10 {
            Some(U16Op::Xor)
        } else if i == 11 {
            Some(U16Op::Add)
        } else if i == 12 {
            Some(U16Op::Sub)
        } else if i == 13 {
            Some(U16Op::Mul)
        } else if i == 14 {
            Some(U16Op::Div)
        } else if i == 15 {
            Some(U16Op::Mod)
        } else if i == 16 {
            Some(U16Op::Pow)
        } else if i == 17 {
            Some(U16Op::Shl)
        } else if i == 18 {
            Some(U16Op::Shr)
        } else if i == 19 {
            Some(U16Op::Rol)
        } else if i == 20 {
            Some(U16Op::Ror)
        } else if i == 21 {
            Some(U16Op::CountZeros)
        } else if i == 22 {
            Some(U16Op::CountOnes)
        } else if i == 23 {
            Some(U16Op::ToU8)
        } else if i == 24 {
            Some(U16Op::ToU32)
        } else if i == 25 {
            Some(U16Op::ToU64)
        } else if i == 26 {
            Some(U16Op::ToU128)
        } else if i == 27 {
            Some(U16Op::ToNat)
        } else if i == 28 {
            Some(U16Op::ToI8)
        } else if i == 29 {
            Some(U16Op::ToI16)
        } else if i == 30 {
            Some(U16Op::ToI32)
        } else if i == 31 {
            Some(U16Op::ToI64)
        } else if i == 32 {
            Some(U16Op::ToI128)
        } else if i == 33 {
            Some(U16Op::ToInt)
        } else if i == 34 {
            Some(U16Op::ToBits)
        } else if i == 35 {
            Some(U16Op::ToBytes)
        } else {
            None
        }
    }

    /// The canonical form of the operation.
    pub open spec fn spec_to_ipld(self) -> ValueView {
        ValueView::Integer(self.tag())
    }

    /// The operation that a value is the canonical form of.
    pub open spec fn spec_from_ipld(v: ValueView) -> Result<U16Op, IpldErrorView> {
        match v {
            ValueView::Integer(i) => match Self::of_tag(i) {
                Some(op) => Ok(op),
                None => Err(IpldErrorView::NatOp(v)),
            },
            _ => Err(IpldErrorView::NatOp(v)),
        }
    }

    /// The type of the operation, a closed term.
    pub open spec fn spec_type_of(self) -> TermView {
        match self {
            U16Op::Max => TermView::LTy(None, PrimType::U16),
            U16Op::Min => TermView::LTy(None, PrimType::U16),
            U16Op::Eql => arrow(
                PrimType::U16,
                arrow(PrimType::U16, TermView::LTy(None, PrimType::Bool)),
            ),
            U16Op::Lte => arrow(
                PrimType::U16,
                arrow(PrimType::U16, TermView::LTy(None, PrimType::Bool)),
            ),
            U16Op::Lth => arrow(
                PrimType::U16,
                arrow(PrimType::U16, TermView::LTy(None, PrimType::Bool)),
            ),
            U16Op::Gth => arrow(
                PrimType::U16,
                arrow(PrimType::U16, TermView::LTy(None, PrimType::Bool)),
            ),
            U16Op::Gte => arrow(
                PrimType::U16,
                arrow(PrimType::U16, TermView::LTy(None, PrimType::Bool)),
            ),
            U16Op::Not => arrow(PrimType::U16, TermView::LTy(None, PrimType::U16)),
            U16Op::And => arrow(
                PrimType::U16,
                arrow(PrimType::U16, TermView::LTy(None, PrimType::U16)),
            ),
            U16Op::Or => arrow(
                PrimType::U16,
                arrow(PrimType::U16, TermView::LTy(None, PrimType::U16)),
            ),
            U16Op::Xor => arrow(
                PrimType::U16,
                arrow(PrimType::U16, TermView::LTy(None, PrimType::U16)),
            ),
            U16Op::Add => arrow(
                PrimType::U16,
                arrow(PrimType::U16, TermView::LTy(None, PrimType::U16)),
            ),
            U16Op::Sub => arrow(
                PrimType::U16,
                arrow(PrimType::U16, TermView::LTy(None, PrimType::U16)),
            ),
            U16Op::Mul => arrow(
                PrimType::U16,
                arrow(PrimType::U16, TermView::LTy(None, PrimType::U16)),
            ),
            U16Op::Div => arrow(
                PrimType::U16,
                arrow(PrimType::U16, TermView::LTy(None, PrimType::U16)),
            ),
            U16Op::Mod => arrow(
                PrimType::U16,
                arrow(PrimType::U16, TermView::LTy(None, PrimType::U16)),
            ),
            U16Op::Pow => arrow(
                PrimType::U16,
                arrow(PrimType::U32, TermView::LTy(None, PrimType::U16)),
            ),
            U16Op::Shl => arrow(
                PrimType::U32,
                arrow(PrimType::U16, TermView::LTy(None, PrimType::U16)),
            ),
            U16Op::Shr => arrow(
                PrimType::U32,
                arrow(PrimType::U16, TermView::LTy(None, PrimType::U16)),
            ),
            U16Op::Rol => arrow(
                PrimType::U32,
                arrow(PrimType::U16, TermView::LTy(None, PrimType::U16)),
            ),
            U16Op::Ror => arrow(
                PrimType::U32,
                arrow(PrimType::U16, TermView::LTy(None, PrimType::U16)),
            ),
            U16Op::CountZeros => arrow(PrimType::U16, TermView::LTy(None, PrimType::U32)),
            U16Op::CountOnes => arrow(PrimType::U16, TermView::LTy(None, PrimType::U32)),
            U16Op::ToU8 => arrow(PrimType::U16, TermView::LTy(None, PrimType::U8)),
            U16Op::ToU32 => arrow(PrimType::U16, TermView::LTy(None, PrimType::U32)),
            U16Op::ToU64 => arrow(PrimType::U16, TermView::LTy(None, PrimType::U64)),
            U16Op::ToU128 => arrow(PrimType::U16, TermView::LTy(None, PrimType::U128)),
            U16Op::ToNat => arrow(PrimType::U16, TermView::LTy(None, PrimType::Nat)),
            U16Op::ToI8 => arrow(PrimType::U16, TermView::LTy(None, PrimType::I8)),
            U16Op::ToI16 => arrow(PrimType::U16, TermView::LTy(None, PrimType::I16)),
            U16Op::ToI32 => arrow(PrimType::U16, TermView::LTy(None, PrimType::I32)),
            U16Op::ToI64 => arrow(PrimType::U16, TermView::LTy(None, PrimType::I64)),
            U16Op::ToI128 => arrow(PrimType::U16, TermView::LTy(None, PrimType::I128)),
            U16Op::ToInt => arrow(PrimType::U16, TermView::LTy(None, PrimType::Int)),
            U16Op::ToBits => arrow(PrimType::U16, TermView::LTy(None, PrimType::Bits)),
            U16Op::ToBytes => arrow(PrimType::U16, TermView::LTy(None, PrimType::Bytes)),
        }
    }

    /// What the operation is without an argument, where it takes none.
    pub open spec fn spec_apply0(self) -> Option<LiteralView> {
        match self {
            U16Op::Max => Some(LiteralView::U16(0xffff)),
            U16Op::Min => Some(LiteralView::U16(0)),
            _ => None,
        }
    }

    /// What the operation makes of one argument, where it takes one of that
    /// type and has a result on it.
    pub open spec fn spec_apply1(self, x: LiteralView) -> Option<LiteralView> {
        match (self, x) {
            (U16Op::CountZeros, LiteralView::U16(x)) => Some(
                LiteralView::U32((16 - count_ones(x as nat)) as u32),
            ),
            (U16Op::CountOnes, LiteralView::U16(x)) => Some(
                LiteralView::U32(count_ones(x as nat) as u32),
            ),
            (U16Op::ToU8, LiteralView::U16(x)) => if x <= 0xff {
                Some(LiteralView::U8(x as u8))
            } else {
                None
            },
            (U16Op::ToU32, LiteralView::U16(x)) => Some(LiteralView::U32(x as u32)),
            (U16Op::ToU64, LiteralView::U16(x)) => Some(LiteralView::U64(x as u64)),
            (U16Op::ToU128, LiteralView::U16(x)) => Some(LiteralView::U128(x as u128)),
            (U16Op::ToNat, LiteralView::U16(x)) => Some(LiteralView::Nat(x as nat)),
            (U16Op::ToI8, LiteralView::U16(x)) => if x <= 0x7f {
                Some(LiteralView::I8(x as i8))
            } else {
                None
            },
            (U16Op::ToI16, LiteralView::U16(x)) => if x <= 0x7fff {
                Some(LiteralView::I16(x as i16))
            } else {
                None
            },
            (U16Op::ToI32, LiteralView::U16(x)) => Some(LiteralView::I32(x as i32)),
            (U16Op::ToI64, LiteralView::U16(x)) => Some(LiteralView::I64(x as i64)),
            (U16Op::ToI128, LiteralView::U16(x)) => Some(LiteralView::I128(x as i128)),
            (U16Op::Not, LiteralView::U16(x)) => Some(LiteralView::U16((0xffff - x) as u16)),
            (U16Op::ToInt, LiteralView::U16(x)) => Some(LiteralView::Int(x as int)),
            (U16Op::ToBytes, LiteralView::U16(x)) => Some(
                LiteralView::Bytes(bytes_be(x as nat, 2)),
            ),
            (U16Op::ToBits, LiteralView::U16(x)) => Some(LiteralView::Bits(bits_be(x as nat, 16))),
            _ => None,
        }
    }

    /// What the operation makes of two arguments, where it takes two of those
    /// types and has a result on them. Sums, differences, products and powers
    /// wrap; a quotient or remainder by zero is no result.
    pub open spec fn spec_apply2(self, x: LiteralView, y: LiteralView) -> Option<LiteralView> {
        match (self, x, y) {
            (U16Op::Eql, LiteralView::U16(x), LiteralView::U16(y)) => Some(
                LiteralView::Bool(x == y),
            ),
            (U16Op::Lte, LiteralView::U16(x), LiteralView::U16(y)) => Some(
                LiteralView::Bool(x <= y),
            ),
            (U16Op::Lth, LiteralView::U16(x), LiteralView::U16(y)) => Some(
                LiteralView::Bool(x < y),
            ),
            (U16Op::Gth, LiteralView::U16(x), LiteralView::U16(y)) => Some(
                LiteralView::Bool(x > y),
            ),
            (U16Op::Gte, LiteralView::U16(x), LiteralView::U16(y)) => Some(
                LiteralView::Bool(x >= y),
            ),
            (U16Op::And, LiteralView::U16(x), LiteralView::U16(y)) => Some(LiteralView::U16(x & y)),
            (U16Op::Or, LiteralView::U16(x), LiteralView::U16(y)) => Some(LiteralView::U16(x | y)),
            (U16Op::Xor, LiteralView::U16(x), LiteralView::U16(y)) => Some(LiteralView::U16(x ^ y)),
            (U16Op::Add, LiteralView::U16(x), LiteralView::U16(y)) => Some(
                LiteralView::U16(((x + y) % range()) as u16),
            ),
            (U16Op::Sub, LiteralView::U16(x), LiteralView::U16(y)) => Some(
                LiteralView::U16(((x - y) % range()) as u16),
            ),
            (U16Op::Mul, LiteralView::U16(x), LiteralView::U16(y)) => Some(
                LiteralView::U16(((x * y) % range()) as u16),
            ),
            (U16Op::Div, LiteralView::U16(x), LiteralView::U16(y)) => if y == 0 {
                None
            } else {
                Some(LiteralView::U16(x / y))
            },
            (U16Op::Mod, LiteralView::U16(x), LiteralView::U16(y)) => if y == 0 {
                None
            } else {
                Some(LiteralView::U16(x % y))
            },
            (U16Op::Pow, LiteralView::U16(x), LiteralView::U32(y)) => Some(
                LiteralView::U16((pow(x as int, y as nat) % range()) as u16),
            ),
            (U16Op::Shl, LiteralView::U32(x), LiteralView::U16(y)) => Some(
                LiteralView::U16(y << (x % 16)),
            ),
            (U16Op::Shr, LiteralView::U32(x), LiteralView::U16(y)) => Some(
                LiteralView::U16(y >> (x % 16)),
            ),
            (U16Op::Rol, LiteralView::U32(x), LiteralView::U16(y)) => Some(
                LiteralView::U16(rotate_left(y, x)),
            ),
            (U16Op::Ror, LiteralView::U32(x), LiteralView::U16(y)) => Some(
                LiteralView::U16(rotate_right(y, x)),
            ),
            _ => None,
        }
    }

    /// The name of the operation in source text.
    pub fn symbol(self) -> (s: String)
        ensures
            s@ == self.spec_symbol(),
    {
        match self {
            U16Op::Max => text("max"),
            U16Op::Min => text("min"),
            U16Op::Eql => text("eql"),
            U16Op::Lte => text("lte"),
            U16Op::Lth => text("lth"),
            U16Op::Gth => text("gth"),
            U16Op::Gte => text("gte"),
            U16Op::Not => text("not"),
            U16Op::And => text("and"),
            U16Op::Or => text("or"),
            U16Op::Xor => text("xor"),
            U16Op::Add => text("add"),
            U16Op::Sub => text("sub"),
            U16Op::Mul => text("mul"),
            U16Op::Div => text("div"),
            U16Op::Mod => text("mod"),
            U16Op::Pow => text("pow"),
            U16Op::Shl => text("shl"),
            U16Op::Shr => text("shr"),
            U16Op::Rol => text("rol"),
            U16Op::Ror => text("ror"),
            U16Op::CountZeros => text("count_zeros"),
            U16Op::CountOnes => text("count_ones"),
            U16Op::ToU8 => text("to_U8"),
            U16Op::ToU32 => text("to_U32"),
            U16Op::ToU64 => text("to_U64"),
            U16Op::ToU128 => text("to_U128"),
            U16Op::ToNat => text("to_Nat"),
            U16Op::ToI8 => text("to_I8"),
            U16Op::ToI16 => text("to_I16"),
            U16Op::ToI32 => text("to_I32"),
            U16Op::ToI64 => text("to_I64"),
            U16Op::ToI128 => text("to_I128"),
            U16Op::ToInt => text("to_Int"),
            U16Op::ToBits => text("to_Bits"),
            U16Op::ToBytes => text("to_Bytes"),
        }
    }

    /// The operation that a name stands for, if it stands for one.
    pub fn from_symbol(x: &str) -> (r: Option<Self>)
        ensures
            r == Self::spec_from_symbol(x@),
    {
        if same_text(x, "max") {
            Some(U16Op::Max)
        } else if same_text(x, "min") {
            Some(U16Op::Min)
        } else if same_text(x, "eql") {
            Some(U16Op::Eql)
        } else if same_text(x, "lte") {
            Some(U16Op::Lte)
        } else if same_text(x, "lth") {
            Some(U16Op::Lth)
        } else if same_text(x, "gth") {
            Some(U16Op::Gth)
        } else if same_text(x, "gte") {
            Some(U16Op::Gte)
        } else if same_text(x, "not") {
            Some(U16Op::Not)
        } else if same_text(x, "and") {
            Some(U16Op::And)
        } else if same_text(x, "or") {
            Some(U16Op::Or)
        } else if same_text(x, "xor") {
            Some(U16Op::Xor)
        } else if same_text(x, "add") {
            Some(U16Op::Add)
        } else if same_text(x, "sub") {
            Some(U16Op::Sub)
        } else if same_text(x, "mul") {
            Some(U16Op::Mul)
        } else if same_text(x, "div") {
            Some(U16Op::Div)
        } else if same_text(x, "mod") {
            Some(U16Op::Mod)
        } else if same_text(x, "pow") {
            Some(U16Op::Pow)
        } else if same_text(x, "shl") {
            Some(U16Op::Shl)
        } else if same_text(x, "shr") {
            Some(U16Op::Shr)
        } else if same_text(x, "rol") {
            Some(U16Op::Rol)
        } else if same_text(x, "ror") {
            Some(U16Op::Ror)
        } else if same_text(x, "count_zeros") {
            Some(U16Op::CountZeros)
        } else if same_text(x, "count_ones") {
            Some(U16Op::CountOnes)
        } else if same_text(x, "to_U8") {
            Some(U16Op::ToU8)
        } else if same_text(x, "to_U32") {
            Some(U16Op::ToU32)
        } else if same_text(x, "to_U64") {
            Some(U16Op::ToU64)
        } else if same_text(x, "to_U128") {
            Some(U16Op::ToU128)
        } else if same_text(x, "to_Nat") {
            Some(U16Op::ToNat)
        } else if same_text(x, "to_I8") {
            Some(U16Op::ToI8)
        } else if same_text(x, "to_I16") {
            Some(U16Op::ToI16)
        } else if same_text(x, "to_I32") {
            Some(U16Op::ToI32)
        } else if same_text(x, "to_I64") {
            Some(U16Op::ToI64)
        } else if same_text(x, "to_I128") {
            Some(U16Op::ToI128)
        } else if same_text(x, "to_Int") {
            Some(U16Op::ToInt)
        } else if same_text(x, "to_Bytes") {
            Some(U16Op::ToBytes)
        } else if same_text(x, "to_Bits") {
            Some(U16Op::ToBits)
        } else {
            None
        }
    }

    /// The type of the operation, a closed term.
    pub fn type_of(self) -> (t: Term)
        ensures
            t@ == self.spec_type_of(),
    {
        match self {
            U16Op::Max => make_type(PrimType::U16),
            U16Op::Min => make_type(PrimType::U16),
            U16Op::Eql => make_arrow(
                PrimType::U16,
                make_arrow(PrimType::U16, make_type(PrimType::Bool)),
            ),
            U16Op::Lte => make_arrow(
                PrimType::U16,
                make_arrow(PrimType::U16, make_type(PrimType::Bool)),
            ),
            U16Op::Lth => make_arrow(
                PrimType::U16,
                make_arrow(PrimType::U16, make_type(PrimType::Bool)),
            ),
            U16Op::Gth => make_arrow(
                PrimType::U16,
                make_arrow(PrimType::U16, make_type(PrimType::Bool)),
            ),
            U16Op::Gte => make_arrow(
                PrimType::U16,
                make_arrow(PrimType::U16, make_type(PrimType::Bool)),
            ),
            U16Op::Not => make_arrow(PrimType::U16, make_type(PrimType::U16)),
            U16Op::And => make_arrow(
                PrimType::U16,
                make_arrow(PrimType::U16, make_type(PrimType::U16)),
            ),
            U16Op::Or => make_arrow(
                PrimType::U16,
                make_arrow(PrimType::U16, make_type(PrimType::U16)),
            ),
            U16Op::Xor => make_arrow(
                PrimType::U16,
                make_arrow(PrimType::U16, make_type(PrimType::U16)),
            ),
            U16Op::Add => make_arrow(
                PrimType::U16,
                make_arrow(PrimType::U16, make_type(PrimType::U16)),
            ),
            U16Op::Sub => make_arrow(
                PrimType::U16,
                make_arrow(PrimType::U16, make_type(PrimType::U16)),
            ),
            U16Op::Mul => make_arrow(
                PrimType::U16,
                make_arrow(PrimType::U16, make_type(PrimType::U16)),
            ),
            U16Op::Div => make_arrow(
                PrimType::U16,
                make_arrow(PrimType::U16, make_type(PrimType::U16)),
            ),
            U16Op::Mod => make_arrow(
                PrimType::U16,
                make_arrow(PrimType::U16, make_type(PrimType::U16)),
            ),
            U16Op::Pow => make_arrow(
                PrimType::U16,
                make_arrow(PrimType::U32, make_type(PrimType::U16)),
            ),
            U16Op::Shl => make_arrow(
                PrimType::U32,
                make_arrow(PrimType::U16, make_type(PrimType::U16)),
            ),
            U16Op::Shr => make_arrow(
                PrimType::U32,
                make_arrow(PrimType::U16, make_type(PrimType::U16)),
            ),
            U16Op::Rol => make_arrow(
                PrimType::U32,
                make_arrow(PrimType::U16, make_type(PrimType::U16)),
            ),
            U16Op::Ror => make_arrow(
                PrimType::U32,
                make_arrow(PrimType::U16, make_type(PrimType::U16)),
            ),
            U16Op::CountZeros => make_arrow(PrimType::U16, make_type(PrimType::U32)),
            U16Op::CountOnes => make_arrow(PrimType::U16, make_type(PrimType::U32)),
            U16Op::ToU8 => make_arrow(PrimType::U16, make_type(PrimType::U8)),
            U16Op::ToU32 => make_arrow(PrimType::U16, make_type(PrimType::U32)),
            U16Op::ToU64 => make_arrow(PrimType::U16, make_type(PrimType::U64)),
            U16Op::ToU128 => make_arrow(PrimType::U16, make_type(PrimType::U128)),
            U16Op::ToNat => make_arrow(PrimType::U16, make_type(PrimType::Nat)),
            U16Op::ToI8 => make_arrow(PrimType::U16, make_type(PrimType::I8)),
            U16Op::ToI16 => make_arrow(PrimType::U16, make_type(PrimType::I16)),
            U16Op::ToI32 => make_arrow(PrimType::U16, make_type(PrimType::I32)),
            U16Op::ToI64 => make_arrow(PrimType::U16, make_type(PrimType::I64)),
            U16Op::ToI128 => make_arrow(PrimType::U16, make_type(PrimType::I128)),
            U16Op::ToInt => make_arrow(PrimType::U16, make_type(PrimType::Int)),
            U16Op::ToBits => make_arrow(PrimType::U16, make_type(PrimType::Bits)),
            U16Op::ToBytes => make_arrow(PrimType::U16, make_type(PrimType::Bytes)),
        }
    }

    /// The canonical form of the operation: its number.
    pub fn to_ipld(self) -> (v: Value)
        ensures
            v@ == self.spec_to_ipld(),
    {
        match self {
            U16Op::Max => Value::Integer(0),
            U16Op::Min => Value::Integer(1),
            U16Op::Eql => Value::Integer(2),
            U16Op::Lte => Value::Integer(3),
            U16Op::Lth => Value::Integer(4),
            U16Op::Gth => Value::Integer(5),
            U16Op::Gte => Value::Integer(6),
            U16Op::Not => Value::Integer(7),
            U16Op::And => Value::Integer(8),
            U16Op::Or => Value::Integer(9),
            U16Op::Xor => Value::Integer(10),
            U16Op::Add => Value::Integer(11),
            U16Op::Sub => Value::Integer(12),
            U16Op::Mul => Value::Integer(13),
            U16Op::Div => Value::Integer(14),
            U16Op::Mod => Value::Integer(15),
            U16Op::Pow => Value::Integer(16),
            U16Op::Shl => Value::Integer(17),
            U16Op::Shr => Value::Integer(18),
            U16Op::Rol => Value::Integer(19),
            U16Op::Ror => Value::Integer(20),
            U16Op::CountZeros => Value::Integer(21),
            U16Op::CountOnes => Value::Integer(22),
            U16Op::ToU8 => Value::Integer(23),
            U16Op::ToU32 => Value::Integer(24),
            U16Op::ToU64 => Value::Integer(25),
            U16Op::ToU128 => Value::Integer(26),
            U16Op::ToNat => Value::Integer(27),
            U16Op::ToI8 => Value::Integer(28),
            U16Op::ToI16 => Value::Integer(29),
            U16Op::ToI32 => Value::Integer(30),
            U16Op::ToI64 => Value::Integer(31),
            U16Op::ToI128 => Value::Integer(32),
            U16Op::ToInt => Value::Integer(33),
            U16Op::ToBits => Value::Integer(34),
            U16Op::ToBytes => Value::Integer(35),
        }
    }

    /// The operation that a value is the canonical form of.
    pub fn from_ipld(ipld: &Value) -> (r: Result<Self, IpldError>)
        ensures
            match r {
                Ok(op) => Self::spec_from_ipld(ipld@) == Ok::<U16Op, IpldErrorView>(op),
                Err(e) => Self::spec_from_ipld(ipld@) == Err::<U16Op, IpldErrorView>(e@),
            },
    {
        match ipld {
            Value::Integer(i) => {
                let i: i128 = *i;
                if i == 0 {
                    Ok(U16Op::Max)
                } else if i == 1 {
                    Ok(U16Op::Min)
                } else if i == 2 {
                    Ok(U16Op::Eql)
                } else if i == 3 {
                    Ok(U16Op::Lte)
                } else if i == 4 {
                    Ok(U16Op::Lth)
                } else if i == 5 {
                    Ok(U16Op::Gth)
                } else if i == 6 {
                    Ok(U16Op::Gte)
                } else if i == 7 {
                    Ok(U16Op::Not)
                } else if i == 8 {
                    Ok(U16Op::And)
                } else if i == 9 {
                    Ok(U16Op::Or)
                } else if i == 10 {
                    Ok(U16Op::Xor)
                } else if i == 11 {
                    Ok(U16Op::Add)
                } else if i == 12 {
                    Ok(U16Op::Sub)
                } else if i == 13 {
                    Ok(U16Op::Mul)
                } else if i == 14 {
                    Ok(U16Op::Div)
                } else if i == 15 {
                    Ok(U16Op::Mod)
                } else if i == 16 {
                    Ok(U16Op::Pow)
                } else if i == 17 {
                    Ok(U16Op::Shl)
                } else if i == 18 {
                    Ok(U16Op::Shr)
                } else if i == 19 {
                    Ok(U16Op::Rol)
                } else if i == 20 {
                    Ok(U16Op::Ror)
                } else if i == 21 {
                    Ok(U16Op::CountZeros)
                } else if i == 22 {
                    Ok(U16Op::CountOnes)
                } else if i == 23 {
                    Ok(U16Op::ToU8)
                } else if i == 24 {
                    Ok(U16Op::ToU32)
                } else if i == 25 {
                    Ok(U16Op::ToU64)
                } else if i == 26 {
                    Ok(U16Op::ToU128)
                } else if i == 27 {
                    Ok(U16Op::ToNat)
                } else if i == 28 {
                    Ok(U16Op::ToI8)
                } else if i == 29 {
                    Ok(U16Op::ToI16)
                } else if i == 30 {
                    Ok(U16Op::ToI32)
                } else if i == 31 {
                    Ok(U16Op::ToI64)
                } else if i == 32 {
                    Ok(U16Op::ToI128)
                } else if i == 33 {
                    Ok(U16Op::ToInt)
                } else if i == 34 {
                    Ok(U16Op::ToBits)
                } else if i == 35 {
                    Ok(U16Op::ToBytes)
                } else {
                    Err(IpldError::NatOp(ipld.clone()))
                }
            },
            _ => Err(IpldError::NatOp(ipld.clone())),
        }
    }

    /// What the operation is without an argument, where it takes none.
    pub fn apply0(self) -> (r: Option<Literal>)
        ensures
            option_view(r) == self.spec_apply0(),
    {
        match self {
            U16Op::Max => Some(Literal::U16(u16::MAX)),
            U16Op::Min => Some(Literal::U16(u16::MIN)),
            _ => None,
        }
    }

    /// What the operation makes of `x`, where it takes one argument of that
    /// type and has a result on it.
    pub fn apply1(self, x: Literal) -> (r: Option<Literal>)
        ensures
            option_view(r) == self.spec_apply1(x@),
    {
        match x {
            Literal::U16(x) => match self {
                U16Op::CountZeros => Some(Literal::U32(16 - ones(x))),
                U16Op::CountOnes => Some(Literal::U32(ones(x))),
                U16Op::ToU8 => if x <= 0xff {
                    Some(Literal::U8(x as u8))
                } else {
                    None
                },
                U16Op::ToU32 => Some(Literal::U32(x as u32)),
                U16Op::ToU64 => Some(Literal::U64(x as u64)),
                U16Op::ToU128 => Some(Literal::U128(x as u128)),
                U16Op::ToNat => Some(Literal::Nat(BigNat::from_u64(x as u64))),
                U16Op::ToI8 => if x <= 0x7f {
                    Some(Literal::I8(x as i8))
                } else {
                    None
                },
                U16Op::ToI16 => if x <= 0x7fff {
                    Some(Literal::I16(x as i16))
                } else {
                    None
                },
                U16Op::ToI32 => Some(Literal::I32(x as i32)),
                U16Op::ToI64 => Some(Literal::I64(x as i64)),
                U16Op::ToI128 => Some(Literal::I128(x as i128)),
                U16Op::Not => {
                    assert(!x == (0xffff - x) as u16) by (bit_vector);
                    Some(Literal::U16(!x))
                },
                U16Op::ToInt => Some(Literal::Int(BigInt::from_u64(x as u64))),
                U16Op::ToBytes => Some(Literal::Bytes(to_bytes_be(x))),
                U16Op::ToBits => Some(Literal::Bits(to_bits_be(x))),
                _ => None,
            },
            _ => None,
        }
    }

    /// What the operation makes of `x` and `y`, where it takes two arguments
    /// of those types and has a result on them.
    pub fn apply2(self, x: Literal, y: Literal) -> (r: Option<Literal>)
        ensures
            option_view(r) == self.spec_apply2(x@, y@),
    {
        match (x, y) {
            (Literal::U16(x), Literal::U16(y)) => match self {
                U16Op::Eql => Some(Literal::Bool(x == y)),
                U16Op::Lte => Some(Literal::Bool(x <= y)),
                U16Op::Lth => Some(Literal::Bool(x < y)),
                U16Op::Gth => Some(Literal::Bool(x > y)),
                U16Op::Gte => Some(Literal::Bool(x >= y)),
                U16Op::And => Some(Literal::U16(x & y)),
                U16Op::Or => Some(Literal::U16(x | y)),
                U16Op::Xor => Some(Literal::U16(x ^ y)),
                U16Op::Add => Some(Literal::U16(x.wrapping_add(y))),
                U16Op::Sub => Some(Literal::U16(x.wrapping_sub(y))),
                U16Op::Mul => Some(Literal::U16(x.wrapping_mul(y))),
                U16Op::Div => if y == 0 {
                    None
                } else {
                    Some(Literal::U16(x / y))
                },
                U16Op::Mod => if y == 0 {
                    None
                } else {
                    Some(Literal::U16(x % y))
                },
                _ => None,
            },
            (Literal::U16(x), Literal::U32(y)) => match self {
                U16Op::Pow => Some(Literal::U16(wrapping_pow_u16(x, y))),
                _ => None,
            },
            (Literal::U32(x), Literal::U16(y)) => match self {
                U16Op::Shl => Some(Literal::U16(y.wrapping_shl(x))),
                U16Op::Shr => Some(Literal::U16(y.wrapping_shr(x))),
                U16Op::Rol => Some(Literal::U16(turn_left(y, x))),
                U16Op::Ror => Some(Literal::U16(turn_right(y, x))),
                _ => None,
            },
            _ => None,
        }
    }

    /// How many arguments the operation takes.
    #[verifier::when_used_as_spec(spec_arity)]
    pub fn arity(self) -> (n: u64)
        ensures
            n == self.spec_arity(),
    {
        match self {
            U16Op::Max => 0,
            U16Op::Min => 0,
            U16Op::Eql => 2,
            U16Op::Lte => 2,
            U16Op::Lth => 2,
            U16Op::Gth => 2,
            U16Op::Gte => 2,
            U16Op::Not => 1,
            U16Op::And => 2,
            U16Op::Or => 2,
            U16Op::Xor => 2,
            U16Op::Add => 2,
            U16Op::Sub => 2,
            U16Op::Mul => 2,
            U16Op::Div => 2,
            U16Op::Mod => 2,
            U16Op::Pow => 2,
            U16Op::Shl => 2,
            U16Op::Shr => 2,
            U16Op::Rol => 2,
            U16Op::Ror => 2,
            U16Op::CountZeros => 1,
            U16Op::CountOnes => 1,
            U16Op::ToU8 => 1,
            U16Op::ToU32 => 1,
            U16Op::ToU64 => 1,
            U16Op::ToU128 => 1,
            U16Op::ToNat => 1,
            U16Op::ToI8 => 1,
            U16Op::ToI16 => 1,
            U16Op::ToI32 => 1,
            U16Op::ToI64 => 1,
            U16Op::ToI128 => 1,
            U16Op::ToInt => 1,
            U16Op::ToBits => 1,
            U16Op::ToBytes => 1,
        }
    }
}

/// Every operation is the operation that its number stands for.
pub proof fn lemma_ipld_roundtrip(op: U16Op)
    ensures
        U16Op::spec_from_ipld(op.spec_to_ipld()) == Ok::<U16Op, IpldErrorView>(op),
{
}

/// Only the number of an operation decodes to it.
pub proof fn lemma_ipld_canonical(v: ValueView, op: U16Op)
    requires
        U16Op::spec_from_ipld(v) == Ok::<U16Op, IpldErrorView>(op),
    ensures
        v == op.spec_to_ipld(),
{
}

/// Every operation is the operation that its name stands for.
pub proof fn lemma_symbol_roundtrip(op: U16Op)
    ensures
        U16Op::spec_from_symbol(op.spec_symbol()) == Some(op),
{
    reveal_strlit("max");
    assert(fingerprint("max"@) == (3nat, 'm', 'a', 'x', ' ', 'x'));
    reveal_strlit("min");
    assert(fingerprint("min"@) == (3nat, 'm', 'i', 'n', ' ', 'n'));
    reveal_strlit("eql");
    assert(fingerprint("eql"@) == (3nat, 'e', 'q', 'l', ' ', 'l'));
    reveal_strlit("lte");
    assert(fingerprint("lte"@) == (3nat, 'l', 't', 'e', ' ', 'e'));
    reveal_strlit("lth");
    assert(fingerprint("lth"@) == (3nat, 'l', 't', 'h', ' ', 'h'));
    reveal_strlit("gth");
    assert(fingerprint("gth"@) == (3nat, 'g', 't', 'h', ' ', 'h'));
    reveal_strlit("gte");
    assert(fingerprint("gte"@) == (3nat, 'g', 't', 'e', ' ', 'e'));
    reveal_strlit("not");
    assert(fingerprint("not"@) == (3nat, 'n', 'o', 't', ' ', 't'));
    reveal_strlit("and");
    assert(fingerprint("and"@) == (3nat, 'a', 'n', 'd', ' ', 'd'));
    reveal_strlit("or");
    assert(fingerprint("or"@) == (2nat, 'o', 'r', ' ', ' ', 'r'));
    reveal_strlit("xor");
    assert(fingerprint("xor"@) == (3nat, 'x', 'o', 'r', ' ', 'r'));
    reveal_strlit("add");
    assert(fingerprint("add"@) == (3nat, 'a', 'd', 'd', ' ', 'd'));
    reveal_strlit("sub");
    assert(fingerprint("sub"@) == (3nat, 's', 'u', 'b', ' ', 'b'));
    reveal_strlit("mul");
    assert(fingerprint("mul"@) == (3nat, 'm', 'u', 'l', ' ', 'l'));
    reveal_strlit("div");
    assert(fingerprint("div"@) == (3nat, 'd', 'i', 'v', ' ', 'v'));
    reveal_strlit("mod");
    assert(fingerprint("mod"@) == (3nat, 'm', 'o', 'd', ' ', 'd'));
    reveal_strlit("pow");
    assert(fingerprint("pow"@) == (3nat, 'p', 'o', 'w', ' ', 'w'));
    reveal_strlit("shl");
    assert(fingerprint("shl"@) == (3nat, 's', 'h', 'l', ' ', 'l'));
    reveal_strlit("shr");
    assert(fingerprint("shr"@) == (3nat, 's', 'h', 'r', ' ', 'r'));
    reveal_strlit("rol");
    assert(fingerprint("rol"@) == (3nat, 'r', 'o', 'l', ' ', 'l'));
    reveal_strlit("ror");
    assert(fingerprint("ror"@) == (3nat, 'r', 'o', 'r', ' ', 'r'));
    reveal_strlit("count_zeros");
    assert(fingerprint("count_zeros"@) == (11nat, 'c', 'o', 'u', 'n', 's'));
    reveal_strlit("count_ones");
    assert(fingerprint("count_ones"@) == (10nat, 'c', 'o', 'u', 'n', 's'));
    reveal_strlit("to_U8");
    assert(fingerprint("to_U8"@) == (5nat, 't', 'o', '_', 'U', '8'));
    reveal_strlit("to_U32");
    assert(fingerprint("to_U32"@) == (6nat, 't', 'o', '_', 'U', '2'));
    reveal_strlit("to_U64");
    assert(fingerprint("to_U64"@) == (6nat, 't', 'o', '_', 'U', '4'));
    reveal_strlit("to_U128");
    assert(fingerprint("to_U128"@) == (7nat, 't', 'o', '_', 'U', '8'));
    reveal_strlit("to_Nat");
    assert(fingerprint("to_Nat"@) == (6nat, 't', 'o', '_', 'N', 't'));
    reveal_strlit("to_I8");
    assert(fingerprint("to_I8"@) == (5nat, 't', 'o', '_', 'I', '8'));
    reveal_strlit("to_I16");
    assert(fingerprint("to_I16"@) == (6nat, 't', 'o', '_', 'I', '6'));
    reveal_strlit("to_I32");
    assert(fingerprint("to_I32"@) == (6nat, 't', 'o', '_', 'I', '2'));
    reveal_strlit("to_I64");
    assert(fingerprint("to_I64"@) == (6nat, 't', 'o', '_', 'I', '4'));
    reveal_strlit("to_I128");
    assert(fingerprint("to_I128"@) == (7nat, 't', 'o', '_', 'I', '8'));
    reveal_strlit("to_Int");
    assert(fingerprint("to_Int"@) == (6nat, 't', 'o', '_', 'I', 't'));
    reveal_strlit("to_Bytes");
    assert(fingerprint("to_Bytes"@) == (8nat, 't', 'o', '_', 'B', 's'));
    reveal_strlit("to_Bits");
    assert(fingerprint("to_Bits"@) == (7nat, 't', 'o', '_', 'B', 's'));
}

/// A name stands for an operation only if it is the name of that operation.
pub proof fn lemma_symbol_canonical(x: Seq<char>, op: U16Op)
    requires
        U16Op::spec_from_symbol(x) == Some(op),
    ensures
        x == op.spec_symbol(),
{
}

/// An operation takes none, one or two arguments, and it is something
/// without an argument exactly when it takes none.
pub proof fn lemma_arity(op: U16Op)
    ensures
        op.spec_arity() <= 2,
        op.spec_apply0() is Some <==> op.spec_arity() == 0,
{
}

/// How many binders stand at the head of a type.
pub open spec fn binders(t: TermView) -> nat
    decreases t,
{
    match t {
        TermView::All(_, _, _, _, image) => 1 + binders(*image),
        _ => 0,
    }
}

/// The type of an operation has as many binders as the operation takes
/// arguments.
pub proof fn lemma_type_arity(op: U16Op)
    ensures
        binders(op.spec_type_of()) == op.spec_arity(),
{
    reveal_with_fuel(binders, 3);
}

/// What an operation is without an argument has the type of the operation.
pub proof fn lemma_apply0_typed(op: U16Op)
    ensures
        op.spec_apply0() matches Some(r) ==> op.spec_arity() == 0 && op.spec_type_of()
            == TermView::LTy(None, r.type_of()),
{
}

/// An operation has a result on one argument only where it takes one
/// argument: its type is that of a function from the type of the argument
/// to the type of the result.
pub proof fn lemma_apply1_typed(op: U16Op, x: LiteralView)
    ensures
        op.spec_apply1(x) matches Some(r) ==> op.spec_arity() == 1 && op.spec_type_of() == arrow(
            x.type_of(),
            TermView::LTy(None, r.type_of()),
        ),
{
}

/// An operation has a result on two arguments only where it takes two
/// arguments: its type is that of a function from the types of the
/// arguments, in order, to the type of the result.
pub proof fn lemma_apply2_typed(op: U16Op, x: LiteralView, y: LiteralView)
    ensures
        op.spec_apply2(x, y) matches Some(r) ==> op.spec_arity() == 2 && op.spec_type_of()
            == arrow(x.type_of(), arrow(y.type_of(), TermView::LTy(None, r.type_of()))),
{
}

/// The type of an operation stands on its own.
pub proof fn lemma_type_closed(op: U16Op)
    ensures
        op.spec_type_of().closed(),
{
    reveal_with_fuel(TermView::scoped, 3);
}

/// A quotient or a remainder by zero is no result.
pub proof fn lemma_division_by_zero(x: LiteralView)
    ensures
        U16Op::Div.spec_apply2(x, LiteralView::U16(0)) is None,
        U16Op::Mod.spec_apply2(x, LiteralView::U16(0)) is None,
{
}

/// The bits of a 16-bit integer are sixteen, its bytes two.
pub proof fn lemma_widths(x: u16)
    ensures
        U16Op::ToBits.spec_apply1(LiteralView::U16(x)) matches Some(LiteralView::Bits(bits))
            && bits.len() == 16,
        U16Op::ToBytes.spec_apply1(LiteralView::U16(x)) matches Some(LiteralView::Bytes(bytes))
            && bytes.len() == 2,
{
}

} // verus!
