use yatima_core::error::IpldError;
use yatima_core::ipld::Value;
use yatima_core::bignum::{BigInt, BigNat};
use yatima_core::literal::{Literal, PrimType};
use yatima_core::position::Pos;
use yatima_core::prim::u16::U16Op;
use yatima_core::term::Term;
use yatima_core::uses::Uses;

fn all_ops() -> Vec<U16Op> {
    vec![
        U16Op::Max,
        U16Op::Min,
        U16Op::Eql,
        U16Op::Lte,
        U16Op::Lth,
        U16Op::Gth,
        U16Op::Gte,
        U16Op::Not,
        U16Op::And,
        U16Op::Or,
        U16Op::Xor,
        U16Op::Add,
        U16Op::Sub,
        U16Op::Mul,
        U16Op::Div,
        U16Op::Mod,
        U16Op::Pow,
        U16Op::Shl,
        U16Op::Shr,
        U16Op::Rol,
        U16Op::Ror,
        U16Op::CountZeros,
        U16Op::CountOnes,
        U16Op::ToU8,
        U16Op::ToU32,
        U16Op::ToU64,
        U16Op::ToU128,
        U16Op::ToNat,
        U16Op::ToI8,
        U16Op::ToI16,
        U16Op::ToI32,
        U16Op::ToI64,
        U16Op::ToI128,
        U16Op::ToInt,
        U16Op::ToBits,
        U16Op::ToBytes,
    ]
}

fn arrow(dom: PrimType, img: Term) -> Term {
    Term::All(
        Pos(None),
        Uses::Many,
        String::new(),
        Box::new(Term::LTy(Pos(None), dom)),
        Box::new(img),
    )
}

fn ty(t: PrimType) -> Term {
    Term::LTy(Pos(None), t)
}

#[test]
fn u16_op_ipld() {
    for (tag, op) in all_ops().into_iter().enumerate() {
        assert_eq!(op.to_ipld(), Value::Integer(tag as i128));
        assert_eq!(U16Op::from_ipld(&op.to_ipld()), Ok(op));
    }
}

#[test]
fn u16_op_tags_are_fixed() {
    assert_eq!(U16Op::Max.to_ipld(), Value::Integer(0));
    assert_eq!(U16Op::Pow.to_ipld(), Value::Integer(16));
    assert_eq!(U16Op::ToInt.to_ipld(), Value::Integer(33));
    assert_eq!(U16Op::ToBits.to_ipld(), Value::Integer(34));
    assert_eq!(U16Op::ToBytes.to_ipld(), Value::Integer(35));
}

#[test]
fn u16_op_from_ipld_refuses_unknown_tags() {
    for bad in [Value::Integer(36), Value::Integer(-1), Value::String("max".to_string()), Value::Null]
    {
        assert_eq!(U16Op::from_ipld(&bad), Err(IpldError::NatOp(bad.clone())));
    }
}

#[test]
fn u16_op_symbols() {
    for op in all_ops() {
        assert_eq!(U16Op::from_symbol(&op.symbol()), Some(op));
    }
    assert_eq!(U16Op::Max.symbol(), "max");
    assert_eq!(U16Op::CountZeros.symbol(), "count_zeros");
    assert_eq!(U16Op::ToU128.symbol(), "to_U128");
    assert_eq!(U16Op::ToBytes.symbol(), "to_Bytes");
    assert_eq!(U16Op::ToBits.symbol(), "to_Bits");
    assert_eq!(U16Op::from_symbol("to_I16"), Some(U16Op::ToI16));
    assert_eq!(U16Op::from_symbol("to_U16"), None);
    assert_eq!(U16Op::from_symbol(""), None);
    assert_eq!(U16Op::from_symbol("Max"), None);
}

#[test]
fn u16_op_arity() {
    let nullary = [U16Op::Max, U16Op::Min];
    let binary = [
        U16Op::Eql,
        U16Op::Lte,
        U16Op::Lth,
        U16Op::Gth,
        U16Op::Gte,
        U16Op::And,
        U16Op::Or,
        U16Op::Xor,
        U16Op::Add,
        U16Op::Sub,
        U16Op::Mul,
        U16Op::Div,
        U16Op::Mod,
        U16Op::Pow,
        U16Op::Shl,
        U16Op::Shr,
        U16Op::Rol,
        U16Op::Ror,
    ];
    for op in all_ops() {
        let want = if nullary.contains(&op) {
            0
        } else if binary.contains(&op) {
            2
        } else {
            1
        };
        assert_eq!(op.arity(), want);
        assert_eq!(op.apply0().is_some(), op.arity() == 0);
    }
}

#[test]
fn u16_op_types() {
    assert_eq!(U16Op::Max.type_of(), ty(PrimType::U16));
    assert_eq!(
        U16Op::Eql.type_of(),
        arrow(PrimType::U16, arrow(PrimType::U16, ty(PrimType::Bool)))
    );
    assert_eq!(
        U16Op::Add.type_of(),
        arrow(PrimType::U16, arrow(PrimType::U16, ty(PrimType::U16)))
    );
    assert_eq!(
        U16Op::Pow.type_of(),
        arrow(PrimType::U16, arrow(PrimType::U32, ty(PrimType::U16)))
    );
    assert_eq!(
        U16Op::Shl.type_of(),
        arrow(PrimType::U32, arrow(PrimType::U16, ty(PrimType::U16)))
    );
    assert_eq!(U16Op::Not.type_of(), arrow(PrimType::U16, ty(PrimType::U16)));
    for op in [U16Op::And, U16Op::Or, U16Op::Xor] {
        assert_eq!(
            op.type_of(),
            arrow(PrimType::U16, arrow(PrimType::U16, ty(PrimType::U16)))
        );
    }
    assert_eq!(U16Op::CountOnes.type_of(), arrow(PrimType::U16, ty(PrimType::U32)));
    assert_eq!(U16Op::ToNat.type_of(), arrow(PrimType::U16, ty(PrimType::Nat)));
    assert_eq!(U16Op::ToBytes.type_of(), arrow(PrimType::U16, ty(PrimType::Bytes)));
    assert_eq!(U16Op::ToBits.type_of(), arrow(PrimType::U16, ty(PrimType::Bits)));
}

#[test]
fn u16_apply0() {
    assert_eq!(U16Op::Max.apply0(), Some(Literal::U16(65535)));
    assert_eq!(U16Op::Min.apply0(), Some(Literal::U16(0)));
    assert_eq!(U16Op::Add.apply0(), None);
}

#[test]
fn u16_wrapping_arithmetic() {
    let two = |op: U16Op, x: u16, y: u16| op.apply2(Literal::U16(x), Literal::U16(y));
    assert_eq!(two(U16Op::Add, 65535, 1), Some(Literal::U16(0)));
    assert_eq!(two(U16Op::Add, 40000, 30000), Some(Literal::U16(4464)));
    assert_eq!(two(U16Op::Sub, 0, 1), Some(Literal::U16(65535)));
    assert_eq!(two(U16Op::Sub, 7, 5), Some(Literal::U16(2)));
    assert_eq!(two(U16Op::Mul, 256, 256), Some(Literal::U16(0)));
    assert_eq!(two(U16Op::Mul, 2, 3), Some(Literal::U16(6)));
    assert_eq!(two(U16Op::Mul, 300, 300), Some(Literal::U16(24464)));
    assert_eq!(two(U16Op::Div, 7, 2), Some(Literal::U16(3)));
    assert_eq!(two(U16Op::Mod, 7, 2), Some(Literal::U16(1)));
}

#[test]
fn u16_division_by_zero_is_no_result() {
    assert_eq!(U16Op::Div.apply2(Literal::U16(7), Literal::U16(0)), None);
    assert_eq!(U16Op::Mod.apply2(Literal::U16(7), Literal::U16(0)), None);
    assert_eq!(U16Op::Div.apply2(Literal::U16(0), Literal::U16(0)), None);
}

#[test]
fn u16_pow_wraps() {
    let pow = |x: u16, y: u32| U16Op::Pow.apply2(Literal::U16(x), Literal::U32(y));
    assert_eq!(pow(2, 10), Some(Literal::U16(1024)));
    assert_eq!(pow(2, 16), Some(Literal::U16(0)));
    assert_eq!(pow(3, 11), Some(Literal::U16(46075)));
    assert_eq!(pow(7, 0), Some(Literal::U16(1)));
    assert_eq!(pow(0, 0), Some(Literal::U16(1)));
    assert_eq!(pow(65535, 2), Some(Literal::U16(1)));
    assert_eq!(pow(3, u32::MAX), Some(Literal::U16(3u16.wrapping_pow(u32::MAX))));
    assert_eq!(pow(12345, 6789), Some(Literal::U16(12345u16.wrapping_pow(6789))));
}

#[test]
fn u16_shifts() {
    let by = |op: U16Op, n: u32, x: u16| op.apply2(Literal::U32(n), Literal::U16(x));
    assert_eq!(by(U16Op::Shl, 17, 1), Some(Literal::U16(2)));
    assert_eq!(by(U16Op::Shr, 1, 1), Some(Literal::U16(0)));
    assert_eq!(by(U16Op::Shl, 15, 3), Some(Literal::U16(0x8000)));
    assert_eq!(by(U16Op::Shr, 16, 0x8000), Some(Literal::U16(0x8000)));
    assert_eq!(by(U16Op::Rol, 4, 0x1234), Some(Literal::U16(0x2341)));
    assert_eq!(by(U16Op::Ror, 4, 0x1234), Some(Literal::U16(0x4123)));
    assert_eq!(by(U16Op::Rol, 16, 0x1234), Some(Literal::U16(0x1234)));
    assert_eq!(by(U16Op::Rol, 20, 0x1234), Some(Literal::U16(0x2341)));
    assert_eq!(by(U16Op::Ror, 0, 0xbeef), Some(Literal::U16(0xbeef)));
    for n in [0u32, 1, 7, 15, 16, 31, 33, 1000] {
        for x in [0u16, 1, 0x8001, 0xffff, 0x1234] {
            assert_eq!(by(U16Op::Rol, n, x), Some(Literal::U16(x.rotate_left(n))));
            assert_eq!(by(U16Op::Ror, n, x), Some(Literal::U16(x.rotate_right(n))));
            assert_eq!(by(U16Op::Shl, n, x), Some(Literal::U16(x.wrapping_shl(n))));
            assert_eq!(by(U16Op::Shr, n, x), Some(Literal::U16(x.wrapping_shr(n))));
        }
    }
}

#[test]
fn u16_comparisons_and_bits() {
    let two = |op: U16Op, x: u16, y: u16| op.apply2(Literal::U16(x), Literal::U16(y));
    assert_eq!(two(U16Op::Eql, 3, 3), Some(Literal::Bool(true)));
    assert_eq!(two(U16Op::Eql, 3, 4), Some(Literal::Bool(false)));
    assert_eq!(two(U16Op::Lte, 3, 3), Some(Literal::Bool(true)));
    assert_eq!(two(U16Op::Lth, 3, 3), Some(Literal::Bool(false)));
    assert_eq!(two(U16Op::Gth, 4, 3), Some(Literal::Bool(true)));
    assert_eq!(two(U16Op::Gte, 2, 3), Some(Literal::Bool(false)));
    assert_eq!(two(U16Op::And, 0b1100, 0b1010), Some(Literal::U16(0b1000)));
    assert_eq!(two(U16Op::Or, 0b1100, 0b1010), Some(Literal::U16(0b1110)));
    assert_eq!(two(U16Op::Xor, 0b1100, 0b1010), Some(Literal::U16(0b0110)));
    assert_eq!(U16Op::Not.apply1(Literal::U16(0x00ff)), Some(Literal::U16(0xff00)));
    assert_eq!(U16Op::CountOnes.apply1(Literal::U16(0xf0f1)), Some(Literal::U32(9)));
    assert_eq!(U16Op::CountZeros.apply1(Literal::U16(0xf0f1)), Some(Literal::U32(7)));
    assert_eq!(U16Op::CountZeros.apply1(Literal::U16(0)), Some(Literal::U32(16)));
    assert_eq!(U16Op::CountOnes.apply1(Literal::U16(0xffff)), Some(Literal::U32(16)));
}

#[test]
fn u16_conversions() {
    let one = |op: U16Op, x: u16| op.apply1(Literal::U16(x));
    assert_eq!(one(U16Op::ToU8, 256), None);
    assert_eq!(one(U16Op::ToU8, 255), Some(Literal::U8(255)));
    assert_eq!(one(U16Op::ToI8, 128), None);
    assert_eq!(one(U16Op::ToI8, 127), Some(Literal::I8(127)));
    assert_eq!(one(U16Op::ToI16, 40000), None);
    assert_eq!(one(U16Op::ToI16, 32767), Some(Literal::I16(32767)));
    assert_eq!(one(U16Op::ToU32, 65535), Some(Literal::U32(65535)));
    assert_eq!(one(U16Op::ToU64, 65535), Some(Literal::U64(65535)));
    assert_eq!(one(U16Op::ToU128, 65535), Some(Literal::U128(65535)));
    assert_eq!(one(U16Op::ToI32, 65535), Some(Literal::I32(65535)));
    assert_eq!(one(U16Op::ToI64, 65535), Some(Literal::I64(65535)));
    assert_eq!(one(U16Op::ToI128, 65535), Some(Literal::I128(65535)));
    assert_eq!(one(U16Op::ToNat, 7), Some(Literal::Nat(BigNat { limbs: vec![7] })));
    assert_eq!(one(U16Op::ToNat, 0), Some(Literal::Nat(BigNat { limbs: vec![] })));
    assert_eq!(
        one(U16Op::ToInt, 7),
        Some(Literal::Int(BigInt { negative: false, magnitude: BigNat { limbs: vec![7] } }))
    );
}

#[test]
fn u16_to_bytes_and_bits() {
    assert_eq!(
        U16Op::ToBytes.apply1(Literal::U16(0x1234)),
        Some(Literal::Bytes(vec![0x12, 0x34]))
    );
    assert_eq!(U16Op::ToBytes.apply1(Literal::U16(1)), Some(Literal::Bytes(vec![0, 1])));
    let bits = |x: u16| match U16Op::ToBits.apply1(Literal::U16(x)) {
        Some(Literal::Bits(b)) => b,
        other => panic!("{:?}", other),
    };
    assert_eq!(bits(0x1234).len(), 16);
    let t = true;
    let f = false;
    assert_eq!(bits(0x1234), vec![f, f, f, t, f, f, t, f, f, f, t, t, f, t, f, f]);
    assert_eq!(bits(0x8000), vec![t, f, f, f, f, f, f, f, f, f, f, f, f, f, f, f]);
    assert_eq!(bits(1), vec![f, f, f, f, f, f, f, f, f, f, f, f, f, f, f, t]);
}

#[test]
fn u16_ops_refuse_other_literals() {
    assert_eq!(U16Op::Add.apply2(Literal::U16(1), Literal::U32(1)), None);
    assert_eq!(U16Op::Add.apply2(Literal::U8(1), Literal::U8(1)), None);
    assert_eq!(U16Op::Pow.apply2(Literal::U16(2), Literal::U16(2)), None);
    assert_eq!(U16Op::Shl.apply2(Literal::U16(1), Literal::U16(1)), None);
    assert_eq!(U16Op::Not.apply1(Literal::U32(1)), None);
    assert_eq!(U16Op::Add.apply1(Literal::U16(1)), None);
    assert_eq!(U16Op::Not.apply2(Literal::U16(1), Literal::U16(1)), None);
    assert_eq!(U16Op::Max.apply1(Literal::U16(1)), None);
    assert_eq!(U16Op::ToU8.apply1(Literal::Bool(true)), None);
}

#[test]
fn u16_mixing_widths() {
    let product = U16Op::Mul.apply2(Literal::U16(2), Literal::U16(3)).unwrap();
    assert_eq!(product, Literal::U16(6));
    assert_eq!(U16Op::ToU32.apply1(product), Some(Literal::U32(6)));
}

fn leading_binders(t: &Term) -> u64 {
    match t {
        Term::All(_, _, _, _, image) => 1 + leading_binders(image),
        _ => 0,
    }
}

fn image_of(t: &Term) -> &Term {
    match t {
        Term::All(_, _, _, _, image) => image_of(image),
        other => other,
    }
}

#[test]
fn u16_types_agree_with_what_the_operations_do() {
    for op in all_ops() {
        assert_eq!(leading_binders(&op.type_of()), op.arity(), "{:?}", op);
    }
    assert_eq!(image_of(&U16Op::Max.type_of()), &ty(U16Op::Max.apply0().unwrap().type_of()));
    for op in all_ops() {
        if let Some(r) = op.apply1(Literal::U16(5)) {
            assert_eq!(image_of(&op.type_of()), &ty(r.type_of()), "{:?}", op);
        }
        if let Some(r) = op.apply2(Literal::U16(5), Literal::U16(3)) {
            assert_eq!(image_of(&op.type_of()), &ty(r.type_of()), "{:?}", op);
        }
        if let Some(r) = op.apply2(Literal::U16(5), Literal::U32(3)) {
            assert_eq!(image_of(&op.type_of()), &ty(r.type_of()), "{:?}", op);
        }
        if let Some(r) = op.apply2(Literal::U32(5), Literal::U16(3)) {
            assert_eq!(image_of(&op.type_of()), &ty(r.type_of()), "{:?}", op);
        }
    }
}
