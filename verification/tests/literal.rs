use yatima_core::bignum::{BigInt, BigNat};
use yatima_core::codec;
use yatima_core::error::IpldError;
use yatima_core::ipld::Value;
use yatima_core::literal::{Literal, PrimType};
use yatima_core::prim::u16::U16Op;
use yatima_core::prim::PrimOp;
use yatima_core::uses::Uses;

fn s(x: &str) -> Value {
    Value::String(x.to_string())
}

fn samples() -> Vec<Literal> {
    vec![
        Literal::Nat(BigNat { limbs: vec![] }),
        Literal::Nat(BigNat { limbs: vec![7] }),
        Literal::Nat(BigNat { limbs: vec![u64::MAX] }),
        Literal::Nat(BigNat { limbs: vec![0, 1] }),
        Literal::Nat(BigNat { limbs: vec![1, 2, 3] }),
        Literal::Int(BigInt { negative: false, magnitude: BigNat { limbs: vec![] } }),
        Literal::Int(BigInt { negative: true, magnitude: BigNat { limbs: vec![5] } }),
        Literal::Int(BigInt { negative: true, magnitude: BigNat { limbs: vec![0, 1] } }),
        Literal::Int(BigInt { negative: true, magnitude: BigNat { limbs: vec![1, 1] } }),
        Literal::Int(BigInt { negative: false, magnitude: BigNat { limbs: vec![0, 1] } }),
        Literal::Int(BigInt { negative: true, magnitude: BigNat { limbs: vec![9, 8, 7] } }),
        Literal::Bits(vec![]),
        Literal::Bits(vec![true, false, true]),
        Literal::Bytes(vec![]),
        Literal::Bytes(vec![0, 255, 7]),
        Literal::Text(String::new()),
        Literal::Text("λ x => x".to_string()),
        Literal::Char('a'),
        Literal::Char('λ'),
        Literal::Char('\u{10ffff}'),
        Literal::Char('\u{d7ff}'),
        Literal::Char('\u{e000}'),
        Literal::Bool(true),
        Literal::Bool(false),
        Literal::U8(0),
        Literal::U8(255),
        Literal::U16(65535),
        Literal::U32(u32::MAX),
        Literal::U64(u64::MAX),
        Literal::U128(0),
        Literal::U128(1 << 64),
        Literal::U128(u128::MAX),
        Literal::I8(-128),
        Literal::I8(127),
        Literal::I16(i16::MIN),
        Literal::I32(i32::MIN),
        Literal::I64(i64::MIN),
        Literal::I64(i64::MAX),
        Literal::I128(0),
        Literal::I128(-(1 << 64)),
        Literal::I128(-(1 << 64) - 1),
        Literal::I128((1 << 64) - 1),
        Literal::I128(1 << 64),
        Literal::I128(i128::MIN),
        Literal::I128(i128::MAX),
    ]
}

#[test]
fn literal_ipld() {
    for x in samples() {
        assert_eq!(Literal::from_ipld(&x.to_ipld()), Ok(x.clone()), "{:?}", x);
    }
}

#[test]
fn literal_forms_have_blocks() {
    for x in samples() {
        let form = x.to_ipld();
        let bytes = codec::encode(&form).unwrap();
        assert_eq!(codec::decode(&bytes), Ok(form));
    }
}

#[test]
fn literal_forms() {
    assert_eq!(Literal::U16(3).to_ipld(), Value::List(vec![s("#Lit"), s("U16"), Value::Integer(3)]));
    assert_eq!(Literal::I8(-3).to_ipld(), Value::List(vec![s("#Lit"), s("I8"), Value::Integer(-3)]));
    assert_eq!(
        Literal::Nat(BigNat { limbs: vec![7] }).to_ipld(),
        Value::List(vec![s("#Lit"), s("Nat"), Value::Integer(7)])
    );
    assert_eq!(
        Literal::Nat(BigNat { limbs: vec![7, 0, 0] }).to_ipld(),
        Value::List(vec![s("#Lit"), s("Nat"), Value::Integer(7)])
    );
    assert_eq!(
        Literal::Nat(BigNat { limbs: vec![7, 1] }).to_ipld(),
        Value::List(vec![
            s("#Lit"),
            s("Nat"),
            Value::List(vec![Value::Integer(7), Value::Integer(1)])
        ])
    );
    assert_eq!(
        Literal::Int(BigInt { negative: true, magnitude: BigNat { limbs: vec![0, 1] } }).to_ipld(),
        Value::List(vec![s("#Lit"), s("Int"), Value::Integer(-(1i128 << 64))])
    );
    assert_eq!(
        Literal::Int(BigInt { negative: true, magnitude: BigNat { limbs: vec![1, 1] } }).to_ipld(),
        Value::List(vec![
            s("#Lit"),
            s("Int"),
            Value::List(vec![Value::Bool(true), Value::Integer(1), Value::Integer(1)])
        ])
    );
    assert_eq!(
        Literal::U128(u128::MAX).to_ipld(),
        Value::List(vec![
            s("#Lit"),
            s("U128"),
            Value::List(vec![Value::Integer(u64::MAX as i128), Value::Integer(u64::MAX as i128)])
        ])
    );
    assert_eq!(
        Literal::Bits(vec![true, false]).to_ipld(),
        Value::List(vec![
            s("#Lit"),
            s("Bits"),
            Value::List(vec![Value::Bool(true), Value::Bool(false)])
        ])
    );
    assert_eq!(
        Literal::Bytes(vec![1, 2]).to_ipld(),
        Value::List(vec![s("#Lit"), s("Bytes"), Value::Bytes(vec![1, 2])])
    );
    assert_eq!(Literal::Text("hi".to_string()).to_ipld(), Value::List(vec![s("#Lit"), s("Text"), s("hi")]));
    assert_eq!(Literal::Char('a').to_ipld(), Value::List(vec![s("#Lit"), s("Char"), Value::Integer(97)]));
    assert_eq!(Literal::Bool(true).to_ipld(), Value::List(vec![s("#Lit"), s("Bool"), Value::Bool(true)]));
}

#[test]
fn literal_from_ipld_refuses_what_is_no_form() {
    let shape = |v: Value| assert_eq!(Literal::from_ipld(&v), Err(IpldError::InvalidShape(v.clone())));
    shape(Value::Null);
    shape(Value::List(vec![s("#Lit"), s("U8")]));
    shape(Value::List(vec![s("#LTy"), s("U8"), Value::Integer(1)]));
    shape(Value::List(vec![s("#Lit"), Value::Integer(1), Value::Integer(1)]));
    shape(Value::List(vec![s("#Lit"), s("U8"), Value::Integer(256)]));
    shape(Value::List(vec![s("#Lit"), s("U8"), Value::Integer(-1)]));
    shape(Value::List(vec![s("#Lit"), s("I8"), Value::Integer(128)]));
    shape(Value::List(vec![s("#Lit"), s("I8"), Value::Integer(-129)]));
    shape(Value::List(vec![s("#Lit"), s("U16"), Value::Integer(65536)]));
    shape(Value::List(vec![s("#Lit"), s("Bool"), Value::Integer(1)]));
    shape(Value::List(vec![s("#Lit"), s("Text"), Value::Bytes(vec![1])]));
    shape(Value::List(vec![s("#Lit"), s("Bytes"), s("x")]));
    shape(Value::List(vec![s("#Lit"), s("Bits"), Value::List(vec![Value::Integer(1)])]));
    shape(Value::List(vec![s("#Lit"), s("Char"), Value::Integer(0xd800)]));
    shape(Value::List(vec![s("#Lit"), s("Char"), Value::Integer(0xdfff)]));
    shape(Value::List(vec![s("#Lit"), s("Char"), Value::Integer(0x110000)]));
    shape(Value::List(vec![s("#Lit"), s("Nat"), Value::Integer(-1)]));
    shape(Value::List(vec![s("#Lit"), s("Nat"), Value::Integer(1i128 << 64)]));
    shape(Value::List(vec![s("#Lit"), s("Nat"), Value::List(vec![Value::Integer(5)])]));
    shape(Value::List(vec![
        s("#Lit"),
        s("Nat"),
        Value::List(vec![Value::Integer(5), Value::Integer(0)]),
    ]));
    shape(Value::List(vec![
        s("#Lit"),
        s("Nat"),
        Value::List(vec![Value::Integer(5), Value::Integer(1i128 << 64)]),
    ]));
    shape(Value::List(vec![
        s("#Lit"),
        s("U64"),
        Value::List(vec![Value::Integer(5), Value::Integer(1)]),
    ]));
    shape(Value::List(vec![
        s("#Lit"),
        s("U128"),
        Value::List(vec![Value::Integer(5), Value::Integer(1), Value::Integer(1)]),
    ]));
    shape(Value::List(vec![s("#Lit"), s("Int"), Value::Integer(1i128 << 64)]));
    shape(Value::List(vec![
        s("#Lit"),
        s("Int"),
        Value::List(vec![Value::Bool(true), Value::Integer(0), Value::Integer(1)]),
    ]));
    shape(Value::List(vec![
        s("#Lit"),
        s("Int"),
        Value::List(vec![Value::Integer(1), Value::Integer(1), Value::Integer(1)]),
    ]));
    let unknown = Value::List(vec![s("#Lit"), s("U256"), Value::Integer(1)]);
    assert_eq!(Literal::from_ipld(&unknown), Err(IpldError::UnknownTag(unknown.clone())));
}

#[test]
fn literal_types() {
    assert_eq!(Literal::U16(1).type_of(), PrimType::U16);
    assert_eq!(Literal::Text(String::new()).type_of(), PrimType::Text);
    assert_eq!(Literal::Nat(BigNat { limbs: vec![] }).type_of(), PrimType::Nat);
}

fn all_types() -> Vec<PrimType> {
    vec![
        PrimType::Nat,
        PrimType::Int,
        PrimType::Bits,
        PrimType::Bytes,
        PrimType::Text,
        PrimType::Char,
        PrimType::Bool,
        PrimType::U8,
        PrimType::U16,
        PrimType::U32,
        PrimType::U64,
        PrimType::U128,
        PrimType::I8,
        PrimType::I16,
        PrimType::I32,
        PrimType::I64,
        PrimType::I128,
    ]
}

#[test]
fn prim_type_ipld() {
    for t in all_types() {
        assert_eq!(PrimType::from_name(&t.name()), Some(t));
        assert_eq!(PrimType::from_ipld(&t.to_ipld()), Ok(t));
    }
    assert_eq!(PrimType::U128.to_ipld(), Value::List(vec![s("#LTy"), s("U128")]));
    assert_eq!(PrimType::from_name("u8"), None);
    let unknown = Value::List(vec![s("#LTy"), s("F64")]);
    assert_eq!(PrimType::from_ipld(&unknown), Err(IpldError::UnknownTag(unknown.clone())));
    let shape = Value::List(vec![s("#Lit"), s("U8")]);
    assert_eq!(PrimType::from_ipld(&shape), Err(IpldError::InvalidShape(shape.clone())));
    assert_eq!(PrimType::from_ipld(&Value::Null), Err(IpldError::InvalidShape(Value::Null)));
}

#[test]
fn prim_op_ipld() {
    let op = PrimOp::U16(U16Op::Pow);
    assert_eq!(op.to_ipld(), Value::List(vec![s("#Opr"), s("U16"), Value::Integer(16)]));
    assert_eq!(PrimOp::from_ipld(&op.to_ipld()), Ok(op));
    assert_eq!(op.symbol(), "pow");
    assert_eq!(op.arity(), 2);
    assert_eq!(op.type_of(), U16Op::Pow.type_of());
    assert_eq!(op.apply0(), None);
    assert_eq!(PrimOp::U16(U16Op::Max).apply0(), Some(Literal::U16(65535)));
    assert_eq!(PrimOp::U16(U16Op::Not).apply1(Literal::U16(0)), Some(Literal::U16(65535)));
    assert_eq!(op.apply2(Literal::U16(2), Literal::U32(3)), Some(Literal::U16(8)));
    let family = Value::List(vec![s("#Opr"), s("U17"), Value::Integer(16)]);
    assert_eq!(PrimOp::from_ipld(&family), Err(IpldError::UnknownTag(family.clone())));
    let tag = Value::List(vec![s("#Opr"), s("U16"), Value::Integer(36)]);
    assert_eq!(PrimOp::from_ipld(&tag), Err(IpldError::NatOp(Value::Integer(36))));
    let shape = Value::List(vec![s("#Opr"), s("U16")]);
    assert_eq!(PrimOp::from_ipld(&shape), Err(IpldError::InvalidShape(shape.clone())));
}

#[test]
fn uses_ipld() {
    for (u, name) in
        [(Uses::Zero, "none"), (Uses::Affine, "affine"), (Uses::Once, "once"), (Uses::Many, "many")]
    {
        assert_eq!(u.to_ipld(), s(name));
        assert_eq!(Uses::from_ipld(&u.to_ipld()), Ok(u));
    }
    assert_eq!(Uses::from_ipld(&s("twice")), Err(IpldError::UnknownTag(s("twice"))));
    assert_eq!(Uses::from_ipld(&Value::Integer(1)), Err(IpldError::InvalidShape(Value::Integer(1))));
}

#[test]
fn big_numbers() {
    assert_eq!(BigNat::from_u64(0), BigNat { limbs: vec![] });
    assert_eq!(BigNat::from_u128(1 << 64), BigNat { limbs: vec![0, 1] });
    assert_eq!(BigNat::from_u128(u128::MAX), BigNat { limbs: vec![u64::MAX, u64::MAX] });
    assert_eq!(BigNat { limbs: vec![3, 0, 0] }.normalize(), BigNat { limbs: vec![3] });
    assert_eq!(BigNat { limbs: vec![0, 0] }.normalize(), BigNat { limbs: vec![] });
    assert_eq!(BigNat { limbs: vec![3, 4] }.to_u128(), Some(3 + (4u128 << 64)));
    assert_eq!(BigNat { limbs: vec![3, 4, 0] }.to_u128(), Some(3 + (4u128 << 64)));
    assert_eq!(BigNat { limbs: vec![3, 4, 1] }.to_u128(), None);
    assert_eq!(
        BigInt::from_i128(i128::MIN),
        BigInt { negative: true, magnitude: BigNat { limbs: vec![0, 1 << 63] } }
    );
    assert_eq!(BigInt::from_i128(i128::MIN).to_i128(), Some(i128::MIN));
    assert_eq!(BigInt::from_i128(-1).to_i128(), Some(-1));
    assert_eq!(BigInt::from_i128(i128::MAX).to_i128(), Some(i128::MAX));
    assert_eq!(
        BigInt { negative: false, magnitude: BigNat { limbs: vec![0, 1 << 63] } }.to_i128(),
        None
    );
    assert_eq!(
        BigInt { negative: true, magnitude: BigNat { limbs: vec![0, 0] } }.normalize(),
        BigInt { negative: false, magnitude: BigNat { limbs: vec![] } }
    );
    assert_eq!(BigNat::from_ipld(&BigNat { limbs: vec![1, 2, 3] }.to_ipld()), Some(BigNat { limbs: vec![1, 2, 3] }));
    assert_eq!(BigInt::from_ipld(&Value::Integer(-5)), Some(BigInt::from_i128(-5)));
}

#[test]
fn literals_are_the_same_by_what_they_hold() {
    let all = samples();
    for (i, x) in all.iter().enumerate() {
        for (j, y) in all.iter().enumerate() {
            assert_eq!(x.same(y), i == j, "{:?} {:?}", x, y);
        }
    }
    let padded = Literal::Nat(BigNat { limbs: vec![7, 0] });
    assert!(padded.same(&Literal::Nat(BigNat { limbs: vec![7] })));
    assert_ne!(padded, Literal::Nat(BigNat { limbs: vec![7] }));
    let minus_zero = BigInt { negative: true, magnitude: BigNat { limbs: vec![0] } };
    assert!(minus_zero.same(&BigInt::from_i128(0)));
    assert!(!BigInt::from_i128(-1).same(&BigInt::from_i128(1)));
    assert!(BigNat { limbs: vec![1, 2] }.same(&BigNat { limbs: vec![1, 2, 0, 0] }));
    assert!(!BigNat { limbs: vec![1, 2] }.same(&BigNat { limbs: vec![1, 3] }));
    assert!(!Literal::U8(1).same(&Literal::U16(1)));
}
