//! Powers that wrap.

use vstd::prelude::*;
use vstd::arithmetic::div_mod::lemma_mul_mod_noop_general;
use vstd::arithmetic::power::{lemma_pow_mod_noop, lemma_pow_multiplies, lemma_square_is_pow2, pow};

verus! {

/// One step of squaring: the product of `acc` and `base` to the `exp` keeps
/// its remainder by `m` when the base is squared and the exponent halved.
proof fn lemma_square_step(acc: int, base: int, exp: nat, m: int)
    requires
        exp > 0,
        m > 0,
    ensures
        ((if exp % 2 == 1 {
            (acc * base) % m
        } else {
            acc
        }) * pow((base * base) % m, exp / 2)) % m == (acc * pow(base, exp)) % m,
{
    let half = exp / 2;
    let square = base * base;
    let rest = pow(square, half);
    assert(rest == pow(base, 2 * half)) by {
        lemma_square_is_pow2(base);
        lemma_pow_multiplies(base, 2, half);
    }
    lemma_pow_mod_noop(square, half, m);
    if exp % 2 == 1 {
        assert(pow(base, exp) == base * rest) by {
            reveal(pow);
        }
        assert(acc * pow(base, exp) == (acc * base) * rest) by (nonlinear_arith)
            requires
                pow(base, exp) == base * rest,
        ;
        lemma_mul_mod_noop_general(acc * base, rest, m);
        lemma_mul_mod_noop_general((acc * base) % m, pow(square % m, half), m);
        lemma_mul_mod_noop_general((acc * base) % m, rest, m);
    } else {
        assert(pow(base, exp) == rest);
        lemma_mul_mod_noop_general(acc, pow(square % m, half), m);
        lemma_mul_mod_noop_general(acc, rest, m);
    }
}

/// `x` to the power of `y`, wrapped to 16 bits.
pub fn wrapping_pow_u16(x: u16, y: u32) -> (r: u16)
    ensures
        r as int == pow(x as int, y as nat) % 0x1_0000,
{
    let mut base: u32 = x as u32;
    let mut exp: u32 = y;
    let mut acc: u32 = 1;
    while exp > 0
        invariant
            acc < 0x1_0000,
            base < 0x1_0000,
            (acc * pow(base as int, exp as nat)) % 0x1_0000 == pow(x as int, y as nat) % 0x1_0000,
        decreases exp,
    {
        proof {
            lemma_square_step(acc as int, base as int, exp as nat, 0x1_0000);
        }
        assert(acc * base < 0x1_0000_0000) by (nonlinear_arith)
            requires
                acc < 0x1_0000,
                base < 0x1_0000,
        ;
        assert(base * base < 0x1_0000_0000) by (nonlinear_arith)
            requires
                base < 0x1_0000,
        ;
        if exp % 2 == 1 {
            acc = (acc * base) % 0x1_0000;
        }
        base = (base * base) % 0x1_0000;
        exp = exp / 2;
    }
    proof {
        reveal(pow);
    }
    acc as u16
}

} // verus!
