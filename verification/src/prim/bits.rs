//! Numbers as bits and bytes, the most significant first.

use vstd::prelude::*;
use vstd::arithmetic::power::pow;

verus! {

/// How many digits of `x` in base two are one.
pub open spec fn count_ones(x: nat) -> nat
    decreases x,
{
    if x == 0 {
        0
    } else {
        (x % 2) + count_ones(x / 2)
    }
}

/// The `n` lowest digits of `x` in base two, the most significant first.
pub open spec fn bits_be(x: nat, n: nat) -> Seq<bool> {
    Seq::new(n, |i: int| (x as int / pow(2, (n - 1 - i) as nat)) % 2 == 1)
}

/// The `n` lowest digits of `x` in base 256, the most significant first.
pub open spec fn bytes_be(x: nat, n: nat) -> Seq<u8> {
    Seq::new(n, |i: int| ((x as int / pow(256, (n - 1 - i) as nat)) % 256) as u8)
}

/// A number below two to the `k` has at most `k` ones.
pub proof fn lemma_count_ones_bound(x: nat, k: nat)
    requires
        x < pow(2, k),
    ensures
        count_ones(x) <= k,
    decreases k,
{
    reveal(pow);
    if k == 0 {
        assert(x == 0);
    } else if x != 0 {
        assert(pow(2, k) == 2 * pow(2, (k - 1) as nat));
        lemma_count_ones_bound(x / 2, (k - 1) as nat);
    }
}

/// How many bits of `x` are one.
pub fn ones(x: u16) -> (n: u32)
    ensures
        n == count_ones(x as nat),
        n <= 16,
    decreases x,
{
    proof {
        assert(pow(2, 16) == 0x1_0000) by {
            reveal_with_fuel(pow, 17);
        }
        lemma_count_ones_bound(x as nat, 16);
    }
    if x == 0 {
        0
    } else {
        let rest: u32 = ones(x / 2);
        let low: u32 = (x % 2) as u32;
        low + rest
    }
}

/// The sixteen bits of `x`, the most significant first.
pub fn to_bits_be(x: u16) -> (bits: Vec<bool>)
    ensures
        bits@ == bits_be(x as nat, 16),
{
    let mut bits: Vec<bool> = Vec::new();
    let mut weight: u16 = 0x8000;
    let mut i: usize = 0;
    proof {
        assert(pow(2, 15) == 0x8000) by {
            reveal_with_fuel(pow, 16);
        }
    }
    while i < 16
        invariant
            i <= 16,
            i < 16 ==> weight as int == pow(2, (15 - i) as nat) && weight > 0,
            bits@ == bits_be(x as nat, 16).take(i as int),
        decreases 16 - i,
    {
        bits.push((x / weight) % 2 == 1);
        proof {
            reveal(pow);
            assert(bits_be(x as nat, 16).take(i as int).push(bits_be(x as nat, 16)[i as int])
                == bits_be(x as nat, 16).take(i + 1));
            if i < 15 {
                assert(pow(2, (15 - i) as nat) == 2 * pow(2, (14 - i) as nat));
                vstd::arithmetic::power::lemma_pow_positive(2, (14 - i) as nat);
            }
        }
        weight = weight / 2;
        i += 1;
    }
    assert(bits_be(x as nat, 16).take(16) == bits_be(x as nat, 16));
    bits
}

/// The two bytes of `x`, the most significant first.
pub fn to_bytes_be(x: u16) -> (bytes: Vec<u8>)
    ensures
        bytes@ == bytes_be(x as nat, 2),
{
    let mut bytes: Vec<u8> = Vec::new();
    bytes.push((x / 256) as u8);
    bytes.push((x % 256) as u8);
    proof {
        assert(pow(256, 1) == 256 && pow(256, 0) == 1) by {
            reveal_with_fuel(pow, 2);
        }
        assert(bytes@ =~= bytes_be(x as nat, 2));
    }
    bytes
}

} // verus!
