//! Natural numbers and integers of any size, as limbs of 64 bits.

use vstd::prelude::*;

verus! {

/// The weight of one limb.
pub open spec fn limb() -> nat {
    0x1_0000_0000_0000_0000
}

/// The number that limbs stand for, the least significant first.
pub open spec fn limbs_value(limbs: Seq<u64>) -> nat
    decreases limbs.len(),
{
    if limbs.len() == 0 {
        0
    } else {
        limbs[0] as nat + limb() * limbs_value(limbs.drop_first())
    }
}

/// The limbs of a number, the least significant first and the last not
/// zero.
pub open spec fn limbs_of(n: nat) -> Seq<u64>
    decreases n,
{
    if n == 0 {
        Seq::empty()
    } else {
        seq![(n % limb()) as u64] + limbs_of(n / limb())
    }
}

/// Whether no limb is wasted: the most significant one is not zero.
pub open spec fn trimmed(limbs: Seq<u64>) -> bool {
    limbs.len() > 0 ==> limbs.last() != 0
}

/// The limbs of a number stand for it, and none of them is wasted.
pub proof fn lemma_limbs_of(n: nat)
    ensures
        limbs_value(limbs_of(n)) == n,
        trimmed(limbs_of(n)),
        n > 0 ==> limbs_of(n).len() > 0,
    decreases n,
{
    if n != 0 {
        let low = (n % limb()) as u64;
        let high = n / limb();
        lemma_limbs_of(high);
        let s = seq![low] + limbs_of(high);
        assert(s.drop_first() =~= limbs_of(high));
        assert(s[0] == low);
        if high == 0 {
            assert(s =~= seq![low]);
            assert(s.last() == low);
        } else {
            assert(s.last() == limbs_of(high).last());
        }
    }
}

/// Limbs of which none is wasted are the limbs of the number they stand for.
pub proof fn lemma_limbs_unique(limbs: Seq<u64>)
    requires
        trimmed(limbs),
    ensures
        limbs_of(limbs_value(limbs)) == limbs,
    decreases limbs.len(),
{
    if limbs.len() == 0 {
    } else {
        let rest = limbs.drop_first();
        assert(trimmed(rest)) by {
            if rest.len() > 0 {
                assert(rest.last() == limbs.last());
            }
        }
        lemma_limbs_unique(rest);
        let n = limbs_value(limbs);
        let high = limbs_value(rest);
        assert(n == limbs[0] as nat + limb() * high);
        lemma_trimmed_positive(limbs);
        assert(n / limb() == high && n % limb() == limbs[0] as nat) by (nonlinear_arith)
            requires
                n == limbs[0] as nat + limb() * high,
                limbs[0] < limb(),
                limb() == 0x1_0000_0000_0000_0000,
        ;
        assert(seq![limbs[0]] + rest =~= limbs);
    }
}

/// Limbs of which the last is not zero stand for a number that is not zero.
pub proof fn lemma_trimmed_positive(limbs: Seq<u64>)
    requires
        limbs.len() > 0,
        limbs.last() != 0,
    ensures
        limbs_value(limbs) > 0,
    decreases limbs.len(),
{
    let rest = limbs.drop_first();
    if rest.len() > 0 {
        assert(rest.last() == limbs.last());
        lemma_trimmed_positive(rest);
        assert(limb() * limbs_value(rest) > 0) by (nonlinear_arith)
            requires
                limbs_value(rest) > 0,
                limb() == 0x1_0000_0000_0000_0000,
        ;
    } else {
        assert(limbs[0] == limbs.last());
    }
}

/// What at most two limbs stand for, and how large three or more are.
pub proof fn lemma_limbs_small(limbs: Seq<u64>)
    ensures
        limbs.len() == 0 ==> limbs_value(limbs) == 0,
        limbs.len() == 1 ==> limbs_value(limbs) == limbs[0],
        limbs.len() == 2 ==> limbs_value(limbs) == limbs[0] + limb() * limbs[1],
        limbs.len() >= 3 && limbs.last() != 0 ==> limbs_value(limbs) >= limb() * limb(),
{
    reveal_with_fuel(limbs_value, 3);
    if limbs.len() == 1 {
        assert(limbs.drop_first().len() == 0);
    } else if limbs.len() == 2 {
        assert(limbs.drop_first().drop_first().len() == 0);
        assert(limbs.drop_first()[0] == limbs[1]);
    } else if limbs.len() >= 3 && limbs.last() != 0 {
        let tail = limbs.drop_first().drop_first();
        assert(tail.last() == limbs.last());
        lemma_trimmed_positive(tail);
        let a = limbs_value(tail);
        let b = limbs.drop_first()[0] as nat + limb() * a;
        assert(limbs_value(limbs.drop_first()) == b);
        assert(limbs[0] as nat + limb() * b >= limb() * limb()) by (nonlinear_arith)
            requires
                b >= limb() * a,
                a >= 1,
                limb() == 0x1_0000_0000_0000_0000,
        ;
    }
}

/// A natural number of any size. With `==` two of them are compared limb by
/// limb: that is the equality of the numbers where no limb is wasted.
#[derive(Debug, PartialEq, Eq)]
pub struct BigNat {
    /// The limbs, the least significant first.
    pub limbs: Vec<u64>,
}

impl View for BigNat {
    type V = nat;

    open spec fn view(&self) -> nat {
        limbs_value(self.limbs@)
    }
}

fn copy_limbs(v: &Vec<u64>, n: usize) -> (r: Vec<u64>)
    requires
        n <= v.len(),
    ensures
        r@ == v@.take(n as int),
{
    let mut r: Vec<u64> = Vec::new();
    let mut i: usize = 0;
    while i < n
        invariant
            i <= n <= v.len(),
            r@ == v@.take(i as int),
        decreases n - i,
    {
        r.push(v[i]);
        assert(v@.take(i as int).push(v@[i as int]) == v@.take(i + 1));
        i += 1;
    }
    r
}

/// Dropping limbs that are zero at the most significant end changes nothing.
proof fn lemma_drop_zero(limbs: Seq<u64>)
    requires
        limbs.len() > 0,
        limbs.last() == 0,
    ensures
        limbs_value(limbs.drop_last()) == limbs_value(limbs),
    decreases limbs.len(),
{
    if limbs.len() == 1 {
        assert(limbs.drop_last().len() == 0);
        assert(limbs.drop_first().len() == 0);
        assert(limbs[0] == limbs.last());
        assert(limbs_value(limbs.drop_first()) == 0);
        assert(limbs_value(limbs) == 0);
    } else {
        let rest = limbs.drop_first();
        let front = limbs.drop_last();
        assert(rest.last() == limbs.last());
        lemma_drop_zero(rest);
        assert(front.drop_first() =~= rest.drop_last());
        assert(front[0] == limbs[0]);
        assert(limbs_value(front) == front[0] as nat + limb() * limbs_value(front.drop_first()));
    }
}

impl BigNat {
    /// No limb is wasted: the most significant one is not zero.
    pub open spec fn wf(&self) -> bool {
        trimmed(self.limbs@)
    }

    /// The number `x`.
    pub fn from_u64(x: u64) -> (n: BigNat)
        ensures
            n@ == x,
            n.wf(),
    {
        let mut limbs: Vec<u64> = Vec::new();
        if x != 0 {
            limbs.push(x);
        }
        proof {
            lemma_limbs_small(limbs@);
        }
        BigNat { limbs }
    }

    /// The number `x`.
    pub fn from_u128(x: u128) -> (n: BigNat)
        ensures
            n@ == x,
            n.wf(),
    {
        let low: u64 = (x % 0x1_0000_0000_0000_0000) as u64;
        let high: u64 = (x / 0x1_0000_0000_0000_0000) as u64;
        let mut limbs: Vec<u64> = Vec::new();
        if high != 0 {
            limbs.push(low);
            limbs.push(high);
        } else if low != 0 {
            limbs.push(low);
        }
        proof {
            lemma_limbs_small(limbs@);
        }
        BigNat { limbs }
    }

    /// The same number without wasted limbs.
    pub fn normalize(&self) -> (n: BigNat)
        ensures
            n@ == self@,
            n.wf(),
    {
        let mut len: usize = self.limbs.len();
        assert(self.limbs@.take(len as int) == self.limbs@);
        while len > 0 && self.limbs[len - 1] == 0
            invariant
                len <= self.limbs.len(),
                limbs_value(self.limbs@.take(len as int)) == limbs_value(self.limbs@),
            decreases len,
        {
            proof {
                let s = self.limbs@.take(len as int);
                assert(s.last() == self.limbs@[len - 1]);
                lemma_drop_zero(s);
                assert(s.drop_last() =~= self.limbs@.take(len - 1));
            }
            len -= 1;
        }
        proof {
            assert(self.limbs@.take(self.limbs.len() as int) == self.limbs@);
            if len > 0 {
                assert(self.limbs@.take(len as int).last() == self.limbs@[len - 1]);
            }
        }
        BigNat { limbs: copy_limbs(&self.limbs, len) }
    }

    /// The number as 128 bits, where it fits.
    pub fn to_u128(&self) -> (r: Option<u128>)
        ensures
            r matches Some(x) ==> x == self@,
            r is None ==> self@ > u128::MAX,
    {
        let n = self.normalize();
        proof {
            lemma_limbs_small(n.limbs@);
        }
        if n.limbs.len() == 0 {
            Some(0)
        } else if n.limbs.len() == 1 {
            Some(n.limbs[0] as u128)
        } else if n.limbs.len() == 2 {
            let low: u128 = n.limbs[0] as u128;
            let high: u128 = n.limbs[1] as u128;
            assert(low + 0x1_0000_0000_0000_0000 * high <= u128::MAX) by (nonlinear_arith)
                requires
                    low <= 0xffff_ffff_ffff_ffff,
                    high <= 0xffff_ffff_ffff_ffff,
            ;
            Some(low + 0x1_0000_0000_0000_0000 * high)
        } else {
            assert(limb() * limb() > u128::MAX) by (nonlinear_arith)
                requires
                    limb() == 0x1_0000_0000_0000_0000,
            ;
            None
        }
    }
}

impl BigNat {
    /// Whether two numbers are the same.
    pub fn same(&self, other: &BigNat) -> (b: bool)
        ensures
            b == (self@ == other@),
    {
        let a = self.normalize();
        let c = other.normalize();
        proof {
            lemma_limbs_unique(a.limbs@);
            lemma_limbs_unique(c.limbs@);
        }
        if a.limbs.len() != c.limbs.len() {
            return false;
        }
        let mut i: usize = 0;
        while i < a.limbs.len()
            invariant
                i <= a.limbs.len(),
                a.limbs.len() == c.limbs.len(),
                a@ == self@,
                c@ == other@,
                limbs_of(a@) == a.limbs@,
                limbs_of(c@) == c.limbs@,
                forall|j: int| 0 <= j < i ==> a.limbs[j] == c.limbs[j],
            decreases a.limbs.len() - i,
        {
            if a.limbs[i] != c.limbs[i] {
                return false;
            }
            i += 1;
        }
        assert(a.limbs@ =~= c.limbs@);
        true
    }
}

impl Clone for BigNat {
    fn clone(&self) -> (r: Self)
        ensures
            r@ == self@,
            r.limbs@ == self.limbs@,
    {
        let limbs = copy_limbs(&self.limbs, self.limbs.len());
        assert(self.limbs@.take(self.limbs.len() as int) == self.limbs@);
        BigNat { limbs }
    }
}

/// An integer of any size: a sign and a magnitude.
#[derive(Debug, PartialEq, Eq)]
pub struct BigInt {
    pub negative: bool,
    pub magnitude: BigNat,
}

impl View for BigInt {
    type V = int;

    open spec fn view(&self) -> int {
        if self.negative {
            -(self.magnitude@ as int)
        } else {
            self.magnitude@ as int
        }
    }
}

impl BigInt {
    /// Zero has no sign, and the magnitude wastes no limb.
    pub open spec fn wf(&self) -> bool {
        &&& self.magnitude.wf()
        &&& self.negative ==> self.magnitude@ != 0
    }

    /// The number `x`.
    pub fn from_u64(x: u64) -> (n: BigInt)
        ensures
            n@ == x,
            n.wf(),
    {
        BigInt { negative: false, magnitude: BigNat::from_u64(x) }
    }

    /// The number `x`.
    pub fn from_i128(x: i128) -> (n: BigInt)
        ensures
            n@ == x,
            n.wf(),
    {
        if x < 0 {
            let magnitude: u128 = if x == i128::MIN {
                0x8000_0000_0000_0000_0000_0000_0000_0000
            } else {
                (-x) as u128
            };
            BigInt { negative: true, magnitude: BigNat::from_u128(magnitude) }
        } else {
            BigInt { negative: false, magnitude: BigNat::from_u128(x as u128) }
        }
    }

    /// The number as 128 bits and a sign, where it fits.
    pub fn to_i128(&self) -> (r: Option<i128>)
        ensures
            r matches Some(x) ==> x == self@,
            r is None ==> self@ < i128::MIN || self@ > i128::MAX,
    {
        match self.magnitude.to_u128() {
            None => None,
            Some(m) => {
                if self.negative {
                    if m <= 0x7fff_ffff_ffff_ffff_ffff_ffff_ffff_ffff {
                        Some(-(m as i128))
                    } else if m == 0x8000_0000_0000_0000_0000_0000_0000_0000 {
                        Some(i128::MIN)
                    } else {
                        None
                    }
                } else {
                    if m <= 0x7fff_ffff_ffff_ffff_ffff_ffff_ffff_ffff {
                        Some(m as i128)
                    } else {
                        None
                    }
                }
            },
        }
    }
}

impl BigInt {
    /// Whether two numbers are the same.
    pub fn same(&self, other: &BigInt) -> (b: bool)
        ensures
            b == (self@ == other@),
    {
        let zero = BigNat::from_u64(0);
        let a_zero = self.magnitude.same(&zero);
        let b_zero = other.magnitude.same(&zero);
        if a_zero || b_zero {
            return a_zero && b_zero;
        }
        self.negative == other.negative && self.magnitude.same(&other.magnitude)
    }
}

impl Clone for BigInt {
    fn clone(&self) -> (r: Self)
        ensures
            r@ == self@,
    {
        BigInt { negative: self.negative, magnitude: self.magnitude.clone() }
    }
}

} // verus!
