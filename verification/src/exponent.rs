//! Exponents: fixed-width unsigned numbers read a few bits at a time.

use vstd::arithmetic::div_mod::*;
use vstd::arithmetic::mul::*;
use vstd::arithmetic::power2::*;
use vstd::bits::*;
use vstd::prelude::*;

verus! {

/// A 256-bit unsigned number in four 64-bit limbs, least significant first.
/// This is the form in which a scalar of the field leaves the field
/// arithmetic and enters a multiexponentiation.
#[derive(Clone, Copy, Debug, PartialEq, Eq)]
pub struct Exponent {
    pub limbs: [u64; 4],
}

/// The number that four limbs stand for.
pub open spec fn limbs_value(l0: u64, l1: u64, l2: u64, l3: u64) -> nat {
    (l0 as nat) + (l1 as nat) * 0x1_0000_0000_0000_0000 + (l2 as nat)
        * 0x1_0000_0000_0000_0000_0000_0000_0000_0000nat + (l3 as nat)
        * 0x1_0000_0000_0000_0000_0000_0000_0000_0000_0000_0000_0000_0000nat
}

/// The `c` bits of `value` that start at bit `skip`, as a number.
pub open spec fn bits_at(value: nat, skip: nat, c: nat) -> nat {
    (value / pow2(skip)) % pow2(c)
}

/// The powers of two at the limb boundaries.
proof fn lemma_limb_weights()
    ensures
        pow2(64) == 0x1_0000_0000_0000_0000,
        pow2(128) == 0x1_0000_0000_0000_0000_0000_0000_0000_0000int,
        pow2(192) == 0x1_0000_0000_0000_0000_0000_0000_0000_0000_0000_0000_0000_0000int,
        pow2(256)
            == 0x1_0000_0000_0000_0000_0000_0000_0000_0000_0000_0000_0000_0000_0000_0000_0000_0000int,
{
    lemma2_to64();
    lemma_pow2_adds(64, 64);
    lemma_pow2_adds(128, 64);
    lemma_pow2_adds(192, 64);
}

/// Dropping `q` whole limbs from the low end divides by `2^(64 q)`.
proof fn lemma_drop_limbs(l0: u64, l1: u64, l2: u64, l3: u64, q: nat)
    requires
        q < 4,
    ensures
        limbs_value(l0, l1, l2, l3) / pow2(64 * q) == (if q == 0 {
            limbs_value(l0, l1, l2, l3)
        } else if q == 1 {
            limbs_value(l1, l2, l3, 0)
        } else if q == 2 {
            limbs_value(l2, l3, 0, 0)
        } else {
            limbs_value(l3, 0, 0, 0)
        }),
{
    lemma_limb_weights();
    lemma2_to64();
    let v = limbs_value(l0, l1, l2, l3) as int;
    if q == 0 {
        assert(pow2(64 * q) == 1);
    } else if q == 1 {
        let u = limbs_value(l1, l2, l3, 0) as int;
        let d = 0x1_0000_0000_0000_0000int;
        lemma_fundamental_div_mod_converse(v, d, u, l0 as int);
    } else if q == 2 {
        let u = limbs_value(l2, l3, 0, 0) as int;
        let d = 0x1_0000_0000_0000_0000_0000_0000_0000_0000int;
        let low = l0 + l1 * 0x1_0000_0000_0000_0000;
        lemma_fundamental_div_mod_converse(v, d, u, low);
    } else {
        let u = limbs_value(l3, 0, 0, 0) as int;
        let d = 0x1_0000_0000_0000_0000_0000_0000_0000_0000_0000_0000_0000_0000int;
        let low = l0 + l1 * 0x1_0000_0000_0000_0000 + l2
            * 0x1_0000_0000_0000_0000_0000_0000_0000_0000int;
        lemma_fundamental_div_mod_converse(v, d, u, low);
    }
}

/// Bits `[r, r + c)` of a number depend only on its low 128 bits when
/// `r + c <= 128`.
proof fn lemma_high_part_unseen(low: nat, high: nat, r: nat, c: nat)
    requires
        r + c <= 128,
    ensures
        bits_at(low + high * pow2(128), r, c) == bits_at(low, r, c),
{
    let k = (128 - r - c) as nat;
    lemma_pow2_adds(r, (128 - r) as nat);
    lemma_pow2_adds(c, k);
    lemma_pow2_pos(r);
    lemma_pow2_pos(c);
    let pr = pow2(r) as int;
    let pc = pow2(c) as int;
    let pk = pow2(k) as int;
    // low + high * 2^128 == low + (high * 2^k * 2^c) * 2^r
    let j = high * pk * pc;
    assert(high * pow2(128) == j * pr) by (nonlinear_arith)
        requires
            pow2(128) == pr * pow2((128 - r) as nat),
            pow2((128 - r) as nat) == pc * pk,
            j == high * pk * pc,
    ;
    lemma_hoist_over_denominator(low as int, j, pr as nat);
    lemma_mod_multiples_vanish(high * pk, low as int / pr, pc);
}

impl Exponent {
    /// The number that the limbs stand for.
    pub open spec fn value(&self) -> nat {
        limbs_value(self.limbs[0], self.limbs[1], self.limbs[2], self.limbs[3])
    }

    /// The exponent with the given limbs, least significant first.
    pub fn new(limbs: [u64; 4]) -> (e: Exponent)
        ensures
            e.limbs == limbs,
    {
        Exponent { limbs }
    }

    /// The exponent that stands for a small number.
    pub fn from_u64(x: u64) -> (e: Exponent)
        ensures
            e.value() == x,
    {
        Exponent { limbs: [x, 0, 0, 0] }
    }

    /// Whether this is the number zero.
    pub fn is_zero(&self) -> (b: bool)
        ensures
            b == (self.value() == 0),
    {
        self.limbs[0] == 0 && self.limbs[1] == 0 && self.limbs[2] == 0 && self.limbs[3] == 0
    }

    /// Whether this is the number one.
    pub fn is_one(&self) -> (b: bool)
        ensures
            b == (self.value() == 1),
    {
        self.limbs[0] == 1 && self.limbs[1] == 0 && self.limbs[2] == 0 && self.limbs[3] == 0
    }

    /// The `c` bits that start at bit `skip`, as a number: the exponent
    /// shifted right by `skip`, reduced modulo `2^c`. Bits past the top
    /// limb are zero.
    pub fn digit(&self, skip: u32, c: u32) -> (d: u64)
        requires
            c < 64,
        ensures
            d == bits_at(self.value(), skip as nat, c as nat),
            d < pow2(c as nat),
    {
        let q: u32 = skip / 64;
        let r: u32 = skip % 64;
        proof {
            lemma_limb_weights();
            lemma_pow2_pos(c as nat);
            lemma_pow2_pos(skip as nat);
            lemma_mod_bound(
                (self.value() / pow2(skip as nat)) as int,
                pow2(c as nat) as int,
            );
        }
        if q >= 4 {
            proof {
                // the value is below 2^256, which is at most 2^skip
                if skip > 256 {
                    lemma_pow2_strictly_increases(256, skip as nat);
                }
                lemma_basic_div(self.value() as int, pow2(skip as nat) as int);
                lemma_small_mod(0, pow2(c as nat));
            }
            return 0;
        }
        let lo: u64 = self.limbs[q as usize];
        let hi: u64 = if q < 3 {
            self.limbs[q as usize + 1]
        } else {
            0
        };
        let pair: u128 = (lo as u128) + (hi as u128) * 0x1_0000_0000_0000_0000u128;
        let shifted: u128 = pair >> (r as u128);
        let modulus: u64 = 1u64 << (c as u64);
        proof {
            lemma_u128_shr_is_div(pair, r as u128);
            lemma_u64_pow2_no_overflow(c as nat);
            lemma_u64_shl_is_mul(1, c as u64);
            // shifting by skip is dropping q limbs, then shifting by r
            let l0 = self.limbs[0];
            let l1 = self.limbs[1];
            let l2 = self.limbs[2];
            let l3 = self.limbs[3];
            lemma_drop_limbs(l0, l1, l2, l3, q as nat);
            lemma_pow2_adds(64 * (q as nat), r as nat);
            lemma_pow2_pos(64 * (q as nat));
            lemma_pow2_pos(r as nat);
            lemma_div_denominator(
                self.value() as int,
                pow2(64 * (q as nat)) as int,
                pow2(r as nat) as int,
            );
            // of what is left, only the two lowest limbs are seen
            let high: nat = if q == 0 {
                limbs_value(l2, l3, 0, 0)
            } else if q == 1 {
                limbs_value(l3, 0, 0, 0)
            } else {
                0
            };
            lemma_high_part_unseen(pair as nat, high, r as nat, c as nat);
        }
        (shifted % (modulus as u128)) as u64
    }
}

} // verus!
