//! The width of the windows, chosen from the number of exponents.

use vstd::arithmetic::power2::{
    lemma2_to64, lemma_pow2_strictly_increases, lemma_pow2_unfold, pow2,
};
use vstd::prelude::*;

verus! {

/// The whole part of `e^k`, Euler's number to the power `k`, for `k` up to
/// 45. It is the largest count for which `k` is at least the natural
/// logarithm.
pub open spec fn exp_floor(k: nat) -> nat {
    if k == 0 {
        1
    } else if k == 1 {
        2
    } else if k == 2 {
        7
    } else if k == 3 {
        20
    } else if k == 4 {
        54
    } else if k == 5 {
        148
    } else if k == 6 {
        403
    } else if k == 7 {
        1_096
    } else if k == 8 {
        2_980
    } else if k == 9 {
        8_103
    } else if k == 10 {
        22_026
    } else if k == 11 {
        59_874
    } else if k == 12 {
        162_754
    } else if k == 13 {
        442_413
    } else if k == 14 {
        1_202_604
    } else if k == 15 {
        3_269_017
    } else if k == 16 {
        8_886_110
    } else if k == 17 {
        24_154_952
    } else if k == 18 {
        65_659_969
    } else if k == 19 {
        178_482_300
    } else if k == 20 {
        485_165_195
    } else if k == 21 {
        1_318_815_734
    } else if k == 22 {
        3_584_912_846
    } else if k == 23 {
        9_744_803_446
    } else if k == 24 {
        26_489_122_129
    } else if k == 25 {
        72_004_899_337
    } else if k == 26 {
        195_729_609_428
    } else if k == 27 {
        532_048_240_601
    } else if k == 28 {
        1_446_257_064_291
    } else if k == 29 {
        3_931_334_297_144
    } else if k == 30 {
        10_686_474_581_524
    } else if k == 31 {
        29_048_849_665_247
    } else if k == 32 {
        78_962_960_182_680
    } else if k == 33 {
        214_643_579_785_916
    } else if k == 34 {
        583_461_742_527_454
    } else if k == 35 {
        1_586_013_452_313_430
    } else if k == 36 {
        4_311_231_547_115_195
    } else if k == 37 {
        11_719_142_372_802_611
    } else if k == 38 {
        31_855_931_757_113_756
    } else if k == 39 {
        86_593_400_423_993_746
    } else if k == 40 {
        235_385_266_837_019_985
    } else if k == 41 {
        639_843_493_530_054_949
    } else if k == 42 {
        1_739_274_941_520_501_047
    } else if k == 43 {
        4_727_839_468_229_346_561
    } else if k == 44 {
        12_851_600_114_359_308_275
    } else {
        34_934_271_057_485_095_348
    }
}

/// The least width from `c` on, and no more than 45, for which `e` to the
/// power of the width reaches `n`.
pub open spec fn width_from(n: nat, c: nat) -> nat
    decreases 45 - c,
{
    if c >= 45 || n <= exp_floor(c) {
        c
    } else {
        width_from(n, c + 1)
    }
}

/// The width of the windows for `n` exponents: three bits below 32
/// exponents, and from there on the natural logarithm of `n`, rounded up.
pub open spec fn width_of(n: nat) -> nat {
    if n < 32 {
        3
    } else {
        width_from(n, 4)
    }
}

/// Whether `c` is the natural logarithm of `n`, rounded up, for `n` from
/// 32 on, and three below: whether `e^(c - 1) < n <= e^c`.
pub open spec fn width_for(n: nat, c: nat) -> bool {
    if n < 32 {
        c == 3
    } else {
        4 <= c <= 45 && exp_floor((c - 1) as nat) < n <= exp_floor(c)
    }
}

/// The width of the windows is the logarithm, rounded up, for every count
/// that a `u64` holds, and some more.
pub proof fn width_is_logarithm(n: nat)
    requires
        n <= exp_floor(45),
    ensures
        width_for(n, width_of(n)),
{
    if n >= 32 {
        lemma_width_from(n, 4);
    }
}

proof fn lemma_width_from(n: nat, c: nat)
    requires
        4 <= c <= 45,
        32 <= n,
        exp_floor((c - 1) as nat) < n <= exp_floor(45),
    ensures
        width_for(n, width_from(n, c)),
    decreases 45 - c,
{
    if c < 45 && n > exp_floor(c) {
        lemma_width_from(n, c + 1);
    }
}

/// A width chosen for `n` exponents gives no more buckets than there are
/// exponents, or seven of them.
pub proof fn lemma_width_small(n: nat, c: nat)
    requires
        width_for(n, c),
    ensures
        pow2(c) <= if n < 32 {
            8
        } else {
            n
        },
{
    lemma2_to64();
    if n >= 32 {
        assert(pow2(c) <= exp_floor((c - 1) as nat)) by {
            lemma_pow2_below_exp_floor(c);
        }
    }
}

proof fn lemma_pow2_below_exp_floor(c: nat)
    requires
        4 <= c <= 45,
    ensures
        pow2(c) <= exp_floor((c - 1) as nat),
    decreases c,
{
    if c == 4 {
        lemma2_to64();
    } else {
        lemma_pow2_below_exp_floor((c - 1) as nat);
        lemma_pow2_unfold(c);
    }
}

/// The whole part of `e^k` for `k` up to 44, the last that a `u64` holds.
fn exp_floor_u64(k: u32) -> (r: u64)
    requires
        k <= 44,
    ensures
        r == exp_floor(k as nat),
{
    if k == 0 {
        1
    } else if k == 1 {
        2
    } else if k == 2 {
        7
    } else if k == 3 {
        20
    } else if k == 4 {
        54
    } else if k == 5 {
        148
    } else if k == 6 {
        403
    } else if k == 7 {
        1_096
    } else if k == 8 {
        2_980
    } else if k == 9 {
        8_103
    } else if k == 10 {
        22_026
    } else if k == 11 {
        59_874
    } else if k == 12 {
        162_754
    } else if k == 13 {
        442_413
    } else if k == 14 {
        1_202_604
    } else if k == 15 {
        3_269_017
    } else if k == 16 {
        8_886_110
    } else if k == 17 {
        24_154_952
    } else if k == 18 {
        65_659_969
    } else if k == 19 {
        178_482_300
    } else if k == 20 {
        485_165_195
    } else if k == 21 {
        1_318_815_734
    } else if k == 22 {
        3_584_912_846
    } else if k == 23 {
        9_744_803_446
    } else if k == 24 {
        26_489_122_129
    } else if k == 25 {
        72_004_899_337
    } else if k == 26 {
        195_729_609_428
    } else if k == 27 {
        532_048_240_601
    } else if k == 28 {
        1_446_257_064_291
    } else if k == 29 {
        3_931_334_297_144
    } else if k == 30 {
        10_686_474_581_524
    } else if k == 31 {
        29_048_849_665_247
    } else if k == 32 {
        78_962_960_182_680
    } else if k == 33 {
        214_643_579_785_916
    } else if k == 34 {
        583_461_742_527_454
    } else if k == 35 {
        1_586_013_452_313_430
    } else if k == 36 {
        4_311_231_547_115_195
    } else if k == 37 {
        11_719_142_372_802_611
    } else if k == 38 {
        31_855_931_757_113_756
    } else if k == 39 {
        86_593_400_423_993_746
    } else if k == 40 {
        235_385_266_837_019_985
    } else if k == 41 {
        639_843_493_530_054_949
    } else if k == 42 {
        1_739_274_941_520_501_047
    } else if k == 43 {
        4_727_839_468_229_346_561
    } else {
        12_851_600_114_359_308_275
    }
}

/// The width of the windows for `n` exponents.
pub fn window_width(n: usize) -> (c: u32)
    ensures
        c == width_of(n as nat),
        0 < c < usize::BITS,
{
    if n < 32 {
        return 3;
    }
    let mut c: u32 = 4;
    while c < 45 && exp_floor_u64(c) < n as u64
        invariant
            4 <= c <= 45,
            n >= 32,
            exp_floor((c - 1) as nat) < n,
            width_from(n as nat, 4) == width_from(n as nat, c as nat),
        decreases 45 - c,
    {
        c += 1;
    }
    proof {
        lemma_width_small(n as nat, c as nat);
        lemma_width_fits(n, c);
    }
    c
}

/// As many buckets as there are exponents can be counted in a `usize`.
proof fn lemma_width_fits(n: usize, c: u32)
    requires
        pow2(c as nat) <= n,
    ensures
        c < usize::BITS,
{
    if c >= usize::BITS {
        lemma2_to64();
        if c > usize::BITS {
            lemma_pow2_strictly_increases(usize::BITS as nat, c as nat);
        }
    }
}

} // verus!
