//! Sums and products modulo a number.

use vstd::arithmetic::div_mod::{
    lemma_add_mod_noop, lemma_add_mod_noop_right, lemma_mod_twice, lemma_mul_mod_noop_left,
    lemma_mul_mod_noop_right,
};
use vstd::prelude::*;

verus! {

/// Reducing one summand first does not change a sum modulo `m`.
pub proof fn lemma_mod_add(x: int, y: int, m: int)
    requires
        m > 0,
    ensures
        ((x % m) + y) % m == (x + y) % m,
        ((x % m) + (y % m)) % m == (x + y) % m,
{
    lemma_add_mod_noop(x, y, m);
    lemma_add_mod_noop_right(x % m, y, m);
}

/// Reducing first does not change a multiple modulo `m`.
pub proof fn lemma_mod_scale(k: int, x: int, m: int)
    requires
        m > 0,
    ensures
        (k * (x % m)) % m == (k * x) % m,
{
    lemma_mul_mod_noop_right(k, x, m);
}

/// Reducing a factor first does not change a product modulo `m`.
pub proof fn lemma_mod_mul(x: int, y: int, m: int)
    requires
        m > 0,
    ensures
        ((x % m) * y) % m == (x * y) % m,
        (x * (y % m)) % m == (x * y) % m,
{
    lemma_mul_mod_noop_left(x, y, m);
    lemma_mul_mod_noop_right(x, y, m);
}

/// Reducing the parts first does not change a multiple and a summand
/// modulo `m`.
pub proof fn lemma_mod_combine(k: int, x: int, y: int, m: int)
    requires
        m > 0,
    ensures
        (k * (x % m) + (y % m)) % m == (k * x + y) % m,
{
    lemma_mul_mod_noop_right(k, x, m);
    lemma_add_mod_noop(k * (x % m), y % m, m);
    lemma_mod_twice(y, m);
    lemma_add_mod_noop(k * x, y, m);
}

} // verus!
