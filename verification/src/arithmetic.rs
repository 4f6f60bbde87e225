//! Quotients and remainders of neighbouring numbers.

use vstd::prelude::*;
use vstd::arithmetic::div_mod::{
    lemma_div_is_ordered,
    lemma_div_multiples_vanish,
    lemma_div_plus_one,
    lemma_fundamental_div_mod,
    lemma_fundamental_div_mod_converse,
    lemma_mod_pos_bound,
    lemma_multiply_divide_lt,
};

verus! {

/// A multiple of `d` begins the quotient after that of its predecessor.
pub proof fn lemma_div_at_multiple(i: int, d: int)
    requires
        0 < d,
        0 < i,
        i % d == 0,
    ensures
        i / d == (i - 1) / d + 1,
{
    lemma_fundamental_div_mod(i, d);
    assert(i - 1 == (i / d - 1) * d + (d - 1)) by (nonlinear_arith)
        requires
            i == d * (i / d) + i % d,
            i % d == 0,
    ;
    lemma_fundamental_div_mod_converse(i - 1, d, i / d - 1, d - 1);
}

/// A number that is no multiple of `d` shares the quotient of its
/// predecessor.
pub proof fn lemma_div_between_multiples(i: int, d: int)
    requires
        0 < d,
        0 < i,
        i % d != 0,
    ensures
        i / d == (i - 1) / d,
{
    lemma_fundamental_div_mod(i, d);
    lemma_mod_pos_bound(i, d);
    assert(i - 1 == (i / d) * d + (i % d - 1)) by (nonlinear_arith)
        requires
            i == d * (i / d) + i % d,
    ;
    lemma_fundamental_div_mod_converse(i - 1, d, i / d, i % d - 1);
}

/// The quotient rounded up is one more than the quotient of the predecessor.
pub proof fn lemma_div_rounded_up(k: int, d: int)
    requires
        0 < d,
        0 < k,
    ensures
        (k + d - 1) / d == (k - 1) / d + 1,
{
    lemma_div_plus_one(k - 1, d);
    assert(d + (k - 1) == k + d - 1);
}

/// From the multiple `q * d` on, no quotient is below `q`.
pub proof fn lemma_div_from_multiple(j: int, q: int, d: int)
    requires
        0 < d,
        q * d <= j,
    ensures
        q <= j / d,
{
    assert(q * d == d * q) by (nonlinear_arith);
    lemma_div_multiples_vanish(q, d);
    lemma_div_is_ordered(d * q, j, d);
}

/// Below the multiple `q * d`, every quotient is below `q`.
pub proof fn lemma_div_before_multiple(j: int, q: int, d: int)
    requires
        0 < d,
        j < q * d,
    ensures
        j / d < q,
{
    assert(q * d == d * q) by (nonlinear_arith);
    lemma_multiply_divide_lt(j, d, q);
}

/// A multiple is its quotient times the divisor.
pub proof fn lemma_multiple(i: int, d: int)
    requires
        0 < d,
        i % d == 0,
    ensures
        i == (i / d) * d,
{
    lemma_fundamental_div_mod(i, d);
    assert(d * (i / d) == (i / d) * d) by (nonlinear_arith);
}

} // verus!
