//! Facts about division and remainder that the track model rests on.

use vstd::arithmetic::div_mod::{
    lemma_add_mod_noop_right, lemma_fundamental_div_mod_converse, lemma_mod_bound,
};
use vstd::prelude::*;

verus! {

/// A remainder may be taken before or after something is added.
pub proof fn lemma_mod_add(x: int, y: int, m: int)
    requires
        0 < m,
    ensures
        ((x % m) + y) % m == (x + y) % m,
        0 <= x % m < m,
{
    lemma_add_mod_noop_right(y, x, m);
    lemma_mod_bound(x, m);
    assert((x % m) + y == y + (x % m));
    assert(x + y == y + x);
}

/// The remainder of a number within two moduli of zero.
pub proof fn lemma_mod_near(z: int, m: int)
    requires
        0 < m,
        -m <= z < 2 * m,
    ensures
        z % m == (if z < 0 {
            z + m
        } else if z < m {
            z
        } else {
            z - m
        }),
{
    if z < 0 {
        assert(z == (-1) * m + (z + m)) by (nonlinear_arith);
        lemma_fundamental_div_mod_converse(z, m, -1, z + m);
    } else if z < m {
        assert(z == 0 * m + z) by (nonlinear_arith);
        lemma_fundamental_div_mod_converse(z, m, 0, z);
    } else {
        assert(z == 1 * m + (z - m)) by (nonlinear_arith);
        lemma_fundamental_div_mod_converse(z, m, 1, z - m);
    }
}

/// Rounding a quotient up: `(t + d - 1) / d` is the least `k` with
/// `t <= k * d`.
pub proof fn lemma_div_ceil(t: int, d: int, k: int)
    requires
        0 < d,
        (k - 1) * d < t <= k * d,
    ensures
        (t + d - 1) / d == k,
{
    let r: int = t + d - 1 - k * d;
    assert((k - 1) * d == k * d - d) by (nonlinear_arith);
    assert(0 <= r < d);
    assert(t + d - 1 == k * d + r);
    lemma_fundamental_div_mod_converse(t + d - 1, d, k, r);
}

/// The quotient rounded up, between the exact quotient and one more than
/// the quotient rounded down.
pub proof fn lemma_div_ceil_bounds(t: int, d: int)
    requires
        0 < d,
        0 < t,
    ensures
        ({
            let k = (t + d - 1) / d;
            &&& (k - 1) * d < t <= k * d
            &&& t / d <= k <= t / d + 1
            &&& k >= 1
        }),
{
    let k: int = (t + d - 1) / d;
    let x: int = t + d - 1;
    vstd::arithmetic::div_mod::lemma_fundamental_div_mod(x, d);
    lemma_mod_bound(x, d);
    assert(d * k == k * d) by (nonlinear_arith);
    assert((k - 1) * d == k * d - d) by (nonlinear_arith);
    assert(k >= 1) by (nonlinear_arith)
        requires
            k * d + x % d == x,
            x >= d,
            0 <= x % d < d,
            0 < d,
    ;
    let q: int = t / d;
    vstd::arithmetic::div_mod::lemma_fundamental_div_mod(t, d);
    lemma_mod_bound(t, d);
    assert(d * q == q * d) by (nonlinear_arith);
    assert(q <= k && k <= q + 1) by (nonlinear_arith)
        requires
            (k - 1) * d < t <= k * d,
            q * d + t % d == t,
            0 <= t % d < d,
            0 < d,
    ;
}

/// A whole number of spans fits into a stretch exactly when the number is
/// at most the quotient of the stretch by the span.
pub proof fn lemma_fits(x: int, t: int, d: int)
    requires
        0 < d,
    ensures
        x * d <= t <==> x <= t / d,
{
    let q: int = t / d;
    vstd::arithmetic::div_mod::lemma_fundamental_div_mod(t, d);
    lemma_mod_bound(t, d);
    assert(d * q == q * d) by (nonlinear_arith);
    if x <= q {
        assert(x * d <= q * d) by (nonlinear_arith)
            requires
                x <= q,
                0 < d,
        ;
    } else {
        assert(x * d >= (q + 1) * d) by (nonlinear_arith)
            requires
                x >= q + 1,
                0 < d,
        ;
        assert((q + 1) * d == q * d + d) by (nonlinear_arith);
    }
}

/// Going `j` places back from a place on a ring of `m` and measuring the
/// way forward again gives `j`.
pub proof fn lemma_mod_back(x: int, j: int, m: int)
    requires
        0 < m,
        0 <= j < m,
    ensures
        (x - (x - j) % m) % m == j,
{
    let q: int = (x - j) / m;
    let i: int = (x - j) % m;
    vstd::arithmetic::div_mod::lemma_fundamental_div_mod(x - j, m);
    assert(m * q == q * m) by (nonlinear_arith);
    assert(x - i == q * m + j);
    lemma_fundamental_div_mod_converse(x - i, m, q, j);
}

} // verus!
