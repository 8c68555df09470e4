//! Integer division rounded upward, the arithmetic that turns a cell count and
//! a row count into a column count and back.

use vstd::prelude::*;

verus! {

/// The quotient of `n` by `d` rounded upward, for `n >= 0` and `d > 0`.
pub open spec fn ceil_div(n: int, d: int) -> int {
    if n % d == 0 {
        n / d
    } else {
        n / d + 1
    }
}

/// `ceil_div(n, d)` is the least number of groups of `d` that hold `n` items.
pub proof fn lemma_ceil_div_bounds(n: int, d: int)
    requires
        0 <= n,
        0 < d,
    ensures
        0 <= ceil_div(n, d) <= n,
        ceil_div(n, d) * d >= n,
        (ceil_div(n, d) - 1) * d < n || n == 0,
        n == 0 <==> ceil_div(n, d) == 0,
{
    let q = n / d;
    let r = n % d;
    assert(n == q * d + r && 0 <= r < d && 0 <= q <= n) by (nonlinear_arith)
        requires
            0 <= n,
            0 < d,
            q == n / d,
            r == n % d,
    ;
    assert((q + 1) * d == q * d + d) by (nonlinear_arith);
    assert((q - 1) * d == q * d - d) by (nonlinear_arith);
    assert(q * d >= q) by (nonlinear_arith)
        requires
            0 <= q,
            0 < d,
    ;
    assert(q == 0 ==> q * d == 0) by (nonlinear_arith);
}

/// Any `q` groups of `d` that hold `n` items are at least `ceil_div(n, d)`.
pub proof fn lemma_ceil_div_least(n: int, d: int, q: int)
    requires
        0 <= n,
        0 < d,
        q * d >= n,
    ensures
        ceil_div(n, d) <= q,
{
    lemma_ceil_div_bounds(n, d);
    let c = ceil_div(n, d);
    if c > q {
        assert((c - 1) * d >= q * d) by (nonlinear_arith)
            requires
                c - 1 >= q,
                0 < d,
        ;
        assert(q * d < 0 || q >= 0) by (nonlinear_arith)
            requires
                0 < d,
        ;
    }
}

/// Division with upward rounding.
pub fn div_ceil(lhs: usize, rhs: usize) -> (q: usize)
    requires
        rhs > 0,
    ensures
        q == ceil_div(lhs as int, rhs as int),
        q * rhs >= lhs,
        lhs > 0 ==> (q - 1) * rhs < lhs,
{
    proof {
        lemma_ceil_div_bounds(lhs as int, rhs as int);
    }
    let d: usize = lhs / rhs;
    let r: usize = lhs % rhs;
    if r > 0 {
        d + 1
    } else {
        d
    }
}

} // verus!
