use vstd::prelude::*;

verus! {

/// `n` is the integer nearest to `sqrt(q) / 2`: `n - 1/2 <= sqrt(q)/2 < n + 1/2`.
pub open spec fn nearest_half_root(n: int, q: int) -> bool {
    &&& n >= 0
    &&& n == 0 || (2 * n - 1) * (2 * n - 1) <= q
    &&& q < (2 * n + 1) * (2 * n + 1)
}

/// The integer nearest to `sqrt(q) / 2`.
pub open spec fn half_root(q: int) -> int {
    choose|n: int| nearest_half_root(n, q)
}

/// At most one integer is nearest.
pub proof fn lemma_half_root_unique(n1: int, n2: int, q: int)
    requires
        nearest_half_root(n1, q),
        nearest_half_root(n2, q),
    ensures
        n1 == n2,
{
    if n1 < n2 {
        assert((2 * n1 + 1) * (2 * n1 + 1) <= (2 * n2 - 1) * (2 * n2 - 1)) by (nonlinear_arith)
            requires
                0 <= n1 < n2,
        ;
    } else if n2 < n1 {
        assert((2 * n2 + 1) * (2 * n2 + 1) <= (2 * n1 - 1) * (2 * n1 - 1)) by (nonlinear_arith)
            requires
                0 <= n2 < n1,
        ;
    }
}

/// Every `q >= 0` has a nearest integer to `sqrt(q) / 2`, and it is
/// small when `q` is.
pub proof fn lemma_half_root_exists(q: int)
    requires
        q >= 0,
    ensures
        nearest_half_root(half_root(q), q),
        q < 0x4_0000_0000_0000_0000 ==> half_root(q) < 0x4_0000_0000,
    decreases q,
{
    if q == 0 {
        assert((2 * 0 + 1) * (2 * 0 + 1) == 1) by (nonlinear_arith);
        assert(nearest_half_root(0, q));
    } else {
        lemma_half_root_exists(q - 1);
        let n = half_root(q - 1);
        if q < (2 * n + 1) * (2 * n + 1) {
            assert(nearest_half_root(n, q));
        } else {
            assert(q < (2 * n + 3) * (2 * n + 3)) by (nonlinear_arith)
                requires
                    q - 1 < (2 * n + 1) * (2 * n + 1),
                    n >= 0,
            ;
            assert(nearest_half_root(n + 1, q));
        }
    }
    let m = half_root(q);
    if q < 0x4_0000_0000_0000_0000 && m >= 0x4_0000_0000 {
        assert((2 * m - 1) * (2 * m - 1) >= 0x4_0000_0000_0000_0000) by (nonlinear_arith)
            requires
                m >= 0x4_0000_0000,
        ;
    }
}

/// The integer nearest to `sqrt(q) / 2`, by bisection.
pub fn round_half_root(q: u128) -> (n: u64)
    requires
        q < 0x4_0000_0000_0000_0000,
    ensures
        nearest_half_root(n as int, q as int),
        n == half_root(q as int),
        n < 0x4_0000_0000,
{
    let mut lo: u64 = 0;
    let mut hi: u64 = 0x4_0000_0000;
    assert((2 * 0x4_0000_0000 - 1) * (2 * 0x4_0000_0000 - 1) > 0x4_0000_0000_0000_0000)
        by (nonlinear_arith);
    while hi - lo > 1
        invariant
            lo < hi <= 0x4_0000_0000,
            lo == 0 || (2 * lo - 1) * (2 * lo - 1) <= q,
            (2 * hi - 1) * (2 * hi - 1) > q,
        decreases hi - lo,
    {
        let mid: u64 = lo + (hi - lo) / 2;
        let m: u128 = 2 * (mid as u128) - 1;
        assert(m * m <= 0x8_0000_0000 * 0x8_0000_0000) by (nonlinear_arith)
            requires
                m <= 0x8_0000_0000,
        ;
        if m * m <= q {
            lo = mid;
        } else {
            hi = mid;
        }
    }
    proof {
        lemma_half_root_unique(lo as int, half_root(q as int), q as int);
    }
    lo
}

} // verus!
