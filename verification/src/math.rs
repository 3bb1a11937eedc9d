use vstd::prelude::*;

verus! {

/// `s` is the whole part of the square root of `n`.
pub open spec fn is_root(n: int, s: int) -> bool {
    0 <= s && s * s <= n < (s + 1) * (s + 1)
}

/// The whole part of the square root of `n`, for `n` that is not negative.
pub open spec fn root(n: int) -> int {
    choose|s: int| is_root(n, s)
}

/// `a / s` rounded up, for `a` not negative and `s` positive.
pub open spec fn ceil_div(a: int, s: int) -> int {
    (a + s - 1) / s
}

/// `a * reach / s` rounded away from zero.
pub open spec fn stretch(a: int, reach: int, s: int) -> int {
    if a >= 0 {
        ceil_div(a * reach, s)
    } else {
        -ceil_div(-a * reach, s)
    }
}

/// A number has at most one whole root.
pub proof fn lemma_root_unique(n: int, a: int, b: int)
    requires
        is_root(n, a),
        is_root(n, b),
    ensures
        a == b,
{
    assert(a <= b) by (nonlinear_arith)
        requires
            0 <= a,
            0 <= b,
            a * a < (b + 1) * (b + 1),
    ;
    assert(b <= a) by (nonlinear_arith)
        requires
            0 <= a,
            0 <= b,
            b * b < (a + 1) * (a + 1),
    ;
}

/// Whatever satisfies [`is_root`] is the [`root`].
pub proof fn lemma_root_is(n: int, s: int)
    requires
        is_root(n, s),
    ensures
        root(n) == s,
{
    lemma_root_unique(n, s, root(n));
}

/// Rounding up never falls short, and overshoots by less than one.
pub proof fn lemma_ceil_div(a: int, s: int)
    requires
        0 <= a,
        0 < s,
    ensures
        a <= ceil_div(a, s) * s < a + s,
        0 <= ceil_div(a, s),
{
    let q = (a + s - 1) / s;
    assert(q * s <= a + s - 1 < (q + 1) * s && q >= 0) by (nonlinear_arith)
        requires
            q == (a + s - 1) / s,
            0 <= a,
            0 < s,
    ;
    assert((q + 1) * s == q * s + s) by (nonlinear_arith);
}

/// A component no longer than `s` is stretched to at most `reach`, and never
/// shortened while `reach` is at least `s`.
pub proof fn lemma_stretch_range(a: int, reach: int, s: int)
    requires
        0 < s,
        -s <= a <= s,
        0 <= reach,
    ensures
        -reach <= stretch(a, reach, s) <= reach,
        a >= 0 ==> stretch(a, reach, s) >= 0,
        a <= 0 ==> stretch(a, reach, s) <= 0,
        a == 0 ==> stretch(a, reach, s) == 0,
{
    let m = if a >= 0 { a } else { -a };
    assert(0 <= m * reach <= s * reach) by (nonlinear_arith)
        requires
            0 <= m <= s,
            0 <= reach,
    ;
    lemma_ceil_div(m * reach, s);
    let q = ceil_div(m * reach, s);
    assert(q <= reach) by (nonlinear_arith)
        requires
            q * s < m * reach + s,
            m * reach <= s * reach,
            0 < s,
    ;
    if a == 0 {
        assert(m * reach == 0) by (nonlinear_arith)
            requires
                m == 0,
        ;
        assert(q == 0) by (nonlinear_arith)
            requires
                0 <= q,
                q * s < s,
                0 < s,
        ;
    }
    if a < 0 {
        assert(-a * reach == m * reach);
    }
}

/// The whole part of the square root of `n`.
pub fn isqrt(n: u128) -> (s: u64)
    requires
        n < 0x4000_0000_0000_0000_0000_0000_0000_0000,
    ensures
        s as int == root(n as int),
        is_root(n as int, s as int),
{
    let mut lo: u128 = 0;
    let mut hi: u128 = 0x8000_0000_0000_0000;
    assert(hi * hi == 0x4000_0000_0000_0000_0000_0000_0000_0000) by (nonlinear_arith)
        requires
            hi == 0x8000_0000_0000_0000,
    ;
    while hi - lo > 1
        invariant
            lo < hi <= 0x8000_0000_0000_0000,
            lo * lo <= n < hi * hi,
        decreases hi - lo,
    {
        let mid: u128 = lo + (hi - lo) / 2;
        assert(mid * mid < 0x4000_0000_0000_0000_0000_0000_0000_0000) by (nonlinear_arith)
            requires
                mid < 0x8000_0000_0000_0000,
        ;
        if mid * mid <= n {
            lo = mid;
        } else {
            hi = mid;
        }
    }
    proof {
        assert(hi == lo + 1);
        lemma_root_is(n as int, lo as int);
    }
    lo as u64
}

/// `a * reach / s` rounded away from zero.
pub fn stretched(a: i64, reach: i64, s: u64) -> (r: i64)
    requires
        0 < s,
        -s <= a <= s,
        0 <= reach,
    ensures
        r == stretch(a as int, reach as int, s as int),
{
    let m: u128 = if a >= 0 { a as u128 } else { (-(a as i128)) as u128 };
    let big: u128 = reach as u128;
    let d: u128 = s as u128;
    proof {
        lemma_stretch_range(a as int, reach as int, s as int);
        assert(0 <= m * big <= 0x8000_0000_0000_0000 * 0x8000_0000_0000_0000) by (nonlinear_arith)
            requires
                0 <= m <= 0x8000_0000_0000_0000,
                0 <= big <= 0x8000_0000_0000_0000,
        ;
    }
    let q: u128 = (m * big + d - 1) / d;
    assert(q == ceil_div(m as int * reach as int, s as int));
    if a >= 0 {
        q as i64
    } else {
        assert(-(a as int) * (reach as int) == (m as int) * (reach as int));
        -(q as i64)
    }
}

} // verus!
