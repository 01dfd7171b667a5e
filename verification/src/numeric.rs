//! Exact integer arithmetic on sequences of nanosecond samples: sums,
//! mean squared deviations and integer square roots, none of which can
//! overflow whatever the samples are.

use vstd::arithmetic::div_mod::{
    lemma_fundamental_div_mod,
    lemma_fundamental_div_mod_converse,
    lemma_mod_pos_bound,
};
use vstd::prelude::*;

verus! {

/// Sum of the elements of `s`.
pub open spec fn total(s: Seq<u64>) -> int
    decreases s.len(),
{
    if s.len() == 0 {
        0
    } else {
        total(s.drop_last()) + s.last()
    }
}

/// Sum of the squared distances of the elements of `s` from `center`.
pub open spec fn square_deviation(s: Seq<u64>, center: int) -> int
    decreases s.len(),
{
    if s.len() == 0 {
        0
    } else {
        square_deviation(s.drop_last(), center) + (s.last() - center) * (s.last() - center)
    }
}

/// The largest square of a 64-bit distance.
pub open spec fn max_square() -> int {
    0xFFFF_FFFF_FFFF_FFFFint * 0xFFFF_FFFF_FFFF_FFFFint
}

/// `r` is the square root of `x`, rounded down.
pub open spec fn is_floor_sqrt(x: int, r: int) -> bool {
    0 <= r && r * r <= x < (r + 1) * (r + 1)
}

/// The square root of `x`, rounded down (for `x >= 0`).
pub open spec fn floor_sqrt(x: int) -> int {
    choose|r: int| is_floor_sqrt(x, r)
}

/// A number has at most one rounded-down square root.
pub proof fn floor_sqrt_unique(x: int, r: int)
    requires
        is_floor_sqrt(x, r),
    ensures
        floor_sqrt(x) == r,
{
    let c = floor_sqrt(x);
    assert(is_floor_sqrt(x, c));
    assert(c == r) by (nonlinear_arith)
        requires
            0 <= r,
            0 <= c,
            r * r <= x < (r + 1) * (r + 1),
            c * c <= x < (c + 1) * (c + 1),
    ;
}

/// The rounded-down root of a perfect square is its root.
pub proof fn floor_sqrt_of_square(r: int)
    requires
        0 <= r,
    ensures
        floor_sqrt(r * r) == r,
{
    assert(is_floor_sqrt(r * r, r)) by (nonlinear_arith)
        requires
            0 <= r,
    ;
    floor_sqrt_unique(r * r, r);
}

/// A sum lies between the length times a lower bound of the elements and
/// the length times an upper bound.
pub proof fn total_bounds(s: Seq<u64>, lo: int, hi: int)
    requires
        forall|i: int| 0 <= i < s.len() ==> lo <= #[trigger] s[i] <= hi,
    ensures
        s.len() * lo <= total(s) <= s.len() * hi,
    decreases s.len(),
{
    if s.len() > 0 {
        let head = s.drop_last();
        total_bounds(head, lo, hi);
        assert(lo <= s[s.len() - 1] <= hi);
        assert(s.len() * lo == head.len() * lo + lo && s.len() * hi == head.len() * hi + hi)
            by (nonlinear_arith)
            requires
                s.len() == head.len() + 1,
        ;
    }
}

/// A sum of squared distances from a 64-bit center is non-negative and at
/// most the length times the largest square.
pub proof fn square_deviation_bounds(s: Seq<u64>, center: int)
    requires
        0 <= center <= u64::MAX,
    ensures
        0 <= square_deviation(s, center) <= s.len() * max_square(),
    decreases s.len(),
{
    if s.len() > 0 {
        let head = s.drop_last();
        let d = s.last() - center;
        square_deviation_bounds(head, center);
        assert(0 <= d * d <= 0xFFFF_FFFF_FFFF_FFFF * 0xFFFF_FFFF_FFFF_FFFF) by (nonlinear_arith)
            requires
                -0xFFFF_FFFF_FFFF_FFFF <= d <= 0xFFFF_FFFF_FFFF_FFFF,
        ;
        assert(s.len() * max_square() == head.len() * max_square() + max_square())
            by (nonlinear_arith)
            requires
                s.len() == head.len() + 1,
        ;
    }
}

/// Sum of `v[lo..hi]`.
pub fn sum_range(v: &[u64], lo: usize, hi: usize) -> (sum: u128)
    requires
        lo <= hi <= v.len(),
    ensures
        sum == total(v@.subrange(lo as int, hi as int)),
        sum <= (hi - lo) * u64::MAX,
{
    let mut sum: u128 = 0;
    let mut i: usize = lo;
    while i < hi
        invariant
            lo <= i <= hi <= v.len(),
            sum == total(v@.subrange(lo as int, i as int)),
            sum <= (i - lo) * u64::MAX,
        decreases hi - i,
    {
        assert(v@.subrange(lo as int, i + 1).drop_last() =~= v@.subrange(lo as int, i as int));
        assert((i - lo) * u64::MAX + u64::MAX <= usize::MAX * u64::MAX) by (nonlinear_arith)
            requires
                0 <= i - lo < usize::MAX,
        ;
        assert(usize::MAX * u64::MAX <= u128::MAX) by (nonlinear_arith)
            requires
                usize::MAX <= 0xFFFF_FFFF_FFFF_FFFF,
        ;
        sum = sum + v[i] as u128;
        i = i + 1;
    }
    sum
}

/// Mean of the squared distances of the samples from `center`, rounded
/// down.
///
/// The sum of squares itself may exceed 128 bits; it is kept as a quotient
/// and a remainder by the length, so that every intermediate value fits.
pub fn mean_square_deviation(v: &[u64], center: u64) -> (q: u128)
    requires
        v.len() > 0,
    ensures
        q == square_deviation(v@, center as int) / (v.len() as int),
        q <= max_square(),
{
    let n: u128 = v.len() as u128;
    let mut q: u128 = 0;
    let mut r: u128 = 0;
    let mut i: usize = 0;
    while i < v.len()
        invariant
            i <= v.len(),
            n == v.len(),
            n > 0,
            r < n,
            q * n + r == square_deviation(v@.take(i as int), center as int),
        decreases v.len() - i,
    {
        let x: u64 = v[i];
        let d: u64 = if x >= center { x - center } else { center - x };
        assert(d * d <= max_square()) by (nonlinear_arith)
            requires
                0 <= d <= 0xFFFF_FFFF_FFFF_FFFF,
        ;
        let d2: u128 = (d as u128) * (d as u128);
        let a: u128 = d2 / n;
        let b: u128 = d2 % n;
        proof {
            let before = square_deviation(v@.take(i as int), center as int);
            let after = square_deviation(v@.take(i + 1), center as int);
            assert(v@.take(i + 1).drop_last() =~= v@.take(i as int));
            assert(d * d == (x - center) * (x - center)) by (nonlinear_arith)
                requires
                    d == x - center || d == center - x,
            ;
            assert(after == before + d2);
            square_deviation_bounds(v@.take(i + 1), center as int);
            lemma_fundamental_div_mod(d2 as int, n as int);
            lemma_mod_pos_bound(d2 as int, n as int);
            assert((q + a) * n + (r + b) == after) by (nonlinear_arith)
                requires
                    q * n + r == before,
                    after == before + d2,
                    d2 == n * a + b,
            ;
            assert(q + a + 1 <= max_square() + 1) by (nonlinear_arith)
                requires
                    (q + a) * n + (r + b) == after,
                    after <= (i + 1) * max_square(),
                    i + 1 <= n,
                    n > 0,
                    0 <= r + b,
                    max_square() >= 0,
            ;
            assert(r + b >= n ==> (q + a + 1) * n + (r + b - n) == after) by (nonlinear_arith)
                requires
                    (q + a) * n + (r + b) == after,
            ;
        }
        if r + b >= n {
            r = r + b - n;
            q = q + a + 1;
        } else {
            r = r + b;
            q = q + a;
        }
        i = i + 1;
    }
    proof {
        assert(v@.take(v.len() as int) =~= v@);
        let s = square_deviation(v@, center as int);
        square_deviation_bounds(v@, center as int);
        lemma_fundamental_div_mod_converse(s, n as int, q as int, r as int);
        assert(q <= max_square()) by (nonlinear_arith)
            requires
                q * n + r == s,
                s <= n * max_square(),
                n > 0,
                r >= 0,
                max_square() >= 0,
        ;
    }
    q
}

/// Square root of `x`, rounded down, by bisection.
pub fn floor_sqrt_u128(x: u128) -> (r: u64)
    ensures
        is_floor_sqrt(x as int, r as int),
        r == floor_sqrt(x as int),
{
    let mut lo: u128 = 0;
    let mut hi: u128 = 0x1_0000_0000_0000_0000;
    assert(0x1_0000_0000_0000_0000 * 0x1_0000_0000_0000_0000 > u128::MAX) by (nonlinear_arith);
    while hi - lo > 1
        invariant
            lo < hi <= 0x1_0000_0000_0000_0000,
            lo * lo <= x < hi * hi,
        decreases hi - lo,
    {
        let mid: u128 = lo + (hi - lo) / 2;
        assert(mid * mid <= u128::MAX) by (nonlinear_arith)
            requires
                0 <= mid <= 0xFFFF_FFFF_FFFF_FFFF,
        ;
        if mid * mid <= x {
            lo = mid;
        } else {
            hi = mid;
        }
    }
    proof {
        floor_sqrt_unique(x as int, lo as int);
    }
    lo as u64
}

} // verus!
