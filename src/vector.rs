//! Fixed-point three-vectors and the integer arithmetic they rest on.

use vstd::prelude::*;

verus! {

/// Number of grid steps in one unit of length (and of time).
pub const SCALE: i64 = 1_000_000;

/// Positions and velocities saturate at this magnitude, per component.
pub const LIMIT: i64 = 1_000_000_000_000;

/// A vector of three fixed-point components.
#[derive(Clone, Copy, Debug, PartialEq, Eq, Structural)]
pub struct Vec3 {
    pub x: i64,
    pub y: i64,
    pub z: i64,
}

impl View for Vec3 {
    type V = (int, int, int);

    open spec fn view(&self) -> (int, int, int) {
        (self.x as int, self.y as int, self.z as int)
    }
}

impl Vec3 {
    pub open spec fn within(&self, bound: int) -> bool {
        -bound <= self.x <= bound && -bound <= self.y <= bound && -bound <= self.z <= bound
    }

    pub fn new(x: i64, y: i64, z: i64) -> (r: Vec3)
        ensures
            r@ == (x as int, y as int, z as int),
    {
        Vec3 { x, y, z }
    }

    pub fn zeros() -> (r: Vec3)
        ensures
            r@ == (0int, 0int, 0int),
    {
        Vec3 { x: 0, y: 0, z: 0 }
    }
}

/// Division rounding toward zero, as Rust's `/` does on integers.
pub open spec fn tdiv(a: int, b: int) -> int {
    if a >= 0 {
        a / b
    } else {
        -((-a) / b)
    }
}

/// A value held to the range `[-LIMIT, LIMIT]`.
pub open spec fn clamp(v: int) -> int {
    if v > LIMIT {
        LIMIT as int
    } else if v < -LIMIT {
        -LIMIT
    } else {
        v
    }
}

/// The integer square root: the largest `r` with `r * r <= x`.
pub open spec fn root(x: nat) -> nat
    decreases x,
{
    if x == 0 {
        0
    } else {
        let r = root((x - 1) as nat);
        if (r + 1) * (r + 1) <= x {
            r + 1
        } else {
            r
        }
    }
}

pub proof fn lemma_tdiv_neg(a: int, b: int)
    requires
        b > 0,
    ensures
        tdiv(-a, b) == -tdiv(a, b),
{
}

pub proof fn lemma_tdiv_bound(a: int, b: int, m: int)
    requires
        b > 0,
        m >= 0,
        -b * m <= a <= b * m,
    ensures
        -m <= tdiv(a, b) <= m,
{
    if a >= 0 {
        assert(a / b <= m) by (nonlinear_arith)
            requires
                b > 0,
                m >= 0,
                0 <= a <= b * m,
        {
            vstd::arithmetic::div_mod::lemma_div_is_ordered(a, b * m, b);
            vstd::arithmetic::div_mod::lemma_div_multiples_vanish(m, b);
        }
        assert(a / b >= 0) by (nonlinear_arith)
            requires
                b > 0,
                a >= 0,
        ;
    } else {
        assert(-a <= b * m) by (nonlinear_arith)
            requires
                -b * m <= a,
        ;
        assert((-a) / b <= m) by (nonlinear_arith)
            requires
                b > 0,
                m >= 0,
                0 <= -a <= b * m,
        {
            vstd::arithmetic::div_mod::lemma_div_is_ordered(-a, b * m, b);
            vstd::arithmetic::div_mod::lemma_div_multiples_vanish(m, b);
        }
        assert((-a) / b >= 0) by (nonlinear_arith)
            requires
                b > 0,
                -a >= 0,
        ;
    }
}

pub proof fn lemma_root_bounds(x: nat)
    ensures
        root(x) * root(x) <= x < (root(x) + 1) * (root(x) + 1),
    decreases x,
{
    if x > 0 {
        lemma_root_bounds((x - 1) as nat);
        let r = root((x - 1) as nat);
        if (r + 1) * (r + 1) <= x {
            assert(root(x) == r + 1);
            assert(x < (r + 2) * (r + 2)) by (nonlinear_arith)
                requires
                    (r + 1) * (r + 1) <= x,
                    x - 1 < (r + 1) * (r + 1),
            ;
            assert(root(x) * root(x) <= x);
        } else {
            assert(root(x) == r);
            assert(r * r <= x);
        }
    } else {
        assert(root(x) == 0);
        assert(root(x) * root(x) <= x < (root(x) + 1) * (root(x) + 1)) by (nonlinear_arith)
            requires
                root(x) == 0,
                x == 0,
        ;
    }
}

pub proof fn lemma_root_unique(x: nat, r: nat)
    requires
        r * r <= x < (r + 1) * (r + 1),
    ensures
        root(x) == r,
{
    lemma_root_bounds(x);
    let s = root(x);
    if s < r {
        assert((s + 1) * (s + 1) <= r * r) by (nonlinear_arith)
            requires
                s + 1 <= r,
        ;
    } else if s > r {
        assert((r + 1) * (r + 1) <= s * s) by (nonlinear_arith)
            requires
                r + 1 <= s,
        ;
    }
}

pub proof fn lemma_root_below(x: nat, c: nat)
    requires
        x < c * c,
    ensures
        root(x) < c,
{
    lemma_root_bounds(x);
    let r = root(x);
    if r >= c {
        assert(r * r >= c * c) by (nonlinear_arith)
            requires
                r >= c,
        ;
    }
}

/// Truncating division of a 64-bit value by a positive divisor.
pub fn tdiv_i64(a: i64, b: i64) -> (r: i64)
    requires
        b > 0,
        a > i64::MIN,
    ensures
        r == tdiv(a as int, b as int),
{
    if a >= 0 {
        a / b
    } else {
        let na: i64 = -a;
        let q: i64 = na / b;
        assert(q <= na) by (nonlinear_arith)
            requires
                b > 0,
                na >= 0,
                q as int == na as int / b as int,
        ;
        -q
    }
}

/// Truncating division of a 128-bit value by a positive divisor.
pub fn tdiv_i128(a: i128, b: i128) -> (r: i128)
    requires
        b > 0,
        a > i128::MIN,
    ensures
        r == tdiv(a as int, b as int),
{
    if a >= 0 {
        a / b
    } else {
        let na: i128 = -a;
        let q: i128 = na / b;
        assert(q <= na) by (nonlinear_arith)
            requires
                b > 0,
                na >= 0,
                q as int == na as int / b as int,
        ;
        -q
    }
}

/// Saturates a wide value to `[-LIMIT, LIMIT]`.
pub fn clamp_i128(v: i128) -> (r: i64)
    ensures
        r == clamp(v as int),
{
    if v > LIMIT as i128 {
        LIMIT
    } else if v < -(LIMIT as i128) {
        -LIMIT
    } else {
        v as i64
    }
}

/// The integer square root of `x`, by bisection.
pub fn isqrt(x: u64) -> (r: u64)
    requires
        x < 0x100_0000_0000,
    ensures
        r == root(x as nat),
        r < 0x10_0000,
{
    let mut lo: u64 = 0;
    let mut hi: u64 = 0x10_0000;
    assert(x < hi * hi);
    while hi - lo > 1
        invariant
            lo < hi <= 0x10_0000,
            lo * lo <= x < hi * hi,
        decreases hi - lo,
    {
        let mid: u64 = lo + (hi - lo) / 2;
        assert(mid * mid <= 0x100_0000_0000) by (nonlinear_arith)
            requires
                mid <= 0x10_0000,
        ;
        if mid * mid <= x {
            lo = mid;
        } else {
            hi = mid;
        }
    }
    proof {
        lemma_root_unique(x as nat, lo as nat);
    }
    lo
}

} // verus!
