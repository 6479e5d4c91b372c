//! The soft repulsion between two lipids, and its sum over a population.

use vstd::prelude::*;
use crate::vector::{Vec3, SCALE, LIMIT, tdiv, root, isqrt, tdiv_i64, lemma_root_bounds, lemma_root_below, lemma_tdiv_neg, lemma_tdiv_bound};

verus! {

/// Separation beyond which two lipids do not interact (0.5 length units).
pub const CUTOFF: i64 = 500_000;

/// Separations at or below this floor are treated as coincident (1e-5).
pub const MIN_DIST: i64 = 10;

/// Strength of the repulsion (0.01).
pub const STRENGTH: i64 = 10_000;

/// `STRENGTH * SCALE`: the magnitude at separation `d` is `FORCE_NUM / d - FORCE_NUM / CUTOFF`.
pub const FORCE_NUM: i64 = STRENGTH * SCALE;

/// No single pair exerts more than this, per component.
pub const FMAX: i64 = 1_000_000_000;

pub open spec fn dist_sq(a: Vec3, b: Vec3) -> int {
    (a.x - b.x) * (a.x - b.x) + (a.y - b.y) * (a.y - b.y) + (a.z - b.z) * (a.z - b.z)
}

/// Whether two lipids repel: closer than the cutoff, but not coincident.
pub open spec fn interacts(a: Vec3, b: Vec3) -> bool {
    dist_sq(a, b) < CUTOFF * CUTOFF && root(dist_sq(a, b) as nat) > MIN_DIST
}

/// Magnitude of the repulsion at (integer) separation `d`.
pub open spec fn magnitude(d: int) -> int {
    FORCE_NUM as int / d - FORCE_NUM as int / CUTOFF as int
}

/// The force that a lipid at `a` feels from one at `b`: the magnitude along
/// the unit vector from `b` to `a`, each component rounded toward zero.
pub open spec fn pair_force(a: Vec3, b: Vec3) -> (int, int, int) {
    if interacts(a, b) {
        let d = root(dist_sq(a, b) as nat) as int;
        let m = magnitude(d);
        (tdiv((a.x - b.x) * m, d), tdiv((a.y - b.y) * m, d), tdiv((a.z - b.z) * m, d))
    } else {
        (0, 0, 0)
    }
}

pub open spec fn add3(u: (int, int, int), v: (int, int, int)) -> (int, int, int) {
    (u.0 + v.0, u.1 + v.1, u.2 + v.2)
}

pub open spec fn neg3(u: (int, int, int)) -> (int, int, int) {
    (-u.0, -u.1, -u.2)
}

pub open spec fn bounded3(u: (int, int, int), m: int) -> bool {
    -m <= u.0 <= m && -m <= u.1 <= m && -m <= u.2 <= m
}

/// The force on lipid `k` from the lipids `0 .. hi` other than itself.
pub open spec fn force_sum(ps: Seq<Vec3>, k: int, hi: int) -> (int, int, int)
    decreases hi,
{
    if hi <= 0 {
        (0, 0, 0)
    } else if hi - 1 == k {
        force_sum(ps, k, hi - 1)
    } else {
        add3(force_sum(ps, k, hi - 1), pair_force(ps[k], ps[hi - 1]))
    }
}

/// The total force on lipid `k` from every other lipid.
pub open spec fn net_force(ps: Seq<Vec3>, k: int) -> (int, int, int) {
    force_sum(ps, k, ps.len() as int)
}

/// The repulsion is symmetric in magnitude and opposite in direction.
pub proof fn lemma_pair_force_antisymmetric(a: Vec3, b: Vec3)
    ensures
        pair_force(b, a) == neg3(pair_force(a, b)),
{
    assert(dist_sq(b, a) == dist_sq(a, b)) by (nonlinear_arith);
    if interacts(a, b) {
        let d = root(dist_sq(a, b) as nat) as int;
        let m = magnitude(d);
        assert((b.x - a.x) * m == -((a.x - b.x) * m)) by (nonlinear_arith);
        assert((b.y - a.y) * m == -((a.y - b.y) * m)) by (nonlinear_arith);
        assert((b.z - a.z) * m == -((a.z - b.z) * m)) by (nonlinear_arith);
        lemma_tdiv_neg((a.x - b.x) * m, d);
        lemma_tdiv_neg((a.y - b.y) * m, d);
        lemma_tdiv_neg((a.z - b.z) * m, d);
    }
}

pub proof fn lemma_dist_sq_nonneg(a: Vec3, b: Vec3)
    ensures
        dist_sq(a, b) >= 0,
{
    assert(dist_sq(a, b) >= 0) by (nonlinear_arith);
}

/// A component of the separation is no longer than the (rounded) distance.
proof fn lemma_component_le_dist(c: int, ds: int, d: int)
    requires
        0 <= c * c <= ds,
        ds < (d + 1) * (d + 1),
        d >= 0,
    ensures
        -d <= c <= d,
{
    if c > d {
        assert(c * c >= (d + 1) * (d + 1)) by (nonlinear_arith)
            requires
                c >= d + 1,
                d >= 0,
        ;
    } else if c < -d {
        assert(c * c >= (d + 1) * (d + 1)) by (nonlinear_arith)
            requires
                -c >= d + 1,
                d >= 0,
        ;
    }
}

pub proof fn lemma_magnitude_range(d: int)
    requires
        MIN_DIST < d < CUTOFF,
    ensures
        0 <= magnitude(d) < FMAX,
{
    assert(FORCE_NUM as int / d <= FORCE_NUM as int / (MIN_DIST + 1)) by {
        vstd::arithmetic::div_mod::lemma_div_is_ordered_by_denominator(FORCE_NUM as int, MIN_DIST + 1, d);
    }
    assert(FORCE_NUM as int / d >= FORCE_NUM as int / CUTOFF as int) by {
        vstd::arithmetic::div_mod::lemma_div_is_ordered_by_denominator(FORCE_NUM as int, d, CUTOFF as int);
    }
}

/// Each component of a pair's force is at most `FMAX` in magnitude.
pub proof fn lemma_pair_force_bounded(a: Vec3, b: Vec3)
    ensures
        bounded3(pair_force(a, b), FMAX as int),
{
    if interacts(a, b) {
        let ds = dist_sq(a, b);
        let d = root(ds as nat) as int;
        let m = magnitude(d);
        lemma_dist_sq_nonneg(a, b);
        lemma_root_bounds(ds as nat);
        lemma_root_below(ds as nat, CUTOFF as nat);
        lemma_magnitude_range(d);
        let cx = a.x - b.x;
        let cy = a.y - b.y;
        let cz = a.z - b.z;
        assert(0 <= cx * cx && 0 <= cy * cy && 0 <= cz * cz) by (nonlinear_arith);
        lemma_component_le_dist(cx, ds, d);
        lemma_component_le_dist(cy, ds, d);
        lemma_component_le_dist(cz, ds, d);
        assert(-d * m <= cx * m <= d * m) by (nonlinear_arith)
            requires
                -d <= cx <= d,
                m >= 0,
        ;
        assert(-d * m <= cy * m <= d * m) by (nonlinear_arith)
            requires
                -d <= cy <= d,
                m >= 0,
        ;
        assert(-d * m <= cz * m <= d * m) by (nonlinear_arith)
            requires
                -d <= cz <= d,
                m >= 0,
        ;
        lemma_tdiv_bound(cx * m, d, m);
        lemma_tdiv_bound(cy * m, d, m);
        lemma_tdiv_bound(cz * m, d, m);
    }
}

/// A sum over `hi` others is at most `hi * FMAX` per component.
pub proof fn lemma_force_sum_bounded(ps: Seq<Vec3>, k: int, hi: int)
    requires
        0 <= hi <= ps.len(),
        0 <= k < ps.len(),
    ensures
        bounded3(force_sum(ps, k, hi), hi * FMAX),
    decreases hi,
{
    if hi > 0 {
        lemma_force_sum_bounded(ps, k, hi - 1);
        lemma_pair_force_bounded(ps[k], ps[hi - 1]);
    }
}

/// The force that a lipid at `a` feels from one at `b`.
pub fn pair_force_exec(a: Vec3, b: Vec3) -> (r: Vec3)
    requires
        a.within(LIMIT as int),
        b.within(LIMIT as int),
    ensures
        r@ == pair_force(a, b),
{
    let dx: i64 = a.x - b.x;
    let dy: i64 = a.y - b.y;
    let dz: i64 = a.z - b.z;
    if dx >= CUTOFF || dx <= -CUTOFF || dy >= CUTOFF || dy <= -CUTOFF || dz >= CUTOFF || dz <= -CUTOFF {
        assert(dist_sq(a, b) >= CUTOFF * CUTOFF) by (nonlinear_arith)
            requires
                dx == a.x - b.x,
                dy == a.y - b.y,
                dz == a.z - b.z,
                dx >= CUTOFF || dx <= -CUTOFF || dy >= CUTOFF || dy <= -CUTOFF || dz >= CUTOFF
                    || dz <= -CUTOFF,
        ;
        return Vec3::zeros();
    }
    assert(0 <= dx * dx < CUTOFF * CUTOFF) by (nonlinear_arith)
        requires
            -CUTOFF < dx < CUTOFF,
    ;
    assert(0 <= dy * dy < CUTOFF * CUTOFF) by (nonlinear_arith)
        requires
            -CUTOFF < dy < CUTOFF,
    ;
    assert(0 <= dz * dz < CUTOFF * CUTOFF) by (nonlinear_arith)
        requires
            -CUTOFF < dz < CUTOFF,
    ;
    let ds: i64 = dx * dx + dy * dy + dz * dz;
    assert(ds == dist_sq(a, b));
    if ds >= CUTOFF * CUTOFF {
        return Vec3::zeros();
    }
    let d: i64 = isqrt(ds as u64) as i64;
    if d <= MIN_DIST {
        return Vec3::zeros();
    }
    proof {
        lemma_pair_force_bounded(a, b);
        lemma_root_below(ds as nat, CUTOFF as nat);
        lemma_magnitude_range(d as int);
    }
    let m: i64 = FORCE_NUM / d - FORCE_NUM / CUTOFF;
    assert(-CUTOFF * FMAX <= dx * m <= CUTOFF * FMAX) by (nonlinear_arith)
        requires
            -CUTOFF < dx < CUTOFF,
            0 <= m < FMAX,
    ;
    assert(-CUTOFF * FMAX <= dy * m <= CUTOFF * FMAX) by (nonlinear_arith)
        requires
            -CUTOFF < dy < CUTOFF,
            0 <= m < FMAX,
    ;
    assert(-CUTOFF * FMAX <= dz * m <= CUTOFF * FMAX) by (nonlinear_arith)
        requires
            -CUTOFF < dz < CUTOFF,
            0 <= m < FMAX,
    ;
    Vec3 { x: tdiv_i64(dx * m, d), y: tdiv_i64(dy * m, d), z: tdiv_i64(dz * m, d) }
}

} // verus!
