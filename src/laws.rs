//! Laws of the step: what holds of it on every input.

use vstd::prelude::*;
use crate::vector::{Vec3, SCALE, LIMIT, tdiv, lemma_tdiv_neg, lemma_tdiv_bound};
use crate::force::{CUTOFF, FMAX, dist_sq, pair_force, force_sum, net_force, neg3, add3,
    lemma_pair_force_antisymmetric, lemma_pair_force_bounded};
use crate::simulation::{Lipid, stepped, run, positions, zero3};

verus! {

/// The sum of the velocities of a population.
pub open spec fn momentum(ls: Seq<Lipid>) -> (int, int, int)
    decreases ls.len(),
{
    if ls.len() == 0 {
        zero3()
    } else {
        add3(momentum(ls.drop_last()), ls.last().vel@)
    }
}

/// Lipids at least the cutoff apart exert no force on each other.
pub proof fn beyond_cutoff_no_force(a: Vec3, b: Vec3)
    requires
        dist_sq(a, b) >= CUTOFF * CUTOFF,
    ensures
        pair_force(a, b) == zero3(),
{
}

/// The net forces on the two lipids of an isolated pair.
proof fn lemma_pair_net_forces(ls: Seq<Lipid>)
    requires
        ls.len() == 2,
    ensures
        net_force(positions(ls), 0) == pair_force(ls[0].pos, ls[1].pos),
        net_force(positions(ls), 1) == pair_force(ls[1].pos, ls[0].pos),
        bounded_pair(ls),
{
    let ps = positions(ls);
    assert(ps[0] == ls[0].pos && ps[1] == ls[1].pos);
    assert(force_sum(ps, 0, 1) == force_sum(ps, 0, 0));
    assert(force_sum(ps, 1, 1) == add3(force_sum(ps, 1, 0), pair_force(ps[1], ps[0])));
    lemma_pair_force_bounded(ls[0].pos, ls[1].pos);
    lemma_pair_force_bounded(ls[1].pos, ls[0].pos);
}

spec fn bounded_pair(ls: Seq<Lipid>) -> bool {
    crate::force::bounded3(pair_force(ls[0].pos, ls[1].pos), FMAX as int)
        && crate::force::bounded3(pair_force(ls[1].pos, ls[0].pos), FMAX as int)
}

/// Two lipids at least the cutoff apart feel no force after a step.
pub proof fn separated_pair_feels_nothing(ls: Seq<Lipid>, dt: int)
    requires
        ls.len() == 2,
        dist_sq(ls[0].pos, ls[1].pos) >= CUTOFF * CUTOFF,
    ensures
        stepped(ls, dt)[0].force@ == zero3(),
        stepped(ls, dt)[1].force@ == zero3(),
{
    lemma_pair_net_forces(ls);
    lemma_pair_force_antisymmetric(ls[0].pos, ls[1].pos);
}

/// In an isolated pair the force on one lipid is the exact negation of the
/// force on the other.
pub proof fn newton_third_law(ls: Seq<Lipid>, dt: int)
    requires
        ls.len() == 2,
    ensures
        stepped(ls, dt)[0].force@ == neg3(stepped(ls, dt)[1].force@),
{
    lemma_pair_net_forces(ls);
    lemma_pair_force_antisymmetric(ls[0].pos, ls[1].pos);
}

/// The forces after a step depend on the positions alone: nothing of the
/// forces or velocities before the step leaks into them.
pub proof fn forces_depend_on_positions_only(a: Seq<Lipid>, b: Seq<Lipid>, dt: int, k: int)
    requires
        positions(a) == positions(b),
        a.len() == b.len(),
        0 <= k < a.len(),
    ensures
        stepped(a, dt)[k].force == stepped(b, dt)[k].force,
{
}

/// The sum, over lipids `0 .. rows`, of the force each feels from lipids `0 .. hi`.
pub open spec fn rows_sum(ps: Seq<Vec3>, rows: int, hi: int) -> (int, int, int)
    decreases rows,
{
    if rows <= 0 {
        zero3()
    } else {
        add3(rows_sum(ps, rows - 1, hi), force_sum(ps, rows - 1, hi))
    }
}

/// The sum of the net forces on all lipids.
pub open spec fn total_net_force(ps: Seq<Vec3>) -> (int, int, int) {
    rows_sum(ps, ps.len() as int, ps.len() as int)
}

/// The sum, over lipids `0 .. rows`, of the force each exerts on lipid `m`.
spec fn column(ps: Seq<Vec3>, m: int, rows: int) -> (int, int, int)
    decreases rows,
{
    if rows <= 0 {
        zero3()
    } else {
        add3(column(ps, m, rows - 1), pair_force(ps[rows - 1], ps[m]))
    }
}

proof fn lemma_rows_extend(ps: Seq<Vec3>, rows: int, m: int)
    requires
        0 <= rows <= m,
    ensures
        rows_sum(ps, rows, m + 1) == add3(rows_sum(ps, rows, m), column(ps, m, rows)),
    decreases rows,
{
    if rows > 0 {
        lemma_rows_extend(ps, rows - 1, m);
    }
}

proof fn lemma_row_is_negated_column(ps: Seq<Vec3>, m: int, h: int)
    requires
        0 <= h <= m,
    ensures
        force_sum(ps, m, h) == neg3(column(ps, m, h)),
    decreases h,
{
    if h > 0 {
        lemma_row_is_negated_column(ps, m, h - 1);
        lemma_pair_force_antisymmetric(ps[h - 1], ps[m]);
    }
}

proof fn lemma_rows_balance(ps: Seq<Vec3>, m: int)
    requires
        0 <= m,
    ensures
        rows_sum(ps, m, m) == zero3(),
    decreases m,
{
    if m > 0 {
        let p = m - 1;
        lemma_rows_balance(ps, p);
        lemma_rows_extend(ps, p, p);
        lemma_row_is_negated_column(ps, p, p);
        assert(force_sum(ps, p, m) == force_sum(ps, p, p));
    }
}

/// Forces come in equal and opposite pairs, so the net forces on any
/// population sum to zero.
pub proof fn forces_balance(ps: Seq<Vec3>)
    ensures
        total_net_force(ps) == zero3(),
{
    lemma_rows_balance(ps, ps.len() as int);
}

/// Identical initial populations follow identical trajectories.
pub proof fn trajectories_agree(a: Seq<Lipid>, b: Seq<Lipid>, dt: int, steps: nat)
    requires
        a == b,
    ensures
        run(a, dt, steps) == run(b, dt, steps),
{
}

/// An isolated pair keeps its total momentum, as long as no velocity comes
/// near the saturation bound and the step is at most one time unit.
pub proof fn pair_conserves_momentum(ls: Seq<Lipid>, dt: int)
    requires
        ls.len() == 2,
        0 < dt <= SCALE,
        ls[0].vel.within(LIMIT / 2),
        ls[1].vel.within(LIMIT / 2),
    ensures
        momentum(stepped(ls, dt)) == momentum(ls),
{
    lemma_pair_net_forces(ls);
    lemma_pair_force_antisymmetric(ls[0].pos, ls[1].pos);
    let f = pair_force(ls[0].pos, ls[1].pos);
    let s = stepped(ls, dt);
    lemma_velocity_change(f.0, dt);
    lemma_velocity_change(f.1, dt);
    lemma_velocity_change(f.2, dt);
    assert(s.len() == 2);
    assert(s.drop_last().len() == 1);
    assert(s.drop_last().drop_last() =~= Seq::<Lipid>::empty());
    assert(momentum(s.drop_last().drop_last()) == zero3());
    assert(ls.drop_last().drop_last() =~= Seq::<Lipid>::empty());
    assert(s.drop_last().last() == s[0]);
    assert(ls.drop_last().last() == ls[0]);
    assert(momentum(s.drop_last()) == add3(zero3(), s[0].vel@));
    assert(momentum(ls.drop_last()) == add3(zero3(), ls[0].vel@));
    let d = (tdiv(f.0 * dt, SCALE as int), tdiv(f.1 * dt, SCALE as int), tdiv(f.2 * dt, SCALE as int));
    assert(s[0].vel@ == add3(ls[0].vel@, d));
    assert(s[1].vel@ == add3(ls[1].vel@, neg3(d)));
}

/// Opposite forces change velocities by opposite amounts, no more than `FMAX`.
proof fn lemma_velocity_change(f: int, dt: int)
    requires
        -FMAX <= f <= FMAX,
        0 < dt <= SCALE,
    ensures
        tdiv((-f) * dt, SCALE as int) == -tdiv(f * dt, SCALE as int),
        -FMAX <= tdiv(f * dt, SCALE as int) <= FMAX,
{
    assert((-f) * dt == -(f * dt)) by (nonlinear_arith);
    lemma_tdiv_neg(f * dt, SCALE as int);
    assert(-SCALE * FMAX <= f * dt <= SCALE * FMAX) by (nonlinear_arith)
        requires
            -FMAX <= f <= FMAX,
            0 < dt <= SCALE,
    ;
    lemma_tdiv_bound(f * dt, SCALE as int, FMAX as int);
}

} // verus!
