//! The simulation state, its construction and its time step.

use vstd::prelude::*;
use rand::Rng;
use crate::vector::{Vec3, SCALE, LIMIT, clamp, tdiv, tdiv_i128, clamp_i128};
use crate::force::{FMAX, force_sum, net_force, pair_force_exec, lemma_force_sum_bounded,
    lemma_pair_force_antisymmetric};

verus! {

/// Default time step (0.01 time units).
pub const DT: i64 = 10_000;

/// Largest population a simulation holds.
pub const MAX_LIPIDS: usize = 1_000_000_000;

/// Lipids are seeded with `x` and `y` in `[-SPAN, SPAN)`.
pub const SPAN: i64 = 2_000_000;

/// Height of the upper layer; the lower one lies at `-LAYER`.
pub const LAYER: i64 = 500_000;

/// Seeded heights deviate from their layer by a value in `[-JITTER, JITTER)`.
pub const JITTER: i64 = 100_000;

/// A point-like particle.
#[derive(Clone, Copy, Debug, PartialEq, Eq, Structural)]
pub struct Lipid {
    pub pos: Vec3,
    pub vel: Vec3,
    pub force: Vec3,
}

/// A static spherical obstacle.
#[derive(Clone, Copy, Debug, PartialEq, Eq, Structural)]
pub struct Protein {
    pub pos: Vec3,
    pub radius: i64,
}

/// The lipids, the proteins and the time step.
pub struct Simulation {
    pub lipids: Vec<Lipid>,
    pub proteins: Vec<Protein>,
    pub dt: i64,
}

/// One snapshot: lipid positions, and each protein's position and radius.
pub struct Frame {
    pub lipids: Vec<[i64; 3]>,
    pub proteins: Vec<([i64; 3], i64)>,
}

pub open spec fn zero3() -> (int, int, int) {
    (0, 0, 0)
}

/// Position and velocity lie within the saturation bound.
pub open spec fn lipid_ok(l: Lipid) -> bool {
    l.pos.within(LIMIT as int) && l.vel.within(LIMIT as int)
}

pub open spec fn positions(ls: Seq<Lipid>) -> Seq<Vec3> {
    ls.map_values(|l: Lipid| l.pos)
}

/// Velocity after one step: the force over `dt` added, then saturated.
pub open spec fn next_vel(v: int, f: int, dt: int) -> int {
    clamp(v + tdiv(f * dt, SCALE as int))
}

/// Position after one step, moved by the already updated velocity.
pub open spec fn next_pos(p: int, v: int, dt: int) -> int {
    clamp(p + tdiv(v * dt, SCALE as int))
}

/// Lipid `k` after one step of the population `ls`.
pub open spec fn advance(ls: Seq<Lipid>, k: int, dt: int) -> Lipid {
    let f = net_force(positions(ls), k);
    let l = ls[k];
    let vx = next_vel(l.vel.x as int, f.0, dt);
    let vy = next_vel(l.vel.y as int, f.1, dt);
    let vz = next_vel(l.vel.z as int, f.2, dt);
    Lipid {
        pos: Vec3 {
            x: next_pos(l.pos.x as int, vx, dt) as i64,
            y: next_pos(l.pos.y as int, vy, dt) as i64,
            z: next_pos(l.pos.z as int, vz, dt) as i64,
        },
        vel: Vec3 { x: vx as i64, y: vy as i64, z: vz as i64 },
        force: Vec3 { x: f.0 as i64, y: f.1 as i64, z: f.2 as i64 },
    }
}

/// The population after one step.
pub open spec fn stepped(ls: Seq<Lipid>, dt: int) -> Seq<Lipid> {
    Seq::new(ls.len(), |k: int| advance(ls, k, dt))
}

/// The population after `steps` steps.
pub open spec fn run(ls: Seq<Lipid>, dt: int, steps: nat) -> Seq<Lipid>
    decreases steps,
{
    if steps == 0 {
        ls
    } else {
        stepped(run(ls, dt, (steps - 1) as nat), dt)
    }
}

pub open spec fn default_proteins() -> Seq<Protein> {
    seq![
        Protein { pos: Vec3 { x: 0, y: 0, z: 0 }, radius: 300_000 },
        Protein { pos: Vec3 { x: SCALE, y: SCALE, z: 0 }, radius: 250_000 },
    ]
}

/// Height of the layer that lipid `i` is seeded in: even indices above.
pub open spec fn layer_z(i: int) -> int {
    if i % 2 == 0 {
        LAYER as int
    } else {
        -LAYER
    }
}

/// Whether a draw lies in the seeding ranges.
pub open spec fn sample_ok(s: Vec3) -> bool {
    -SPAN <= s.x < SPAN && -SPAN <= s.y < SPAN && -JITTER <= s.z < JITTER
}

/// Lipid `i` seeded from draw `s`, at rest.
pub open spec fn placed(i: int, s: Vec3) -> Lipid {
    Lipid {
        pos: Vec3 { x: s.x, y: s.y, z: (layer_z(i) + s.z) as i64 },
        vel: Vec3 { x: 0, y: 0, z: 0 },
        force: Vec3 { x: 0, y: 0, z: 0 },
    }
}

/// Whether lipid `k` lies where seeding puts it, at rest.
pub open spec fn seeded(k: int, l: Lipid) -> bool {
    &&& -SPAN <= l.pos.x < SPAN
    &&& -SPAN <= l.pos.y < SPAN
    &&& layer_z(k) - JITTER <= l.pos.z < layer_z(k) + JITTER
    &&& l.vel@ == zero3()
    &&& l.force@ == zero3()
}

pub open spec fn triple(v: Vec3) -> [i64; 3] {
    [v.x, v.y, v.z]
}

/// Relies on rand's `thread_rng` and `Rng::gen_range`: a value of `lo..hi`,
/// which panics only on an empty range.
#[verifier::external_body]
fn uniform(lo: i64, hi: i64) -> (r: i64)
    requires
        lo < hi,
    ensures
        lo <= r < hi,
{
    rand::thread_rng().gen_range(lo..hi)
}

/// One semi-implicit Euler update of one axis: the new velocity, then the
/// position moved by it.
fn integrate_axis(p: i64, v: i64, f: i64, dt: i64) -> (r: (i64, i64))
    requires
        -LIMIT <= p <= LIMIT,
        -LIMIT <= v <= LIMIT,
        -(MAX_LIPIDS * FMAX) <= f <= MAX_LIPIDS * FMAX,
        dt > 0,
    ensures
        r.1 == next_vel(v as int, f as int, dt as int),
        r.0 == next_pos(p as int, r.1 as int, dt as int),
        -LIMIT <= r.0 <= LIMIT,
        -LIMIT <= r.1 <= LIMIT,
{
    assert(-(MAX_LIPIDS * FMAX) * 0x8000_0000_0000_0000 <= f * dt <= (MAX_LIPIDS * FMAX) * 0x8000_0000_0000_0000)
        by (nonlinear_arith)
        requires
            -(MAX_LIPIDS * FMAX) <= f <= MAX_LIPIDS * FMAX,
            0 < dt < 0x8000_0000_0000_0000,
    ;
    let dv: i128 = tdiv_i128(f as i128 * dt as i128, SCALE as i128);
    proof {
        crate::vector::lemma_tdiv_bound(f * dt, SCALE as int, (MAX_LIPIDS * FMAX) * 0x8000_0000_0000_0000);
    }
    let v2: i64 = clamp_i128(v as i128 + dv);
    assert(-LIMIT * 0x8000_0000_0000_0000 <= v2 * dt <= LIMIT * 0x8000_0000_0000_0000)
        by (nonlinear_arith)
        requires
            -LIMIT <= v2 <= LIMIT,
            0 < dt < 0x8000_0000_0000_0000,
    ;
    let dp: i128 = tdiv_i128(v2 as i128 * dt as i128, SCALE as i128);
    proof {
        crate::vector::lemma_tdiv_bound(v2 * dt, SCALE as int, LIMIT * 0x8000_0000_0000_0000);
    }
    let p2: i64 = clamp_i128(p as i128 + dp);
    (p2, v2)
}

impl Simulation {
    /// At most `MAX_LIPIDS` lipids, each within the saturation bound, and a
    /// positive time step.
    pub open spec fn wf(&self) -> bool {
        &&& self.lipids@.len() <= MAX_LIPIDS
        &&& self.dt > 0
        &&& forall|k: int| 0 <= k < self.lipids@.len() ==> lipid_ok(#[trigger] self.lipids@[k])
    }

    /// A simulation whose lipid `i` is seeded from draw `samples[i]`, with
    /// the default proteins and time step.
    pub fn from_samples(samples: &Vec<Vec3>) -> (r: Simulation)
        requires
            samples@.len() <= MAX_LIPIDS,
            forall|k: int| 0 <= k < samples@.len() ==> sample_ok(#[trigger] samples@[k]),
        ensures
            r.wf(),
            r.lipids@ == Seq::new(samples@.len(), |k: int| placed(k, samples@[k])),
            r.proteins@ == default_proteins(),
            r.dt == DT,
    {
        let n = samples.len();
        let mut lipids: Vec<Lipid> = Vec::with_capacity(n);
        let mut i: usize = 0;
        while i < n
            invariant
                i <= n == samples@.len(),
                forall|k: int| 0 <= k < samples@.len() ==> sample_ok(#[trigger] samples@[k]),
                lipids@.len() == i,
                forall|k: int| 0 <= k < i ==> lipids@[k] == placed(k, #[trigger] samples@[k]),
            decreases n - i,
        {
            let s = samples[i];
            let base: i64 = if i % 2 == 0 { LAYER } else { -LAYER };
            lipids.push(Lipid {
                pos: Vec3 { x: s.x, y: s.y, z: base + s.z },
                vel: Vec3::zeros(),
                force: Vec3::zeros(),
            });
            i = i + 1;
        }
        let proteins = vec![
            Protein { pos: Vec3::new(0, 0, 0), radius: 300_000 },
            Protein { pos: Vec3::new(SCALE, SCALE, 0), radius: 250_000 },
        ];
        let r = Simulation { lipids, proteins, dt: DT };
        assert(r.lipids@ =~= Seq::new(samples@.len(), |k: int| placed(k, samples@[k])));
        assert(r.proteins@ =~= default_proteins());
        r
    }

    /// `n` lipids seeded at random in two layers, at rest; the default
    /// proteins and time step.
    pub fn new(n: usize) -> (r: Simulation)
        requires
            n <= MAX_LIPIDS,
        ensures
            r.wf(),
            r.lipids@.len() == n,
            forall|k: int| 0 <= k < n ==> seeded(k, #[trigger] r.lipids@[k]),
            r.proteins@ == default_proteins(),
            r.dt == DT,
    {
        let mut samples: Vec<Vec3> = Vec::with_capacity(n);
        let mut i: usize = 0;
        while i < n
            invariant
                i <= n <= MAX_LIPIDS,
                samples@.len() == i,
                forall|k: int| 0 <= k < i ==> sample_ok(#[trigger] samples@[k]),
            decreases n - i,
        {
            let x = uniform(-SPAN, SPAN);
            let y = uniform(-SPAN, SPAN);
            let z = uniform(-JITTER, JITTER);
            samples.push(Vec3 { x, y, z });
            i = i + 1;
        }
        let r = Simulation::from_samples(&samples);
        assert forall|k: int| 0 <= k < n implies seeded(k, #[trigger] r.lipids@[k]) by {
            assert(sample_ok(samples@[k]) && r.lipids@[k] == placed(k, samples@[k]));
        }
        r
    }
    /// Advances every lipid by one time step: forces are recomputed from the
    /// current positions alone, then velocities and positions are updated.
    pub fn step(&mut self)
        requires
            old(self).wf(),
        ensures
            final(self).wf(),
            final(self).lipids@ == stepped(old(self).lipids@, old(self).dt as int),
            final(self).proteins@ == old(self).proteins@,
            final(self).dt == old(self).dt,
    {
        let n = self.lipids.len();
        let ghost ls = self.lipids@;
        let ghost ps = positions(ls);
        let mut forces: Vec<Vec3> = Vec::with_capacity(n);
        let mut k: usize = 0;
        while k < n
            invariant
                k <= n,
                forces@.len() == k,
                forall|q: int| 0 <= q < k ==> (#[trigger] forces@[q])@ == zero3(),
            decreases n - k,
        {
            forces.push(Vec3::zeros());
            k = k + 1;
        }
        let mut i: usize = 0;
        while i < n
            invariant
                self.lipids@ == ls,
                ps == positions(ls),
                n == ls.len(),
                n <= MAX_LIPIDS,
                i <= n,
                forall|q: int| 0 <= q < n ==> lipid_ok(#[trigger] ls[q]),
                forces@.len() == n,
                forall|q: int| 0 <= q < i ==> (#[trigger] forces@[q])@ == force_sum(ps, q, n as int),
                forall|q: int| i <= q < n ==> (#[trigger] forces@[q])@ == force_sum(ps, q, i as int),
            decreases n - i,
        {
            let pi = self.lipids[i].pos;
            let mut j: usize = i + 1;
            assert(force_sum(ps, i as int, i + 1) == force_sum(ps, i as int, i as int));
            while j < n
                invariant
                    self.lipids@ == ls,
                    ps == positions(ls),
                    n == ls.len(),
                    n <= MAX_LIPIDS,
                    i < j <= n,
                    pi == ps[i as int],
                    forall|q: int| 0 <= q < n ==> lipid_ok(#[trigger] ls[q]),
                    forces@.len() == n,
                    forall|q: int| 0 <= q < i ==> (#[trigger] forces@[q])@ == force_sum(ps, q, n as int),
                    forces@[i as int]@ == force_sum(ps, i as int, j as int),
                    forall|q: int| i < q < j ==> (#[trigger] forces@[q])@ == force_sum(ps, q, i + 1),
                    forall|q: int| j <= q < n ==> (#[trigger] forces@[q])@ == force_sum(ps, q, i as int),
                decreases n - j,
            {
                let pj = self.lipids[j].pos;
                assert(lipid_ok(ls[i as int]) && lipid_ok(ls[j as int]));
                let f = pair_force_exec(pi, pj);
                proof {
                    lemma_pair_force_antisymmetric(pi, pj);
                    lemma_force_sum_bounded(ps, i as int, j + 1);
                    lemma_force_sum_bounded(ps, j as int, i + 1);
                }
                let fi = forces[i];
                forces.set(i, Vec3 { x: fi.x + f.x, y: fi.y + f.y, z: fi.z + f.z });
                let fj = forces[j];
                forces.set(j, Vec3 { x: fj.x - f.x, y: fj.y - f.y, z: fj.z - f.z });
                j = j + 1;
            }
            i = i + 1;
        }
        let dt = self.dt;
        let mut k: usize = 0;
        while k < n
            invariant
                n == ls.len(),
                n <= MAX_LIPIDS,
                k <= n,
                ps == positions(ls),
                dt == old(self).dt,
                dt > 0,
                forall|q: int| 0 <= q < n ==> lipid_ok(#[trigger] ls[q]),
                forces@.len() == n,
                forall|q: int| 0 <= q < n ==> (#[trigger] forces@[q])@ == net_force(ps, q),
                self.lipids@.len() == n,
                self.proteins@ == old(self).proteins@,
                self.dt == dt,
                forall|q: int| 0 <= q < k ==> #[trigger] self.lipids@[q] == advance(ls, q, dt as int),
                forall|q: int| 0 <= q < k ==> lipid_ok(#[trigger] self.lipids@[q]),
                forall|q: int| k <= q < n ==> #[trigger] self.lipids@[q] == ls[q],
            decreases n - k,
        {
            let l = self.lipids[k];
            let f = forces[k];
            proof {
                lemma_force_sum_bounded(ps, k as int, n as int);
                assert(lipid_ok(ls[k as int]));
            }
            let (px, vx) = integrate_axis(l.pos.x, l.vel.x, f.x, dt);
            let (py, vy) = integrate_axis(l.pos.y, l.vel.y, f.y, dt);
            let (pz, vz) = integrate_axis(l.pos.z, l.vel.z, f.z, dt);
            let nl = Lipid { pos: Vec3 { x: px, y: py, z: pz }, vel: Vec3 { x: vx, y: vy, z: vz }, force: f };
            assert(nl == advance(ls, k as int, dt as int));
            self.lipids.set(k, nl);
            k = k + 1;
        }
        assert(self.lipids@ =~= stepped(ls, dt as int));
    }
    /// The position of every lipid, in order.
    pub fn export_positions(&self) -> (r: Vec<[i64; 3]>)
        ensures
            r@ == self.lipids@.map_values(|l: Lipid| triple(l.pos)),
    {
        let mut r: Vec<[i64; 3]> = Vec::with_capacity(self.lipids.len());
        let mut k: usize = 0;
        while k < self.lipids.len()
            invariant
                k <= self.lipids@.len(),
                r@ == self.lipids@.take(k as int).map_values(|l: Lipid| triple(l.pos)),
            decreases self.lipids@.len() - k,
        {
            let p = self.lipids[k].pos;
            r.push([p.x, p.y, p.z]);
            k = k + 1;
            assert(self.lipids@.take(k as int) =~= self.lipids@.take(k - 1).push(self.lipids@[k - 1]));
            assert(r@ =~= self.lipids@.take(k as int).map_values(|l: Lipid| triple(l.pos)));
        }
        assert(self.lipids@.take(k as int) =~= self.lipids@);
        r
    }

    /// A snapshot: the exported lipid positions, and each protein's position
    /// and radius, in order.
    pub fn frame(&self) -> (r: Frame)
        ensures
            r.lipids@ == self.lipids@.map_values(|l: Lipid| triple(l.pos)),
            r.proteins@ == self.proteins@.map_values(|p: Protein| (triple(p.pos), p.radius)),
    {
        let lipids = self.export_positions();
        let mut proteins: Vec<([i64; 3], i64)> = Vec::with_capacity(self.proteins.len());
        let mut k: usize = 0;
        while k < self.proteins.len()
            invariant
                k <= self.proteins@.len(),
                proteins@ == self.proteins@.take(k as int).map_values(|p: Protein| (triple(p.pos), p.radius)),
            decreases self.proteins@.len() - k,
        {
            let p = self.proteins[k];
            proteins.push(([p.pos.x, p.pos.y, p.pos.z], p.radius));
            k = k + 1;
            assert(self.proteins@.take(k as int) =~= self.proteins@.take(k - 1).push(self.proteins@[k - 1]));
            assert(proteins@ =~= self.proteins@.take(k as int).map_values(|p: Protein| (triple(p.pos), p.radius)));
        }
        assert(self.proteins@.take(k as int) =~= self.proteins@);
        Frame { lipids, proteins }
    }
}

} // verus!
