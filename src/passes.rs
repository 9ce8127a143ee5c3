use vstd::prelude::*;
use crate::mask::SolidMask;
use crate::schedule::{admits, Gate};
use crate::shape::GridShape;

verus! {

/// One value of the shared solver state: the horizontal or vertical
/// velocity on the left or bottom face of a cell, or the scratch slot in
/// which a cell keeps its relaxation correction between passes.
#[derive(Clone, Copy, Debug, PartialEq, Eq, Structural)]
pub enum Slot {
    U(usize, usize),
    V(usize, usize),
    Correction(usize, usize),
}

/// A grid-wide data-parallel kernel, one worker per cell of the padded
/// grid. Successive kernels are separated by a barrier.
#[derive(Clone, Copy, Debug, PartialEq, Eq, Structural)]
pub enum Kernel {
    Integrate,
    /// Each cell computes its relaxation correction from the velocities.
    Gather,
    /// Each cell applies its own correction to its left and bottom faces.
    ScatterBottomLeft,
    /// Each cell applies the corrections of its left and lower neighbours
    /// to its own left and bottom faces.
    ScatterTopRight,
    AdvectU,
    AdvectV,
    AdvectDensity,
    Copy,
}

/// One correction of a relaxation sweep: the correction computed at cell
/// `source`, weighted by its stencil, added to (`raise`) or subtracted from
/// the velocity in `slot`.
#[derive(Clone, Copy, Debug)]
pub struct Term {
    pub slot: Slot,
    pub source: (usize, usize),
    pub raise: bool,
}

pub open spec fn slot_cell(s: Slot) -> (usize, usize) {
    match s {
        Slot::U(i, j) => (i, j),
        Slot::V(i, j) => (i, j),
        Slot::Correction(i, j) => (i, j),
    }
}

pub open spec fn is_relaxation_pass(k: Kernel) -> bool {
    k == Kernel::Gather || k == Kernel::ScatterBottomLeft || k == Kernel::ScatterTopRight
}

pub open spec fn worker_in(g: GridShape, w: (usize, usize)) -> bool {
    g.in_bounds(w.0 as int, w.1 as int)
}

pub open spec fn interior_at(g: GridShape, i: int, j: int) -> bool {
    g.is_interior(i, j)
}

/// What worker `w` of a relaxation pass reads of the shared state.
pub open spec fn reads(g: GridShape, k: Kernel, w: (usize, usize)) -> Set<Slot> {
    let (i, j) = w;
    match k {
        Kernel::Gather => if interior_at(g, i as int, j as int) {
            set![Slot::U(i, j), Slot::U((i + 1) as usize, j), Slot::V(i, j), Slot::V(i, (j + 1) as usize)]
        } else {
            Set::empty()
        },
        Kernel::ScatterBottomLeft => if interior_at(g, i as int, j as int) {
            set![Slot::Correction(i, j)]
        } else {
            Set::empty()
        },
        Kernel::ScatterTopRight => (if interior_at(g, i - 1, j as int) {
            set![Slot::Correction((i - 1) as usize, j)]
        } else {
            Set::empty()
        }).union(
            if interior_at(g, i as int, j - 1) {
                set![Slot::Correction(i, (j - 1) as usize)]
            } else {
                Set::empty()
            },
        ),
        _ => Set::empty(),
    }
}

/// What worker `w` of a relaxation pass writes of the shared state.
pub open spec fn writes(g: GridShape, k: Kernel, w: (usize, usize)) -> Set<Slot> {
    let (i, j) = w;
    match k {
        Kernel::Gather => if interior_at(g, i as int, j as int) {
            set![Slot::Correction(i, j)]
        } else {
            Set::empty()
        },
        Kernel::ScatterBottomLeft => if interior_at(g, i as int, j as int) {
            set![Slot::U(i, j), Slot::V(i, j)]
        } else {
            Set::empty()
        },
        Kernel::ScatterTopRight => (if interior_at(g, i - 1, j as int) {
            set![Slot::U(i, j)]
        } else {
            Set::empty()
        }).union(
            if interior_at(g, i as int, j - 1) {
                set![Slot::V(i, j)]
            } else {
                Set::empty()
            },
        ),
        _ => Set::empty(),
    }
}

pub open spec fn pressure_cell(m: SolidMask, i: int, j: int) -> bool {
    admits(m, Gate::Pressure, i, j)
}

/// The four corrections that the sequential sweep applies when it visits
/// cell `c`; none for a cell that it skips.
pub open spec fn sequential_terms(m: SolidMask, c: (usize, usize)) -> Set<Term> {
    let (i, j) = c;
    if pressure_cell(m, i as int, j as int) {
        set![
            Term { slot: Slot::U(i, j), source: c, raise: true },
            Term { slot: Slot::U((i + 1) as usize, j), source: c, raise: false },
            Term { slot: Slot::V(i, j), source: c, raise: true },
            Term { slot: Slot::V(i, (j + 1) as usize), source: c, raise: false },
        ]
    } else {
        Set::empty()
    }
}

/// The corrections that worker `w` applies in a scatter pass.
pub open spec fn parallel_terms(m: SolidMask, k: Kernel, w: (usize, usize)) -> Set<Term> {
    let (i, j) = w;
    match k {
        Kernel::ScatterBottomLeft => if pressure_cell(m, i as int, j as int) {
            set![
                Term { slot: Slot::U(i, j), source: w, raise: true },
                Term { slot: Slot::V(i, j), source: w, raise: true },
            ]
        } else {
            Set::empty()
        },
        Kernel::ScatterTopRight => (if pressure_cell(m, i - 1, j as int) {
            set![Term { slot: Slot::U(i, j), source: ((i - 1) as usize, j), raise: false }]
        } else {
            Set::empty()
        }).union(
            if pressure_cell(m, i as int, j - 1) {
                set![Term { slot: Slot::V(i, j), source: (i, (j - 1) as usize), raise: false }]
            } else {
                Set::empty()
            },
        ),
        _ => Set::empty(),
    }
}

/// The scatter pass that applies correction `t`.
pub open spec fn applying_pass(t: Term) -> Kernel {
    if t.raise {
        Kernel::ScatterBottomLeft
    } else {
        Kernel::ScatterTopRight
    }
}

/// The relaxation passes are race-free: each worker writes only slots of
/// its own cell, so no two workers write the same slot, and no worker reads
/// a slot that any worker of the same pass writes. Every slot touched lies
/// inside the grid.
pub proof fn lemma_passes_race_free(
    g: GridShape,
    k: Kernel,
    w1: (usize, usize),
    w2: (usize, usize),
)
    requires
        g.wf(),
        is_relaxation_pass(k),
        worker_in(g, w1),
        worker_in(g, w2),
    ensures
        forall|s: Slot| #[trigger] writes(g, k, w1).contains(s) ==> slot_cell(s) == w1,
        w1 != w2 ==> writes(g, k, w1).disjoint(writes(g, k, w2)),
        reads(g, k, w1).disjoint(writes(g, k, w2)),
        forall|s: Slot| #[trigger] reads(g, k, w1).contains(s) ==> worker_in(g, slot_cell(s)),
{
    assert forall|s: Slot| #[trigger] writes(g, k, w1).contains(s) implies slot_cell(s) == w1 by {}
    assert forall|s: Slot| #[trigger] writes(g, k, w2).contains(s) implies slot_cell(s) == w2 by {}
}

/// What a scatter worker applies stays inside its footprint: it writes the
/// slot of each of its corrections and reads the scratch slot of the
/// correction's source.
pub proof fn lemma_terms_within_footprint(m: SolidMask, k: Kernel, w: (usize, usize), t: Term)
    requires
        m.wf(),
        k == Kernel::ScatterBottomLeft || k == Kernel::ScatterTopRight,
        worker_in(m.shape_of(), w),
        parallel_terms(m, k, w).contains(t),
    ensures
        writes(m.shape_of(), k, w).contains(t.slot),
        reads(m.shape_of(), k, w).contains(Slot::Correction(t.source.0, t.source.1)),
{
}

/// The two scatter passes together apply exactly the corrections of a
/// sequential sweep, each by exactly one worker: every correction applied
/// in parallel is one that the sequential sweep applies at its source
/// cell, and every sequential correction is applied by the worker that owns
/// its slot, in the pass that its sign selects, and by no other.
pub proof fn lemma_scatter_matches_sweep(
    m: SolidMask,
    k: Kernel,
    w: (usize, usize),
    c: (usize, usize),
    t: Term,
)
    requires
        m.wf(),
        k == Kernel::ScatterBottomLeft || k == Kernel::ScatterTopRight,
        worker_in(m.shape_of(), w),
    ensures
        parallel_terms(m, k, w).contains(t) ==> sequential_terms(m, t.source).contains(t),
        sequential_terms(m, c).contains(t) ==> t.source == c && worker_in(m.shape_of(), slot_cell(t.slot))
            && parallel_terms(m, applying_pass(t), slot_cell(t.slot)).contains(t),
        parallel_terms(m, k, w).contains(t) ==> k == applying_pass(t) && w == slot_cell(t.slot),
{
    let g = m.shape_of();
    if sequential_terms(m, c).contains(t) {
        let (i, j) = c;
        assert(pressure_cell(m, i as int, j as int));
        if t == (Term { slot: Slot::U((i + 1) as usize, j), source: c, raise: false }) {
            assert(((i + 1) as usize - 1) as usize == i);
            assert(parallel_terms(m, Kernel::ScatterTopRight, ((i + 1) as usize, j)).contains(t));
        }
        if t == (Term { slot: Slot::V(i, (j + 1) as usize), source: c, raise: false }) {
            assert(((j + 1) as usize - 1) as usize == j);
            assert(parallel_terms(m, Kernel::ScatterTopRight, (i, (j + 1) as usize)).contains(t));
        }
    }
}

/// The passes of `n` relaxation sweeps: gather, then the two scatters, `n`
/// times.
pub open spec fn sweep_kernels(n: nat) -> Seq<Kernel>
    decreases n,
{
    if n == 0 {
        Seq::empty()
    } else {
        sweep_kernels((n - 1) as nat) + seq![
            Kernel::Gather,
            Kernel::ScatterBottomLeft,
            Kernel::ScatterTopRight,
        ]
    }
}

/// The kernels of one parallel step, in dispatch order: gravity, `sweeps`
/// relaxation sweeps, the advection of `u`, `v` and density, and the copy
/// of the state to the output image.
pub open spec fn step_kernels_spec(sweeps: nat) -> Seq<Kernel> {
    seq![Kernel::Integrate] + sweep_kernels(sweeps) + seq![
        Kernel::AdvectU,
        Kernel::AdvectV,
        Kernel::AdvectDensity,
        Kernel::Copy,
    ]
}

/// The kernels to dispatch for one step with `sweeps` relaxation sweeps.
pub fn step_kernels(sweeps: usize) -> (r: Vec<Kernel>)
    requires
        3 * sweeps + 5 <= usize::MAX,
    ensures
        r@ == step_kernels_spec(sweeps as nat),
{
    let mut r: Vec<Kernel> = Vec::new();
    r.push(Kernel::Integrate);
    let mut n: usize = 0;
    while n < sweeps
        invariant
            0 <= n <= sweeps,
            r@ == seq![Kernel::Integrate] + sweep_kernels(n as nat),
        decreases sweeps - n,
    {
        r.push(Kernel::Gather);
        r.push(Kernel::ScatterBottomLeft);
        r.push(Kernel::ScatterTopRight);
        proof {
            assert(sweep_kernels((n + 1) as nat) == sweep_kernels(n as nat) + seq![
                Kernel::Gather,
                Kernel::ScatterBottomLeft,
                Kernel::ScatterTopRight,
            ]);
        }
        assert(r@ =~= seq![Kernel::Integrate] + sweep_kernels((n + 1) as nat));
        n = n + 1;
    }
    r.push(Kernel::AdvectU);
    r.push(Kernel::AdvectV);
    r.push(Kernel::AdvectDensity);
    r.push(Kernel::Copy);
    assert(r@ =~= step_kernels_spec(sweeps as nat));
    r
}

/// Sweep `q` of `n` occupies positions `3q`, `3q + 1` and `3q + 2`, as
/// gather, bottom-left scatter and top-right scatter.
pub proof fn lemma_sweep_kernels_layout(n: nat, q: nat)
    requires
        q < n,
    ensures
        sweep_kernels(n).len() == 3 * n,
        sweep_kernels(n)[3 * q as int] == Kernel::Gather,
        sweep_kernels(n)[3 * q as int + 1] == Kernel::ScatterBottomLeft,
        sweep_kernels(n)[3 * q as int + 2] == Kernel::ScatterTopRight,
    decreases n,
{
    lemma_sweep_kernels_len(n);
    if q < n - 1 {
        lemma_sweep_kernels_layout((n - 1) as nat, q);
    } else {
        lemma_sweep_kernels_len((n - 1) as nat);
    }
}

proof fn lemma_sweep_kernels_len(n: nat)
    ensures
        sweep_kernels(n).len() == 3 * n,
    decreases n,
{
    if n > 0 {
        lemma_sweep_kernels_len((n - 1) as nat);
    }
}

/// In a parallel step the phases never interleave: gravity comes first,
/// every relaxation pass comes before every advection kernel, and the copy
/// comes last.
pub proof fn lemma_step_phase_order(sweeps: nat, a: int, b: int)
    requires
        0 <= a < b < step_kernels_spec(sweeps).len(),
    ensures
        step_kernels_spec(sweeps).len() == 3 * sweeps + 5,
        step_kernels_spec(sweeps)[0] == Kernel::Integrate,
        step_kernels_spec(sweeps)[3 * sweeps as int + 4] == Kernel::Copy,
        is_relaxation_pass(step_kernels_spec(sweeps)[b]) ==> !is_relaxation_pass(step_kernels_spec(sweeps)[a])
            ==> step_kernels_spec(sweeps)[a] == Kernel::Integrate,
{
    lemma_sweep_kernels_len(sweeps);
    let s = step_kernels_spec(sweeps);
    let mid = sweep_kernels(sweeps);
    assert forall|k: int| 0 <= k < mid.len() implies is_relaxation_pass(#[trigger] mid[k]) by {
        let q = k / 3;
        assert(0 <= q < sweeps && (k == 3 * q || k == 3 * q + 1 || k == 3 * q + 2));
        lemma_sweep_kernels_layout(sweeps, q as nat);
    }
    if is_relaxation_pass(s[b]) {
        assert(1 <= b <= 3 * sweeps);
        if 1 <= a {
            assert(s[a] == mid[a - 1]);
        }
    }
}

} // verus!
