use vstd::prelude::*;
use crate::mask::SolidMask;

verus! {

/// The condition under which a solver phase touches cell or face `(i, j)`.
#[derive(Clone, Copy, Debug, PartialEq, Eq, Structural)]
pub enum Gate {
    /// Gravity on the bottom face of an interior cell whose lower
    /// neighbour is fluid too.
    Gravity,
    /// Advection of the left face of a cell, between two fluid cells, for
    /// `2 <= i <= width`.
    FaceU,
    /// Advection of the bottom face of a cell, between two fluid cells, for
    /// `2 <= j <= height`.
    FaceV,
    /// Advection of density in a fluid interior cell.
    Density,
    /// Pressure relaxation of an interior cell with at least one fluid
    /// neighbour.
    Pressure,
}

pub open spec fn weight(b: bool) -> int {
    if b {
        1
    } else {
        0
    }
}

/// Number of fluid cells among the four neighbours of `(i, j)`.
pub open spec fn fluid_neighbors(m: SolidMask, i: int, j: int) -> int {
    weight(m.is_fluid_cell(i - 1, j)) + weight(m.is_fluid_cell(i, j - 1)) + weight(
        m.is_fluid_cell(i + 1, j),
    ) + weight(m.is_fluid_cell(i, j + 1))
}

pub open spec fn admits(m: SolidMask, g: Gate, i: int, j: int) -> bool {
    let s = m.shape_of();
    match g {
        Gate::Gravity => s.is_interior(i, j) && m.is_fluid_cell(i, j) && m.is_fluid_cell(i, j - 1),
        Gate::FaceU => 2 <= i <= s.width && 1 <= j <= s.height && m.is_fluid_cell(i, j)
            && m.is_fluid_cell(i - 1, j),
        Gate::FaceV => 1 <= i <= s.width && 2 <= j <= s.height && m.is_fluid_cell(i, j)
            && m.is_fluid_cell(i, j - 1),
        Gate::Density => s.is_interior(i, j) && m.is_fluid_cell(i, j),
        Gate::Pressure => s.is_interior(i, j) && fluid_neighbors(m, i, j) > 0,
    }
}

/// Row-major order on cells: by `i`, then by `j`.
pub open spec fn precedes(a: (usize, usize), b: (usize, usize)) -> bool {
    a.0 < b.0 || (a.0 == b.0 && a.1 < b.1)
}

/// `cells` lists, each once and in row-major order, exactly the cells that
/// gate `g` admits.
pub open spec fn enumerates(m: SolidMask, g: Gate, cells: Seq<(usize, usize)>) -> bool {
    &&& forall|k: int| 0 <= k < cells.len() ==> admits(m, g, #[trigger] cells[k].0 as int, cells[k].1 as int)
    &&& forall|k1: int, k2: int|
        0 <= k1 < k2 < cells.len() ==> precedes(#[trigger] cells[k1], #[trigger] cells[k2])
    &&& forall|i: int, j: int|
        admits(m, g, i, j) ==> exists|k: int|
            0 <= k < cells.len() && #[trigger] cells[k] == (i as usize, j as usize)
}

/// Whether gate `g` admits cell `(i, j)` of an interior range.
pub fn gate_admits(m: &SolidMask, g: Gate, i: usize, j: usize) -> (r: bool)
    requires
        m.wf(),
        m.shape_of().is_interior(i as int, j as int),
    ensures
        r == admits(*m, g, i as int, j as int),
{
    let s = m.shape();
    match g {
        Gate::Gravity => m.is_fluid(i, j) && m.is_fluid(i, j - 1),
        Gate::FaceU => 2 <= i && m.is_fluid(i, j) && m.is_fluid(i - 1, j),
        Gate::FaceV => 2 <= j && m.is_fluid(i, j) && m.is_fluid(i, j - 1),
        Gate::Density => m.is_fluid(i, j),
        Gate::Pressure => m.is_fluid(i - 1, j) || m.is_fluid(i, j - 1) || m.is_fluid(i + 1, j)
            || m.is_fluid(i, j + 1),
    }
}

/// The cells that gate `g` admits, in row-major order.
pub fn cells_where(m: &SolidMask, g: Gate) -> (r: Vec<(usize, usize)>)
    requires
        m.wf(),
    ensures
        enumerates(*m, g, r@),
{
    let s = m.shape();
    let mut cells: Vec<(usize, usize)> = Vec::new();
    let mut i: usize = 1;
    while i <= s.width
        invariant
            m.wf(),
            s == m.shape_of(),
            1 <= i <= s.width + 1,
            forall|k: int|
                0 <= k < cells@.len() ==> admits(*m, g, #[trigger] cells@[k].0 as int, cells@[k].1 as int)
                    && cells@[k].0 < i,
            forall|k1: int, k2: int|
                0 <= k1 < k2 < cells@.len() ==> precedes(#[trigger] cells@[k1], #[trigger] cells@[k2]),
            forall|a: int, b: int|
                admits(*m, g, a, b) && a < i ==> exists|k: int|
                    0 <= k < cells@.len() && #[trigger] cells@[k] == (a as usize, b as usize),
        decreases s.width + 1 - i,
    {
        let mut j: usize = 1;
        while j <= s.height
            invariant
                m.wf(),
                s == m.shape_of(),
                1 <= i <= s.width,
                1 <= j <= s.height + 1,
                forall|k: int|
                    0 <= k < cells@.len() ==> admits(*m, g, #[trigger] cells@[k].0 as int, cells@[k].1 as int)
                        && precedes(cells@[k], (i, j)),
                forall|k1: int, k2: int|
                    0 <= k1 < k2 < cells@.len() ==> precedes(#[trigger] cells@[k1], #[trigger] cells@[k2]),
                forall|a: int, b: int|
                    admits(*m, g, a, b) && (a < i || (a == i && b < j)) ==> exists|k: int|
                        0 <= k < cells@.len() && #[trigger] cells@[k] == (a as usize, b as usize),
            decreases s.height + 1 - j,
        {
            if gate_admits(m, g, i, j) {
                let ghost before = cells@;
                cells.push((i, j));
                assert forall|a: int, b: int|
                    admits(*m, g, a, b) && (a < i || (a == i && b < j + 1)) implies exists|k: int|
                        0 <= k < cells@.len() && #[trigger] cells@[k] == (a as usize, b as usize) by {
                    if a == i && b == j {
                        assert(cells@[before.len() as int] == (a as usize, b as usize));
                    } else {
                        let k = choose|k: int|
                            0 <= k < before.len() && #[trigger] before[k] == (a as usize, b as usize);
                        assert(cells@[k] == before[k]);
                    }
                }
            }
            j = j + 1;
        }
        i = i + 1;
    }
    cells
}

/// Relaxation weights of one cell: 1 on each face whose neighbour across it
/// is fluid, 0 on each face whose neighbour is solid, and their sum.
#[derive(Clone, Copy, Debug, PartialEq, Eq, Structural)]
pub struct Stencil {
    pub i: usize,
    pub j: usize,
    pub left: u8,
    pub right: u8,
    pub down: u8,
    pub up: u8,
    pub count: u8,
}

pub open spec fn stencil_of(m: SolidMask, i: usize, j: usize) -> Stencil {
    Stencil {
        i,
        j,
        left: weight(m.is_fluid_cell(i - 1, j as int)) as u8,
        right: weight(m.is_fluid_cell(i + 1, j as int)) as u8,
        down: weight(m.is_fluid_cell(i as int, j - 1)) as u8,
        up: weight(m.is_fluid_cell(i as int, j + 1)) as u8,
        count: fluid_neighbors(m, i as int, j as int) as u8,
    }
}

pub open spec fn stencil_cells(sts: Seq<Stencil>) -> Seq<(usize, usize)> {
    sts.map_values(|st: Stencil| (st.i, st.j))
}

fn flag(b: bool) -> (r: u8)
    ensures
        r == weight(b),
{
    if b {
        1
    } else {
        0
    }
}

/// The relaxation stencil of interior cell `(i, j)`.
pub fn stencil(m: &SolidMask, i: usize, j: usize) -> (r: Stencil)
    requires
        m.wf(),
        m.shape_of().is_interior(i as int, j as int),
    ensures
        r == stencil_of(*m, i, j),
{
    let left = flag(m.is_fluid(i - 1, j));
    let right = flag(m.is_fluid(i + 1, j));
    let down = flag(m.is_fluid(i, j - 1));
    let up = flag(m.is_fluid(i, j + 1));
    Stencil { i, j, left, right, down, up, count: left + down + right + up }
}

/// Everything that the solver's phases need to know of the solidity mask,
/// computed once: since the mask never changes, neither does any of this.
pub struct Schedule {
    /// Bottom faces that receive gravity.
    pub gravity: Vec<(usize, usize)>,
    /// Left faces whose horizontal velocity is advected.
    pub faces_u: Vec<(usize, usize)>,
    /// Bottom faces whose vertical velocity is advected.
    pub faces_v: Vec<(usize, usize)>,
    /// Cells whose density is advected.
    pub density: Vec<(usize, usize)>,
    /// Cells visited by each relaxation sweep, in visiting order.
    pub pressure: Vec<Stencil>,
}

impl Schedule {
    pub open spec fn describes(self, m: SolidMask) -> bool {
        &&& enumerates(m, Gate::Gravity, self.gravity@)
        &&& enumerates(m, Gate::FaceU, self.faces_u@)
        &&& enumerates(m, Gate::FaceV, self.faces_v@)
        &&& enumerates(m, Gate::Density, self.density@)
        &&& enumerates(m, Gate::Pressure, stencil_cells(self.pressure@))
        &&& forall|k: int|
            0 <= k < self.pressure@.len() ==> #[trigger] self.pressure@[k] == stencil_of(
                m,
                self.pressure@[k].i,
                self.pressure@[k].j,
            )
    }

    /// The schedule of every phase over mask `m`.
    pub fn new(m: &SolidMask) -> (r: Schedule)
        requires
            m.wf(),
        ensures
            r.describes(*m),
    {
        let cells = cells_where(m, Gate::Pressure);
        let mut pressure: Vec<Stencil> = Vec::new();
        let mut k: usize = 0;
        while k < cells.len()
            invariant
                m.wf(),
                enumerates(*m, Gate::Pressure, cells@),
                0 <= k <= cells@.len(),
                pressure@.len() == k,
                forall|a: int| 0 <= a < k ==> #[trigger] pressure@[a] == stencil_of(*m, cells@[a].0, cells@[a].1),
            decreases cells@.len() - k,
        {
            let (i, j) = cells[k];
            proof {
                assert(admits(*m, Gate::Pressure, cells@[k as int].0 as int, cells@[k as int].1 as int));
            }
            pressure.push(stencil(m, i, j));
            k = k + 1;
        }
        assert(stencil_cells(pressure@) =~= cells@);
        Schedule {
            gravity: cells_where(m, Gate::Gravity),
            faces_u: cells_where(m, Gate::FaceU),
            faces_v: cells_where(m, Gate::FaceV),
            density: cells_where(m, Gate::Density),
            pressure,
        }
    }
}

/// The stencil of a visited cell has weight 1 exactly on the faces whose
/// neighbour is fluid, its weights add up to its count, and that count is
/// between 1 and 4: a sweep never divides by zero, and the four corrections
/// of a cell together remove exactly the relaxed divergence.
pub proof fn lemma_stencil_balance(m: SolidMask, i: usize, j: usize)
    requires
        m.wf(),
        admits(m, Gate::Pressure, i as int, j as int),
    ensures
        stencil_of(m, i, j).left == 1 <==> m.is_fluid_cell(i - 1, j as int),
        stencil_of(m, i, j).right == 1 <==> m.is_fluid_cell(i + 1, j as int),
        stencil_of(m, i, j).down == 1 <==> m.is_fluid_cell(i as int, j - 1),
        stencil_of(m, i, j).up == 1 <==> m.is_fluid_cell(i as int, j + 1),
        stencil_of(m, i, j).left + stencil_of(m, i, j).right + stencil_of(m, i, j).down
            + stencil_of(m, i, j).up == stencil_of(m, i, j).count,
        1 <= stencil_of(m, i, j).count <= 4,
{
}

/// Gravity and vertical advection act on the same faces: the halo row
/// below the first interior row is solid, so the ranges of the two gates
/// differ only on faces that neither admits.
pub proof fn lemma_gravity_faces_are_advected_faces(m: SolidMask, i: int, j: int)
    requires
        m.wf(),
    ensures
        admits(m, Gate::Gravity, i, j) <==> admits(m, Gate::FaceV, i, j),
{
    let s = m.shape_of();
    if s.is_interior(i, j) && j == 1 {
        assert(s.in_bounds(i, 0) && !s.is_interior(i, 0));
        assert(!m.is_fluid_cell(i, 0));
    }
}

/// Gravity and advection never write a velocity face with solid on either
/// side, nor the density of a solid cell.
pub proof fn lemma_gated_writes_avoid_solids(m: SolidMask, sch: Schedule)
    requires
        m.wf(),
        sch.describes(m),
    ensures
        forall|k: int|
            0 <= k < sch.gravity@.len() ==> m.is_fluid_cell(#[trigger] sch.gravity@[k].0 as int, sch.gravity@[k].1 as int)
                && m.is_fluid_cell(sch.gravity@[k].0 as int, sch.gravity@[k].1 - 1),
        forall|k: int|
            0 <= k < sch.faces_u@.len() ==> m.is_fluid_cell(#[trigger] sch.faces_u@[k].0 as int, sch.faces_u@[k].1 as int)
                && m.is_fluid_cell(sch.faces_u@[k].0 - 1, sch.faces_u@[k].1 as int),
        forall|k: int|
            0 <= k < sch.faces_v@.len() ==> m.is_fluid_cell(#[trigger] sch.faces_v@[k].0 as int, sch.faces_v@[k].1 as int)
                && m.is_fluid_cell(sch.faces_v@[k].0 as int, sch.faces_v@[k].1 - 1),
        forall|k: int|
            0 <= k < sch.density@.len() ==> m.is_fluid_cell(#[trigger] sch.density@[k].0 as int, sch.density@[k].1 as int),
{
}

/// Net outflow of cell `(i, j)` in exact arithmetic, from the horizontal
/// velocities `u` on left faces and the vertical velocities `v` on bottom
/// faces.
pub open spec fn divergence(u: spec_fn(int, int) -> int, v: spec_fn(int, int) -> int, i: int, j: int) -> int {
    u(i + 1, j) - u(i, j) + v(i, j + 1) - v(i, j)
}

/// `u` after the relaxation of stencil `st` with correction `c` per unit of
/// weight: its left face gains `c * left`, its right face loses `c * right`.
pub open spec fn relaxed_u(u: spec_fn(int, int) -> int, st: Stencil, c: int) -> spec_fn(int, int) -> int {
    |a: int, b: int|
        if a == st.i && b == st.j {
            u(a, b) + c * st.left
        } else if a == st.i + 1 && b == st.j {
            u(a, b) - c * st.right
        } else {
            u(a, b)
        }
}

/// `v` after the relaxation of stencil `st` with correction `c` per unit of
/// weight: its bottom face gains `c * down`, its top face loses `c * up`.
pub open spec fn relaxed_v(v: spec_fn(int, int) -> int, st: Stencil, c: int) -> spec_fn(int, int) -> int {
    |a: int, b: int|
        if a == st.i && b == st.j {
            v(a, b) + c * st.down
        } else if a == st.i && b == st.j + 1 {
            v(a, b) - c * st.up
        } else {
            v(a, b)
        }
}

/// Relaxing a visited cell lowers its own divergence by exactly `c` times
/// its count, so that the correction `div / count` leaves it
/// divergence-free; each neighbour across a fluid face gains `c`, and no
/// other cell changes.
pub proof fn lemma_relaxation_divergence(
    m: SolidMask,
    u: spec_fn(int, int) -> int,
    v: spec_fn(int, int) -> int,
    i: usize,
    j: usize,
    c: int,
    a: int,
    b: int,
)
    requires
        m.wf(),
        admits(m, Gate::Pressure, i as int, j as int),
    ensures
        divergence(relaxed_u(u, stencil_of(m, i, j), c), relaxed_v(v, stencil_of(m, i, j), c), i as int, j as int)
            == divergence(u, v, i as int, j as int) - c * stencil_of(m, i, j).count,
        divergence(relaxed_u(u, stencil_of(m, i, j), c), relaxed_v(v, stencil_of(m, i, j), c), a, b)
            == divergence(u, v, a, b) + (if a == i - 1 && b == j {
            c * weight(m.is_fluid_cell(a, b))
        } else if a == i + 1 && b == j {
            c * weight(m.is_fluid_cell(a, b))
        } else if a == i && b == j - 1 {
            c * weight(m.is_fluid_cell(a, b))
        } else if a == i && b == j + 1 {
            c * weight(m.is_fluid_cell(a, b))
        } else if a == i && b == j {
            -c * stencil_of(m, i, j).count
        } else {
            0
        }),
{
    let st = stencil_of(m, i, j);
    lemma_stencil_balance(m, i, j);
    assert(c * st.left + c * st.right + c * st.down + c * st.up == c * st.count) by (nonlinear_arith)
        requires
            st.left + st.right + st.down + st.up == st.count,
    ;
    let ru = relaxed_u(u, st, c);
    let rv = relaxed_v(v, st, c);
    let (ii, jj) = (i as int, j as int);
    assert(ru(ii, jj) == u(ii, jj) + c * st.left);
    assert(ru(ii + 1, jj) == u(ii + 1, jj) - c * st.right);
    assert(rv(ii, jj) == v(ii, jj) + c * st.down);
    assert(rv(ii, jj + 1) == v(ii, jj + 1) - c * st.up);
    if a == ii - 1 && b == jj {
        assert(ru(a + 1, b) == u(a + 1, b) + c * st.left);
        assert(st.left == weight(m.is_fluid_cell(a, b)));
    } else if a == ii + 1 && b == jj {
        assert(ru(a, b) == u(a, b) - c * st.right);
        assert(st.right == weight(m.is_fluid_cell(a, b)));
    } else if a == ii && b == jj - 1 {
        assert(rv(a, b + 1) == v(a, b + 1) + c * st.down);
        assert(st.down == weight(m.is_fluid_cell(a, b)));
    } else if a == ii && b == jj + 1 {
        assert(rv(a, b) == v(a, b) - c * st.up);
        assert(st.up == weight(m.is_fluid_cell(a, b)));
    } else if a == ii && b == jj {
        assert((0 - c) * st.count == -(c * st.count)) by (nonlinear_arith);
    } else {
        assert(ru(a, b) == u(a, b));
        assert(ru(a + 1, b) == u(a + 1, b));
        assert(rv(a, b) == v(a, b));
        assert(rv(a, b + 1) == v(a, b + 1));
    }
}

} // verus!
