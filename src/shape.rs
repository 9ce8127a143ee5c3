use vstd::prelude::*;

verus! {

/// Largest interior side length. Cell coordinates become `f32` sample
/// positions, which hold every integer exactly only up to 2^24.
pub const MAX_SIDE: usize = 16777216;

/// Interior extent of a grid of `width x height` cells, surrounded by a
/// one-cell halo ring, so that indices run over `0..=width+1` and
/// `0..=height+1`.
#[derive(Clone, Copy, Debug, PartialEq, Eq, Structural)]
pub struct GridShape {
    pub width: usize,
    pub height: usize,
}

/// `k` clamped into `[1, hi]`.
pub open spec fn clamp_index(k: int, hi: int) -> int {
    if k < 1 {
        1
    } else if k > hi {
        hi
    } else {
        k
    }
}

impl GridShape {
    pub open spec fn wf(self) -> bool {
        &&& 1 <= self.width <= MAX_SIDE
        &&& 1 <= self.height <= MAX_SIDE
        &&& self.cols() * self.rows() <= usize::MAX
    }

    /// Number of columns, halo included.
    pub open spec fn cols(self) -> int {
        self.width + 2
    }

    /// Number of rows, halo included.
    pub open spec fn rows(self) -> int {
        self.height + 2
    }

    pub open spec fn in_bounds(self, i: int, j: int) -> bool {
        0 <= i < self.cols() && 0 <= j < self.rows()
    }

    pub open spec fn is_interior(self, i: int, j: int) -> bool {
        1 <= i <= self.width && 1 <= j <= self.height
    }

    /// Position of cell `(i, j)` in a column-fastest flat buffer.
    pub open spec fn flat(self, i: int, j: int) -> int {
        i + j * self.cols()
    }

    /// A shape for `width x height` interior cells; `None` when a side is
    /// zero or larger than `MAX_SIDE`, or when the padded cell count does
    /// not fit in `usize`.
    pub fn new(width: usize, height: usize) -> (r: Option<GridShape>)
        ensures
            r == (if (GridShape { width, height }).wf() {
                Some(GridShape { width, height })
            } else {
                None
            }),
    {
        if 1 <= width && width <= MAX_SIDE && 1 <= height && height <= MAX_SIDE {
            match (width + 2).checked_mul(height + 2) {
                Some(_) => Some(GridShape { width, height }),
                None => None,
            }
        } else {
            None
        }
    }

    pub fn columns(&self) -> (r: usize)
        requires
            self.wf(),
        ensures
            r == self.cols(),
    {
        self.width + 2
    }

    pub fn rows_total(&self) -> (r: usize)
        requires
            self.wf(),
        ensures
            r == self.rows(),
    {
        self.height + 2
    }

    /// Index of cell `(i, j)` in a flat buffer laid out row by row, each
    /// row holding `width + 2` cells.
    pub fn flat_index(&self, i: usize, j: usize) -> (r: usize)
        requires
            self.wf(),
            self.in_bounds(i as int, j as int),
        ensures
            r == self.flat(i as int, j as int),
            r < self.cols() * self.rows(),
    {
        let c = self.width + 2;
        proof {
            let cc = c as int;
            let rr = self.rows();
            assert(j * cc <= (rr - 1) * cc) by (nonlinear_arith)
                requires
                    0 <= j < rr,
                    0 < cc,
            ;
            assert((rr - 1) * cc + cc == rr * cc) by (nonlinear_arith);
            assert(cc * rr == rr * cc) by (nonlinear_arith);
        }
        i + j * c
    }

    /// Lower corner of the 2x2 block that a bilinear sample reads, given the
    /// integer parts `(i, j)` of the sample position: each clamped into the
    /// interior so that the block stays inside the grid.
    pub fn sample_base(&self, i: usize, j: usize) -> (r: (usize, usize))
        requires
            self.wf(),
        ensures
            r.0 == clamp_index(i as int, self.width as int),
            r.1 == clamp_index(j as int, self.height as int),
            self.is_interior(r.0 as int, r.1 as int),
            self.in_bounds(r.0 + 1, r.1 + 1),
    {
        let ci = if i < 1 {
            1
        } else if i > self.width {
            self.width
        } else {
            i
        };
        let cj = if j < 1 {
            1
        } else if j > self.height {
            self.height
        } else {
            j
        };
        (ci, cj)
    }

    /// Row on which the inflow is injected by default: the middle row.
    pub fn middle_row(&self) -> (r: usize)
        requires
            self.wf(),
        ensures
            r == self.height / 2,
            r < self.rows(),
    {
        self.height / 2
    }

    /// Faces where the inflow velocity is injected on row `row`: the left
    /// face of the first column and the right face of the last column.
    pub fn inflow_faces(&self, row: usize) -> (r: Vec<(usize, usize)>)
        requires
            self.wf(),
            row < self.rows(),
        ensures
            r@ == seq![(1usize, row), ((self.width + 1) as usize, row)],
            forall|k: int| 0 <= k < r@.len() ==> self.in_bounds(#[trigger] r@[k].0 as int, r@[k].1 as int),
    {
        let r = vec![(1, row), (self.width + 1, row)];
        assert(r@ =~= seq![(1usize, row), ((self.width + 1) as usize, row)]);
        r
    }
}

/// Distinct cells of a shape never share a flat buffer position.
pub proof fn lemma_flat_index_injective(g: GridShape, i1: int, j1: int, i2: int, j2: int)
    requires
        g.wf(),
        g.in_bounds(i1, j1),
        g.in_bounds(i2, j2),
        g.flat(i1, j1) == g.flat(i2, j2),
    ensures
        i1 == i2 && j1 == j2,
{
    let c = g.cols();
    if j1 < j2 {
        assert(j1 * c + c <= j2 * c) by (nonlinear_arith)
            requires
                j1 < j2,
                c > 0,
        ;
    } else if j2 < j1 {
        assert(j2 * c + c <= j1 * c) by (nonlinear_arith)
            requires
                j2 < j1,
                c > 0,
        ;
    }
}

} // verus!
