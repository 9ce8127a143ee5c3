use vstd::prelude::*;
use crate::shape::{GridShape, MAX_SIDE};

verus! {

/// Bound on the obstacle's centre numerators.
pub const MAX_CENTER: i64 = 1125899906842624;

/// Bound on the obstacle's denominator.
pub const MAX_DENOM: i64 = 1048576;

/// Bound on the obstacle's radius.
pub const MAX_RADIUS: i64 = 1073741824;

/// A disc-shaped obstacle centred at `(center_x / denom, center_y / denom)`
/// in cell coordinates. A cell belongs to it when the squared distance from
/// its index to the centre is below `radius^2`, or equal to it as well when
/// `closed` is set.
#[derive(Clone, Copy, Debug, PartialEq, Eq, Structural)]
pub struct Obstacle {
    pub center_x: i64,
    pub center_y: i64,
    pub denom: i64,
    pub radius: i64,
    pub closed: bool,
}

impl Obstacle {
    pub open spec fn wf(self) -> bool {
        &&& -MAX_CENTER <= self.center_x <= MAX_CENTER
        &&& -MAX_CENTER <= self.center_y <= MAX_CENTER
        &&& 1 <= self.denom <= MAX_DENOM
        &&& 0 <= self.radius <= MAX_RADIUS
    }

    /// Whether cell `(i, j)` lies in the disc, in exact arithmetic scaled by
    /// `denom`.
    pub open spec fn covers_cell(self, i: int, j: int) -> bool {
        let dx = self.denom * i - self.center_x;
        let dy = self.denom * j - self.center_y;
        let r = self.denom * self.radius;
        if self.closed {
            dx * dx + dy * dy <= r * r
        } else {
            dx * dx + dy * dy < r * r
        }
    }

    /// An obstacle with the given centre, denominator and radius; `None`
    /// when one of them is out of range.
    pub fn new(center_x: i64, center_y: i64, denom: i64, radius: i64, closed: bool) -> (r: Option<
        Obstacle,
    >)
        ensures
            r == (if (Obstacle { center_x, center_y, denom, radius, closed }).wf() {
                Some(Obstacle { center_x, center_y, denom, radius, closed })
            } else {
                None
            }),
    {
        let o = Obstacle { center_x, center_y, denom, radius, closed };
        if -MAX_CENTER <= center_x && center_x <= MAX_CENTER && -MAX_CENTER <= center_y
            && center_y <= MAX_CENTER && 1 <= denom && denom <= MAX_DENOM && 0 <= radius
            && radius <= MAX_RADIUS {
            Some(o)
        } else {
            None
        }
    }

    /// Whether cell `(i, j)` of a grid lies in the disc.
    pub fn covers(&self, i: usize, j: usize) -> (r: bool)
        requires
            self.wf(),
            i <= MAX_SIDE + 1,
            j <= MAX_SIDE + 1,
        ensures
            r == self.covers_cell(i as int, j as int),
    {
        let d = self.denom as i128;
        proof {
            assert(d * (i as int) <= MAX_DENOM * (MAX_SIDE + 1)) by (nonlinear_arith)
                requires
                    0 < d <= MAX_DENOM,
                    0 <= i <= MAX_SIDE + 1,
            ;
            assert(d * (j as int) <= MAX_DENOM * (MAX_SIDE + 1)) by (nonlinear_arith)
                requires
                    0 < d <= MAX_DENOM,
                    0 <= j <= MAX_SIDE + 1,
            ;
            assert(0 <= d * (i as int)) by (nonlinear_arith)
                requires
                    0 < d,
                    0 <= i,
            ;
            assert(0 <= d * (j as int)) by (nonlinear_arith)
                requires
                    0 < d,
                    0 <= j,
            ;
            assert(0 <= d * self.radius <= MAX_DENOM * MAX_RADIUS) by (nonlinear_arith)
                requires
                    0 < d <= MAX_DENOM,
                    0 <= self.radius <= MAX_RADIUS,
            ;
        }
        let dx = d * (i as i128) - self.center_x as i128;
        let dy = d * (j as i128) - self.center_y as i128;
        let r = d * self.radius as i128;
        proof {
            let b: int = 2251799813685248;
            assert(-b <= dx <= b);
            assert(-b <= dy <= b);
            assert(dx * dx <= b * b) by (nonlinear_arith)
                requires
                    -b <= dx <= b,
            ;
            assert(dy * dy <= b * b) by (nonlinear_arith)
                requires
                    -b <= dy <= b,
            ;
            assert(0 <= dx * dx) by (nonlinear_arith);
            assert(0 <= dy * dy) by (nonlinear_arith);
            assert(r * r <= b * b) by (nonlinear_arith)
                requires
                    0 <= r <= b,
            ;
        }
        let sq = dx * dx + dy * dy;
        if self.closed {
            sq <= r * r
        } else {
            sq < r * r
        }
    }
}

/// Which cells of a grid hold fluid. The halo ring is always solid, and so
/// is every interior cell that the obstacle covers.
pub struct SolidMask {
    shape: GridShape,
    fluid: Vec<Vec<bool>>,
}

impl SolidMask {
    pub closed spec fn shape_of(self) -> GridShape {
        self.shape
    }

    /// Whether cell `(i, j)` holds fluid.
    pub closed spec fn is_fluid_cell(self, i: int, j: int) -> bool {
        self.fluid@[i]@[j]
    }

    pub closed spec fn cells_wf(self) -> bool {
        &&& self.fluid@.len() == self.shape.cols()
        &&& forall|i: int| 0 <= i < self.shape.cols() ==> #[trigger] self.fluid@[i]@.len() == self.shape.rows()
    }

    pub open spec fn wf(self) -> bool {
        &&& self.shape_of().wf()
        &&& self.cells_wf()
        &&& forall|i: int, j: int|
            self.shape_of().in_bounds(i, j) && !self.shape_of().is_interior(i, j)
                ==> !#[trigger] self.is_fluid_cell(i, j)
    }

    /// The mask of a grid with solid walls all round and `obstacle`
    /// carved out of its interior.
    pub fn new(shape: GridShape, obstacle: Obstacle) -> (r: SolidMask)
        requires
            shape.wf(),
            obstacle.wf(),
        ensures
            r.wf(),
            r.shape_of() == shape,
            forall|i: int, j: int|
                shape.in_bounds(i, j) ==> (#[trigger] r.is_fluid_cell(i, j) <==> (
                shape.is_interior(i, j) && !obstacle.covers_cell(i, j))),
    {
        let cols = shape.width + 2;
        let rows = shape.height + 2;
        let mut fluid: Vec<Vec<bool>> = Vec::new();
        let mut i: usize = 0;
        while i < cols
            invariant
                shape.wf(),
                obstacle.wf(),
                cols == shape.cols(),
                rows == shape.rows(),
                0 <= i <= cols,
                fluid@.len() == i,
                forall|a: int| 0 <= a < i ==> #[trigger] fluid@[a]@.len() == rows,
                forall|a: int, b: int|
                    0 <= a < i && 0 <= b < rows ==> (#[trigger] fluid@[a]@[b] <==> (
                    shape.is_interior(a, b) && !obstacle.covers_cell(a, b))),
            decreases cols - i,
        {
            let mut column: Vec<bool> = Vec::new();
            let mut j: usize = 0;
            while j < rows
                invariant
                    shape.wf(),
                    obstacle.wf(),
                    cols == shape.cols(),
                    rows == shape.rows(),
                    0 <= i < cols,
                    0 <= j <= rows,
                    column@.len() == j,
                    forall|b: int|
                        0 <= b < j ==> (#[trigger] column@[b] <==> (shape.is_interior(
                            i as int,
                            b,
                        ) && !obstacle.covers_cell(i as int, b))),
                decreases rows - j,
            {
                let interior = 1 <= i && i <= shape.width && 1 <= j && j <= shape.height;
                let open = interior && !obstacle.covers(i, j);
                column.push(open);
                j = j + 1;
            }
            fluid.push(column);
            i = i + 1;
        }
        SolidMask { shape, fluid }
    }

    pub fn shape(&self) -> (r: GridShape)
        requires
            self.wf(),
        ensures
            r == self.shape_of(),
            r.wf(),
    {
        self.shape
    }

    /// Whether cell `(i, j)` holds fluid.
    pub fn is_fluid(&self, i: usize, j: usize) -> (r: bool)
        requires
            self.wf(),
            self.shape_of().in_bounds(i as int, j as int),
        ensures
            r == self.is_fluid_cell(i as int, j as int),
    {
        self.fluid[i][j]
    }
}

} // verus!
