use euler::mask::{Obstacle, SolidMask};
use euler::passes::{step_kernels, Kernel};
use euler::schedule::{cells_where, gate_admits, stencil, Gate, Schedule, Stencil};
use euler::shape::GridShape;

fn open_grid(width: usize, height: usize) -> SolidMask {
    let g = GridShape::new(width, height).unwrap();
    let far = Obstacle::new(1000, 1000, 1, 1, false).unwrap();
    SolidMask::new(g, far)
}

fn interior_from(width: usize, height: usize, i0: usize, j0: usize) -> Vec<(usize, usize)> {
    let mut r = Vec::new();
    for i in i0..=width {
        for j in j0..=height {
            r.push((i, j));
        }
    }
    r
}

#[test]
fn open_grid_schedule() {
    let m = open_grid(4, 4);
    let s = Schedule::new(&m);
    assert_eq!(s.gravity, interior_from(4, 4, 1, 2));
    assert_eq!(s.faces_v, interior_from(4, 4, 1, 2));
    assert_eq!(s.faces_u, interior_from(4, 4, 2, 1));
    assert_eq!(s.density, interior_from(4, 4, 1, 1));
    let cells: Vec<(usize, usize)> = s.pressure.iter().map(|st| (st.i, st.j)).collect();
    assert_eq!(cells, interior_from(4, 4, 1, 1));
}

#[test]
fn stencils_weigh_fluid_neighbours() {
    let m = open_grid(4, 4);
    let corner = stencil(&m, 1, 1);
    assert_eq!(
        corner,
        Stencil { i: 1, j: 1, left: 0, right: 1, down: 0, up: 1, count: 2 }
    );
    let edge = stencil(&m, 2, 4);
    assert_eq!(edge, Stencil { i: 2, j: 4, left: 1, right: 1, down: 1, up: 0, count: 3 });
    let inner = stencil(&m, 2, 3);
    assert_eq!(inner.count, 4);
    let s = Schedule::new(&m);
    for st in &s.pressure {
        assert_eq!(st.left + st.right + st.down + st.up, st.count);
        assert_eq!(*st, stencil(&m, st.i, st.j));
    }
}

#[test]
fn enclosed_cell_is_skipped_but_solid_edge_cells_are_visited() {
    let g = GridShape::new(5, 5).unwrap();
    let disc = Obstacle::new(3, 3, 1, 1, true).unwrap();
    let m = SolidMask::new(g, disc);
    let s = Schedule::new(&m);
    assert_eq!(s.pressure.len(), 24);
    assert!(!s.pressure.iter().any(|st| (st.i, st.j) == (3, 3)));
    let solid_edge = s.pressure.iter().find(|st| (st.i, st.j) == (2, 3)).unwrap();
    assert_eq!(*solid_edge, Stencil { i: 2, j: 3, left: 1, right: 0, down: 1, up: 1, count: 3 });
    assert_eq!(s.density.len(), 20);
    assert!(!gate_admits(&m, Gate::Density, 3, 3));
    assert!(!gate_admits(&m, Gate::FaceU, 4, 3));
    assert!(gate_admits(&m, Gate::FaceU, 5, 2));
    assert!(!gate_admits(&m, Gate::FaceV, 3, 5));
    assert!(gate_admits(&m, Gate::FaceV, 2, 5));
}

#[test]
fn gates_on_open_grid_edges() {
    let m = open_grid(4, 4);
    assert!(!gate_admits(&m, Gate::Gravity, 2, 1));
    assert!(gate_admits(&m, Gate::Gravity, 2, 2));
    assert!(!gate_admits(&m, Gate::FaceU, 1, 2));
    assert!(gate_admits(&m, Gate::FaceU, 2, 2));
    assert!(!gate_admits(&m, Gate::FaceV, 2, 1));
    assert!(gate_admits(&m, Gate::Pressure, 1, 1));
    assert_eq!(cells_where(&m, Gate::Gravity), cells_where(&m, Gate::FaceV));
}

#[test]
fn single_cell_grid_is_isolated() {
    let m = open_grid(1, 1);
    let s = Schedule::new(&m);
    assert!(s.pressure.is_empty());
    assert!(s.gravity.is_empty());
    assert!(s.faces_u.is_empty());
    assert!(s.faces_v.is_empty());
    assert_eq!(s.density, vec![(1, 1)]);
}

#[test]
fn step_kernel_order() {
    assert_eq!(step_kernels(0), vec![Kernel::Integrate, Kernel::AdvectU, Kernel::AdvectV, Kernel::AdvectDensity, Kernel::Copy]);
    assert_eq!(
        step_kernels(2),
        vec![
            Kernel::Integrate,
            Kernel::Gather,
            Kernel::ScatterBottomLeft,
            Kernel::ScatterTopRight,
            Kernel::Gather,
            Kernel::ScatterBottomLeft,
            Kernel::ScatterTopRight,
            Kernel::AdvectU,
            Kernel::AdvectV,
            Kernel::AdvectDensity,
            Kernel::Copy
        ]
    );
    assert_eq!(step_kernels(1000).len(), 3005);
}
