use euler::mask::{Obstacle, SolidMask};
use euler::shape::{GridShape, MAX_SIDE};

#[test]
fn shape_rejects_empty_and_oversized_sides() {
    assert!(GridShape::new(0, 4).is_none());
    assert!(GridShape::new(4, 0).is_none());
    assert!(GridShape::new(MAX_SIDE + 1, 4).is_none());
    assert!(GridShape::new(4, MAX_SIDE + 1).is_none());
    let g = GridShape::new(200, 100).unwrap();
    assert_eq!((g.width, g.height), (200, 100));
    assert_eq!(g.columns(), 202);
    assert_eq!(g.rows_total(), 102);
}

#[test]
fn flat_index_is_row_major_over_padded_rows() {
    let g = GridShape::new(254, 254).unwrap();
    assert_eq!(g.flat_index(0, 0), 0);
    assert_eq!(g.flat_index(1, 128), 256 * 128 + 1);
    assert_eq!(g.flat_index(255, 128), 256 * 128 + 255);
    assert_eq!(g.flat_index(255, 255), 256 * 256 - 1);
}

#[test]
fn sample_base_clamps_into_interior() {
    let g = GridShape::new(4, 3).unwrap();
    assert_eq!(g.sample_base(0, 0), (1, 1));
    assert_eq!(g.sample_base(2, 2), (2, 2));
    assert_eq!(g.sample_base(4, 3), (4, 3));
    assert_eq!(g.sample_base(5, 9), (4, 3));
    assert_eq!(g.sample_base(usize::MAX, 1), (4, 1));
}

#[test]
fn inflow_faces_sit_on_both_walls() {
    let g = GridShape::new(200, 100).unwrap();
    assert_eq!(g.middle_row(), 50);
    assert_eq!(g.inflow_faces(g.middle_row()), vec![(1, 50), (201, 50)]);
    let g = GridShape::new(254, 254).unwrap();
    assert_eq!(g.inflow_faces(128), vec![(1, 128), (255, 128)]);
}

#[test]
fn obstacle_rejects_out_of_range_parameters() {
    assert!(Obstacle::new(0, 0, 0, 1, false).is_none());
    assert!(Obstacle::new(0, 0, 1, -1, false).is_none());
    assert!(Obstacle::new(0, 0, 2_000_000, 1, false).is_none());
    assert!(Obstacle::new(i64::MAX, 0, 1, 1, false).is_none());
    assert!(Obstacle::new(0, 0, 1, 0, true).is_some());
}

#[test]
fn open_disc_excludes_its_rim() {
    // Centre (200 / 5, 100 / 2) = (40, 50), radius 15, in tenths.
    let o = Obstacle::new(400, 500, 10, 15, false).unwrap();
    assert!(o.covers(40, 50));
    assert!(o.covers(54, 50));
    assert!(!o.covers(55, 50));
    assert!(!o.covers(40, 65));
    assert!(o.covers(49, 61));
    assert!(!o.covers(49, 62));
}

#[test]
fn closed_disc_includes_its_rim() {
    let o = Obstacle::new(50, 128, 1, 20, true).unwrap();
    assert!(o.covers(70, 128));
    assert!(o.covers(50, 108));
    assert!(o.covers(62, 144));
    assert!(!o.covers(71, 128));
}

#[test]
fn fractional_centre_is_exact() {
    // Centre (14 / 10, 5 / 10) = (1.4, 0.5), radius 1: (2, 1) lies at
    // squared distance 0.36 + 0.25 = 0.61.
    let o = Obstacle::new(14, 5, 10, 1, false).unwrap();
    assert!(o.covers(2, 1));
    assert!(o.covers(1, 1));
    assert!(!o.covers(3, 1));
}

#[test]
fn mask_walls_and_obstacle() {
    let g = GridShape::new(6, 5).unwrap();
    let far = Obstacle::new(100, 100, 1, 1, false).unwrap();
    let m = SolidMask::new(g, far);
    assert_eq!(m.shape(), g);
    for i in 0..8 {
        for j in 0..7 {
            let interior = (1..=6).contains(&i) && (1..=5).contains(&j);
            assert_eq!(m.is_fluid(i, j), interior, "cell ({}, {})", i, j);
        }
    }
    let disc = Obstacle::new(3, 3, 1, 1, true).unwrap();
    let m = SolidMask::new(g, disc);
    for (i, j) in [(3, 3), (2, 3), (4, 3), (3, 2), (3, 4)] {
        assert!(!m.is_fluid(i, j));
    }
    assert!(m.is_fluid(2, 2));
    assert!(m.is_fluid(4, 4));
    assert!(!m.is_fluid(0, 3));
}
