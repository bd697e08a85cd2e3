use pcm_vis::diagram::{
    check_corner_consistency, Boundary, CornerViolation, Defect, Diagram, Side, Site, Tolerance,
};
use pcm_vis::scalar::Scalar;

const EPS: f64 = 0.00001;

fn s(x: f64) -> Scalar {
    Scalar::from_bits(x.to_bits())
}

fn tol() -> Tolerance {
    Tolerance { eps: s(EPS), one_less_eps: s(1.0 - EPS) }
}

fn b(start: f64, end: f64) -> Option<Boundary> {
    Some(Boundary { start: s(start), end: s(end) })
}

fn violation(i: usize, j: usize, axis: usize, side: Side, defect: Defect) -> CornerViolation {
    CornerViolation { site: Site { i, j, axis, side }, defect }
}

/// A 2 by 2 lattice in which every vertex is free and every edge is free
/// from end to end.
fn all_free() -> Diagram {
    let mut d = Diagram::new(2, 2, 1, 1).unwrap();
    for j in 0..2 {
        for i in 0..2 {
            d.set_corner(i, j, true);
        }
    }
    for axis in 0..2 {
        for x in 0..2 {
            d.set_edge(axis, x, 0, b(0.0, 1.0));
        }
    }
    d
}

#[test]
fn a_blank_diagram_is_consistent() {
    let d = Diagram::new(3, 4, 3, 2).unwrap();
    assert_eq!(check_corner_consistency(&d, &tol()), Ok(()));
}

#[test]
fn a_fully_free_diagram_is_consistent() {
    assert_eq!(check_corner_consistency(&all_free(), &tol()), Ok(()));
}

#[test]
fn an_empty_lattice_is_consistent() {
    let d = Diagram::new(0, 0, 0, 0).unwrap();
    assert_eq!(check_corner_consistency(&d, &tol()), Ok(()));
}

#[test]
fn new_keeps_what_it_was_given() {
    let d = Diagram::new(3, 4, 5, 2).unwrap();
    assert_eq!(d.n(), 3);
    assert_eq!(d.m(), 4);
    assert_eq!(d.height(0), 5);
    assert_eq!(d.height(1), 2);
    assert!(!d.corner(2, 3));
    assert_eq!(d.edge(0, 2, 4), None);
    assert_eq!(d.edge(1, 3, 1), None);
}

#[test]
fn new_refuses_an_axis_with_too_few_edges() {
    assert!(Diagram::new(2, 3, 1, 1).is_none());
    assert!(Diagram::new(3, 2, 1, 1).is_none());
    assert!(Diagram::new(2, 3, 2, 1).is_some());
    assert!(Diagram::new(1, 1, 0, 0).is_some());
    assert!(Diagram::new(0, 1, 0, 0).is_some());
}

#[test]
fn setters_change_one_place() {
    let mut d = Diagram::new(2, 2, 1, 1).unwrap();
    d.set_corner(1, 0, true);
    d.set_edge(1, 0, 0, b(0.25, 0.75));
    assert!(d.corner(1, 0));
    assert!(!d.corner(0, 0));
    assert!(!d.corner(0, 1));
    assert!(!d.corner(1, 1));
    assert_eq!(d.edge(1, 0, 0), b(0.25, 0.75));
    assert_eq!(d.edge(1, 1, 0), None);
    assert_eq!(d.edge(0, 0, 0), None);
    assert_eq!(d.edge(0, 1, 0), None);
    d.set_edge(1, 0, 0, None);
    d.set_corner(1, 0, false);
    assert_eq!(d.edge(1, 0, 0), None);
    assert!(!d.corner(1, 0));
}

#[test]
fn a_marked_corner_without_a_current_boundary_is_reported_at_that_corner() {
    let mut d = Diagram::new(2, 2, 1, 1).unwrap();
    d.set_corner(0, 0, true);
    let v = check_corner_consistency(&d, &tol()).unwrap_err();
    assert_eq!(v, violation(0, 0, 0, Side::Current, Defect::Missing));
    assert_eq!(v.describe(), "Boundary does not exist at (0, 0, 0) while corner at ((0,0)) ");
}

#[test]
fn a_marked_corner_without_a_previous_boundary_is_reported() {
    let mut d = Diagram::new(1, 2, 1, 0).unwrap();
    d.set_corner(0, 1, true);
    let v = check_corner_consistency(&d, &tol()).unwrap_err();
    assert_eq!(v, violation(0, 1, 0, Side::Previous, Defect::Missing));
    assert_eq!(v.describe(), "Boundary does not exist at (0, 0, 0) while corner at ((0,1)) ");
}

#[test]
fn a_boundary_that_starts_at_zero_needs_a_corner() {
    let mut d = Diagram::new(2, 2, 1, 1).unwrap();
    d.set_edge(0, 1, 0, b(0.0, 0.5));
    let v = check_corner_consistency(&d, &tol()).unwrap_err();
    assert_eq!(v, violation(1, 0, 0, Side::Current, Defect::Unexpected));
    assert_eq!(
        v.describe(),
        "Start of boundary exists at (0, 1, 0) while no corner at ((1,0)) "
    );
}

#[test]
fn a_boundary_that_starts_at_minus_zero_needs_a_corner_too() {
    let mut d = Diagram::new(2, 2, 1, 1).unwrap();
    d.set_edge(0, 1, 0, b(-0.0, 0.5));
    let v = check_corner_consistency(&d, &tol()).unwrap_err();
    assert_eq!(v, violation(1, 0, 0, Side::Current, Defect::Unexpected));
}

#[test]
fn a_boundary_that_ends_at_one_needs_a_corner() {
    let mut d = Diagram::new(2, 2, 1, 1).unwrap();
    d.set_edge(1, 1, 0, b(0.5, 1.0));
    let v = check_corner_consistency(&d, &tol()).unwrap_err();
    assert_eq!(v, violation(1, 1, 1, Side::Previous, Defect::Unexpected));
    assert_eq!(v.describe(), "End of boundary exists at (1, 1, 0) while no corner at ((1,1)) ");
}

#[test]
fn an_unmarked_corner_bears_a_boundary_that_comes_close() {
    let mut d = Diagram::new(2, 2, 1, 1).unwrap();
    d.set_edge(0, 0, 0, b(EPS / 2.0, 1.0 - EPS / 2.0));
    d.set_edge(1, 0, 0, b(5e-324, 0.9999999999999999));
    assert_eq!(check_corner_consistency(&d, &tol()), Ok(()));
}

#[test]
fn a_marked_corner_needs_a_start_below_the_tolerance() {
    let mut d = all_free();
    d.set_edge(0, 0, 0, b(EPS, 1.0));
    let v = check_corner_consistency(&d, &tol()).unwrap_err();
    assert_eq!(v, violation(0, 0, 0, Side::Current, Defect::OutOfTolerance));
    assert_eq!(
        v.describe(),
        "Start of boundary does not exist at (0, 0, 0) while corner at ((0,0)) "
    );
    d.set_edge(0, 0, 0, b(EPS / 2.0, 1.0));
    assert_eq!(check_corner_consistency(&d, &tol()), Ok(()));
}

#[test]
fn a_marked_corner_needs_an_end_within_the_tolerance_of_one() {
    let mut d = all_free();
    d.set_edge(1, 0, 0, b(0.0, 0.5));
    let v = check_corner_consistency(&d, &tol()).unwrap_err();
    assert_eq!(v, violation(1, 0, 1, Side::Previous, Defect::OutOfTolerance));
    assert_eq!(
        v.describe(),
        "End of boundary does not exist at (1, 0, 0) while corner at ((1,0)) "
    );
    d.set_edge(1, 0, 0, b(0.0, 1.0 - EPS));
    assert_eq!(check_corner_consistency(&d, &tol()), Ok(()));
}

#[test]
fn a_start_that_is_no_number_is_out_of_tolerance() {
    let mut d = all_free();
    d.set_edge(0, 0, 0, b(f64::NAN, 1.0));
    let v = check_corner_consistency(&d, &tol()).unwrap_err();
    assert_eq!(v, violation(0, 0, 0, Side::Current, Defect::OutOfTolerance));
}

#[test]
fn the_first_violation_in_scan_order_is_the_one_reported() {
    let mut d = Diagram::new(3, 3, 2, 2).unwrap();
    // Three violations: at (2,0), at (1,1) and at (0,2).
    d.set_corner(0, 2, true);
    d.set_corner(1, 1, true);
    d.set_corner(2, 0, true);
    let v = check_corner_consistency(&d, &tol()).unwrap_err();
    assert_eq!(v, violation(2, 0, 0, Side::Current, Defect::Missing));
    // With (2,0) mended on axis 0, axis 1 of the same vertex comes next.
    d.set_edge(0, 2, 0, b(0.0, 0.5));
    let v = check_corner_consistency(&d, &tol()).unwrap_err();
    assert_eq!(v, violation(2, 0, 1, Side::Previous, Defect::Missing));
    assert_eq!(v.describe(), "Boundary does not exist at (1, 0, 1) while corner at ((2,0)) ");
    // With (2,0) mended altogether, row 1 comes next.
    d.set_edge(1, 0, 1, b(0.5, 1.0));
    let v = check_corner_consistency(&d, &tol()).unwrap_err();
    assert_eq!(v, violation(1, 1, 0, Side::Current, Defect::Missing));
}

#[test]
fn on_one_axis_the_current_edge_comes_before_the_previous_one() {
    let mut d = Diagram::new(1, 3, 2, 0).unwrap();
    d.set_corner(0, 1, true);
    let v = check_corner_consistency(&d, &tol()).unwrap_err();
    assert_eq!(v, violation(0, 1, 0, Side::Current, Defect::Missing));
    d.set_edge(0, 0, 1, b(0.0, 0.5));
    let v = check_corner_consistency(&d, &tol()).unwrap_err();
    assert_eq!(v, violation(0, 1, 0, Side::Previous, Defect::Missing));
    d.set_edge(0, 0, 0, b(0.5, 1.0));
    assert_eq!(check_corner_consistency(&d, &tol()), Ok(()));
}

#[test]
fn an_axis_with_more_edges_than_vertices_has_a_current_edge_in_the_last_row() {
    let mut d = Diagram::new(1, 1, 1, 1).unwrap();
    d.set_corner(0, 0, true);
    let v = check_corner_consistency(&d, &tol()).unwrap_err();
    assert_eq!(v, violation(0, 0, 0, Side::Current, Defect::Missing));
    let mut d = Diagram::new(1, 1, 0, 0).unwrap();
    d.set_corner(0, 0, true);
    assert_eq!(check_corner_consistency(&d, &tol()), Ok(()));
}

#[test]
fn descriptions_write_numbers_in_decimal() {
    let v = violation(120, 7, 1, Side::Previous, Defect::Unexpected);
    assert_eq!(
        v.describe(),
        "End of boundary exists at (1, 7, 119) while no corner at ((120,7)) "
    );
    let v = violation(3, 1000, 0, Side::Current, Defect::OutOfTolerance);
    assert_eq!(
        v.describe(),
        "Start of boundary does not exist at (0, 3, 1000) while corner at ((3,1000)) "
    );
}
