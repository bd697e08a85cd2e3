use pcm_vis::path::{
    check_gap, check_monotone, check_steps, step_advances, Matched, PathViolation, Step,
};
use pcm_vis::scalar::Scalar;

const EPS: f64 = 0.00001;

fn s(x: f64) -> Scalar {
    Scalar::from_bits(x.to_bits())
}

fn step(u: f64, v: f64) -> Step {
    Step { u: s(u), v: s(v) }
}

fn steps(points: &[(f64, f64)]) -> Vec<Step> {
    points.iter().map(|&(u, v)| step(u, v)).collect()
}

/// The point of the curve at diagram coordinate `t`.
fn point_at(curve: &[(f64, f64)], t: f64) -> (f64, f64) {
    let index = t.floor();
    let off = t - index;
    let a = curve[index as usize];
    if off == 0.0 {
        a
    } else {
        let b = curve[index as usize + 1];
        ((1.0 - off) * a.0 + off * b.0, (1.0 - off) * a.1 + off * b.1)
    }
}

/// The steps with the distance between the points that each one matches.
fn measure(primary: &[(f64, f64)], secondary: &[(f64, f64)], path: &[(f64, f64)]) -> Vec<Matched> {
    path.iter()
        .map(|&(u, v)| {
            let p = point_at(primary, u);
            let q = point_at(secondary, v);
            let d = ((p.0 - q.0) * (p.0 - q.0) + (p.1 - q.1) * (p.1 - q.1)).sqrt();
            Matched { step: step(u, v), gap: s(d) }
        })
        .collect()
}

#[test]
fn identical_curves_pass_along_the_diagonal() {
    let curve = [(0.0, 0.0), (1.0, 0.0), (2.0, 0.0), (3.0, 0.0), (4.0, 0.0)];
    let path = [(0.0, 0.0), (1.0, 1.0), (2.0, 2.0), (2.5, 2.5), (3.0, 3.0), (4.0, 4.0)];
    let measured = measure(&curve, &curve, &path);
    for m in &measured {
        assert_eq!(m.gap, s(0.0));
    }
    assert_eq!(check_steps(&measured, s(1.0 + EPS)), Ok(()));
}

#[test]
fn a_path_that_never_steps_back_is_monotone() {
    let path = steps(&[(0.0, 0.0), (0.0, 1.0), (0.5, 1.0), (0.5, 1.0), (3.0, 2.5)]);
    assert_eq!(check_monotone(&path), Ok(()));
    for a in 0..path.len() {
        for b in a + 1..path.len() {
            assert!(step_advances(path[a], path[b]));
        }
    }
}

#[test]
fn a_step_back_in_u_is_reported_with_both_steps() {
    let path = steps(&[(0.0, 0.0), (1.0, 1.0), (0.5, 2.0), (0.25, 3.0)]);
    assert_eq!(
        check_monotone(&path),
        Err(PathViolation::Decreasing { index: 1, from: step(1.0, 1.0), to: step(0.5, 2.0) })
    );
}

#[test]
fn a_step_back_in_v_is_reported_with_both_steps() {
    let path = steps(&[(0.0, 1.0), (1.0, 0.5)]);
    assert_eq!(
        check_monotone(&path),
        Err(PathViolation::Decreasing { index: 0, from: step(0.0, 1.0), to: step(1.0, 0.5) })
    );
}

#[test]
fn a_coordinate_that_is_no_number_does_not_advance() {
    let path = steps(&[(0.0, 0.0), (f64::NAN, 1.0), (2.0, 2.0)]);
    assert_eq!(
        check_monotone(&path),
        Err(PathViolation::Decreasing { index: 0, from: step(0.0, 0.0), to: step(f64::NAN, 1.0) })
    );
}

#[test]
fn short_paths_are_monotone() {
    assert_eq!(check_monotone(&steps(&[])), Ok(()));
    assert_eq!(check_monotone(&steps(&[(3.0, 2.0)])), Ok(()));
    assert_eq!(check_steps(&Vec::new(), s(1.0)), Ok(()));
}

#[test]
fn the_two_zeros_advance_to_each_other() {
    assert!(step_advances(step(0.0, -0.0), step(-0.0, 0.0)));
    assert!(step_advances(step(-0.0, 0.0), step(0.0, -0.0)));
    assert!(!step_advances(step(1.0, 0.0), step(0.5, 0.0)));
}

#[test]
fn a_gap_must_stay_below_the_limit() {
    let at = step(1.0, 1.0);
    let limit = s(1.0 + EPS);
    assert_eq!(check_gap(4, at, s(1.0), limit), Ok(()));
    assert_eq!(check_gap(4, at, s(0.0), limit), Ok(()));
    assert_eq!(
        check_gap(4, at, s(1.0 + EPS), limit),
        Err(PathViolation::TooFar { index: 4, step: at, gap: s(1.0 + EPS), limit })
    );
    assert_eq!(
        check_gap(0, at, s(f64::NAN), limit),
        Err(PathViolation::TooFar { index: 0, step: at, gap: s(f64::NAN), limit })
    );
    assert_eq!(
        check_gap(0, at, s(f64::INFINITY), limit),
        Err(PathViolation::TooFar { index: 0, step: at, gap: s(f64::INFINITY), limit })
    );
}

#[test]
fn the_first_wide_gap_is_reported() {
    let primary = [(0.0, 0.0), (1.0, 0.0), (2.0, 0.0)];
    let secondary = [(0.0, 0.5), (1.0, 2.0), (2.0, 3.0)];
    let path = [(0.0, 0.0), (1.0, 1.0), (2.0, 2.0)];
    let measured = measure(&primary, &secondary, &path);
    assert_eq!(measured[0].gap, s(0.5));
    assert_eq!(measured[1].gap, s(2.0));
    assert_eq!(measured[2].gap, s(3.0));
    let limit = s(1.0 + EPS);
    assert_eq!(
        check_steps(&measured, limit),
        Err(PathViolation::TooFar { index: 1, step: step(1.0, 1.0), gap: s(2.0), limit })
    );
    assert_eq!(check_steps(&measured, s(3.5)), Ok(()));
}

#[test]
fn gaps_are_measured_between_interpolated_points() {
    let primary = [(0.0, 0.0), (2.0, 0.0)];
    let secondary = [(0.0, 3.0), (4.0, 3.0)];
    let measured = measure(&primary, &secondary, &[(0.5, 0.25)]);
    assert_eq!(measured[0].gap, s(3.0));
    let measured = measure(&primary, &secondary, &[(0.5, 1.0)]);
    assert_eq!(measured[0].gap, s((9.0f64 + 9.0).sqrt()));
}

#[test]
fn a_step_back_is_reported_before_any_gap() {
    let wide = s(50.0);
    let path = vec![
        Matched { step: step(0.0, 0.0), gap: wide },
        Matched { step: step(1.0, 1.0), gap: wide },
        Matched { step: step(0.5, 1.5), gap: s(0.0) },
    ];
    assert_eq!(
        check_steps(&path, s(1.0)),
        Err(PathViolation::Decreasing { index: 1, from: step(1.0, 1.0), to: step(0.5, 1.5) })
    );
}

#[test]
fn an_accepted_path_is_ordered_end_to_end_and_close_throughout() {
    let limit = s(1.0 + EPS);
    let path = vec![
        Matched { step: step(0.0, 0.0), gap: s(0.25) },
        Matched { step: step(0.5, 0.0), gap: s(0.5) },
        Matched { step: step(0.5, 2.0), gap: s(1.0) },
        Matched { step: step(4.0, 4.0), gap: s(0.0) },
    ];
    assert_eq!(check_steps(&path, limit), Ok(()));
    for a in 0..path.len() {
        assert!(path[a].gap.less_than(limit));
        for b in a + 1..path.len() {
            assert!(path[a].step.u.at_most(path[b].step.u));
            assert!(path[a].step.v.at_most(path[b].step.v));
        }
    }
}
