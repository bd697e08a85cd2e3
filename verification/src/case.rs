//! Curves and the test cases made of them.

use vstd::prelude::*;
use crate::scalar::Scalar;

verus! {

/// A point of the plane.
#[derive(Clone, Copy, Debug, PartialEq, Eq, Structural)]
pub struct Point {
    pub x: Scalar,
    pub y: Scalar,
}

/// One input to the matching engine: two curves, each a sequence of points,
/// and the distance within which points count as matched.
#[derive(Clone, Debug, PartialEq, Eq)]
pub struct TestCase {
    pub primary: Vec<Point>,
    pub secondary: Vec<Point>,
    pub epsilon: Scalar,
}

/// A test case as a mathematical value.
pub struct CaseView {
    pub primary: Seq<Point>,
    pub secondary: Seq<Point>,
    pub epsilon: Scalar,
}

impl View for TestCase {
    type V = CaseView;

    open spec fn view(&self) -> CaseView {
        CaseView { primary: self.primary@, secondary: self.secondary@, epsilon: self.epsilon }
    }
}

/// The coordinates of a curve's points, as pairs of bit patterns.
pub open spec fn pairs_of(curve: Seq<Point>) -> Seq<(u64, u64)> {
    Seq::new(curve.len(), |k: int| (curve[k].x.bits, curve[k].y.bits))
}

/// The curve whose points have the given bit patterns.
pub open spec fn points_of(pairs: Seq<(u64, u64)>) -> Seq<Point> {
    Seq::new(
        pairs.len(),
        |k: int| Point { x: Scalar { bits: pairs[k].0 }, y: Scalar { bits: pairs[k].1 } },
    )
}

/// A curve is the curve of its own bit patterns.
pub proof fn lemma_points_of_pairs(curve: Seq<Point>)
    ensures
        points_of(pairs_of(curve)) == curve,
{
    assert(points_of(pairs_of(curve)) =~= curve);
}

/// The bit patterns of a curve's points.
pub fn to_pairs(curve: &Vec<Point>) -> (pairs: Vec<(u64, u64)>)
    ensures
        pairs@ == pairs_of(curve@),
{
    let mut pairs: Vec<(u64, u64)> = Vec::new();
    let mut k: usize = 0;
    while k < curve.len()
        invariant
            k <= curve.len(),
            pairs@ == pairs_of(curve@.take(k as int)),
        decreases curve.len() - k,
    {
        let p = curve[k];
        pairs.push((p.x.to_bits(), p.y.to_bits()));
        assert(pairs@ =~= pairs_of(curve@.take(k + 1)));
        k += 1;
    }
    assert(curve@.take(curve.len() as int) =~= curve@);
    pairs
}

/// The curve with the given bit patterns.
pub fn to_points(pairs: &Vec<(u64, u64)>) -> (curve: Vec<Point>)
    ensures
        curve@ == points_of(pairs@),
{
    let mut curve: Vec<Point> = Vec::new();
    let mut k: usize = 0;
    while k < pairs.len()
        invariant
            k <= pairs.len(),
            curve@ == points_of(pairs@.take(k as int)),
        decreases pairs.len() - k,
    {
        let p = pairs[k];
        curve.push(Point { x: Scalar::from_bits(p.0), y: Scalar::from_bits(p.1) });
        assert(curve@ =~= points_of(pairs@.take(k + 1)));
        k += 1;
    }
    assert(pairs@.take(pairs.len() as int) =~= pairs@);
    curve
}

} // verus!
