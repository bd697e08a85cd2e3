//! The witness path of a match, and the two things asked of it: that it
//! never steps back, and that the curve points it matches stay close.

use vstd::prelude::*;
use crate::scalar::Scalar;
use crate::scalar::lemma_le_transitive;
use crate::scalar::lemma_order_total;

verus! {

/// A point of a witness path, in diagram coordinates: `u` along the primary
/// curve, `v` along the secondary one.
#[derive(Clone, Copy, Debug, PartialEq, Eq, Structural)]
pub struct Step {
    pub u: Scalar,
    pub v: Scalar,
}

/// A step together with the distance between the two curve points that it
/// matches.
#[derive(Clone, Copy, Debug, PartialEq, Eq, Structural)]
pub struct Matched {
    pub step: Step,
    pub gap: Scalar,
}

/// What is wrong with a witness path.
#[derive(Clone, Copy, Debug, PartialEq, Eq, Structural)]
pub enum PathViolation {
    /// The step after `index` lies before it in `u` or in `v`.
    Decreasing { index: usize, from: Step, to: Step },
    /// The points matched at step `index` are `gap` apart, which is not
    /// below `limit`.
    TooFar { index: usize, step: Step, gap: Scalar, limit: Scalar },
}

/// The second step is not before the first, in either coordinate.
pub open spec fn advances(from: Step, to: Step) -> bool {
    from.u.le(to.u) && from.v.le(to.v)
}

/// Each step advances to the next.
pub open spec fn monotone(steps: Seq<Step>) -> bool {
    forall|k: int| 0 <= k && k + 1 < steps.len() ==> advances(#[trigger] steps[k], steps[k + 1])
}

/// Each step advances to every later one.
pub open spec fn non_decreasing(steps: Seq<Step>) -> bool {
    forall|a: int, b: int|
        0 <= a < b < steps.len() ==> advances(#[trigger] steps[a], #[trigger] steps[b])
}

/// The steps of a measured path.
pub open spec fn steps_of(path: Seq<Matched>) -> Seq<Step> {
    Seq::new(path.len(), |k: int| path[k].step)
}

/// Every gap of the path is below the limit.
pub open spec fn all_within(path: Seq<Matched>, limit: Scalar) -> bool {
    forall|k: int| 0 <= k < path.len() ==> (#[trigger] path[k]).gap.lt(limit)
}

/// The violation names the first pair of consecutive steps of which the
/// second lies before the first.
pub open spec fn first_step_back(steps: Seq<Step>, v: PathViolation) -> bool {
    &&& v matches PathViolation::Decreasing { index, from, to }
    &&& index + 1 < steps.len()
    &&& from == steps[index as int]
    &&& to == steps[index + 1]
    &&& !advances(from, to)
    &&& monotone(steps.take(index + 1))
}

/// The violation names the first step whose gap is not below the limit.
pub open spec fn first_wide_gap(path: Seq<Matched>, limit: Scalar, v: PathViolation) -> bool {
    &&& v matches PathViolation::TooFar { index, step, gap, limit: reported }
    &&& index < path.len()
    &&& step == path[index as int].step
    &&& gap == path[index as int].gap
    &&& reported == limit
    &&& !gap.lt(limit)
    &&& all_within(path.take(index as int), limit)
}

/// Between steps whose coordinates are all numbers, not to advance is to
/// go back: the second step is below the first in `u` or in `v`.
pub proof fn lemma_not_advancing_is_going_back(from: Step, to: Step)
    requires
        !from.u.is_nan(),
        !from.v.is_nan(),
        !to.u.is_nan(),
        !to.v.is_nan(),
    ensures
        !advances(from, to) <==> to.u.lt(from.u) || to.v.lt(from.v),
{
    lemma_order_total(from.u, to.u);
    lemma_order_total(from.v, to.v);
}

/// A path has at most one first step back, and has one only when it is
/// not monotone.
pub proof fn lemma_first_step_back_unique(steps: Seq<Step>, a: PathViolation, b: PathViolation)
    requires
        first_step_back(steps, a),
    ensures
        !monotone(steps),
        first_step_back(steps, b) ==> a == b,
{
    let i = a->Decreasing_index as int;
    if monotone(steps) {
        assert(advances(steps[i], steps[i + 1]));
    }
    if first_step_back(steps, b) {
        let j = b->Decreasing_index as int;
        if i < j {
            assert(advances(steps.take(j + 1)[i], steps.take(j + 1)[i + 1]));
        }
        if j < i {
            assert(advances(steps.take(i + 1)[j], steps.take(i + 1)[j + 1]));
        }
    }
}

/// A path that advances step by step advances end to end.
pub proof fn lemma_monotone_end_to_end(steps: Seq<Step>)
    requires
        monotone(steps),
    ensures
        non_decreasing(steps),
{
    assert forall|a: int, b: int| 0 <= a < b < steps.len() implies advances(
        #[trigger] steps[a],
        #[trigger] steps[b],
    ) by {
        lemma_advances_chain(steps, a, b);
    }
}

proof fn lemma_advances_chain(steps: Seq<Step>, a: int, b: int)
    requires
        monotone(steps),
        0 <= a < b < steps.len(),
    ensures
        advances(steps[a], steps[b]),
    decreases b - a,
{
    if a + 1 < b {
        lemma_advances_chain(steps, a, b - 1);
        assert(advances(steps[b - 1], steps[b - 1 + 1]));
        lemma_le_transitive(steps[a].u, steps[b - 1].u, steps[b].u);
        lemma_le_transitive(steps[a].v, steps[b - 1].v, steps[b].v);
    } else {
        assert(advances(steps[a], steps[a + 1]));
    }
}

/// Tells whether the second step is not before the first.
pub fn step_advances(from: Step, to: Step) -> (b: bool)
    ensures
        b == advances(from, to),
{
    from.u.at_most(to.u) && from.v.at_most(to.v)
}

/// Checks that no step of the path lies before the one it follows, and
/// reports the first pair that does.
pub fn check_monotone(steps: &Vec<Step>) -> (r: Result<(), PathViolation>)
    ensures
        r is Ok <==> monotone(steps@),
        r is Ok ==> non_decreasing(steps@),
        r matches Err(v) ==> first_step_back(steps@, v),
{
    let mut k: usize = 1;
    while k < steps.len()
        invariant
            1 <= k,
            forall|a: int| 0 <= a && a + 1 < k && a + 1 < steps.len() ==> advances(
                #[trigger] steps[a],
                steps[a + 1],
            ),
        decreases steps.len() - k,
    {
        let from = steps[k - 1];
        let to = steps[k];
        if !step_advances(from, to) {
            return Err(PathViolation::Decreasing { index: k - 1, from, to });
        }
        k += 1;
    }
    proof {
        lemma_monotone_end_to_end(steps@);
    }
    Ok(())
}

/// Checks one measured step against the limit.
pub fn check_gap(index: usize, step: Step, gap: Scalar, limit: Scalar) -> (r: Result<
    (),
    PathViolation,
>)
    ensures
        r is Ok <==> gap.lt(limit),
        r matches Err(v) ==> v == (PathViolation::TooFar { index, step, gap, limit }),
{
    if gap.less_than(limit) {
        Ok(())
    } else {
        Err(PathViolation::TooFar { index, step, gap, limit })
    }
}

/// Checks a measured path: first that it never steps back, then that every
/// gap is below the limit. The first step that fails either check is
/// reported, a step back before any gap.
pub fn check_steps(path: &Vec<Matched>, limit: Scalar) -> (r: Result<(), PathViolation>)
    ensures
        r is Ok <==> monotone(steps_of(path@)) && all_within(path@, limit),
        r is Ok ==> non_decreasing(steps_of(path@)),
        r matches Err(v) ==> if monotone(steps_of(path@)) {
            first_wide_gap(path@, limit, v)
        } else {
            first_step_back(steps_of(path@), v)
        },
{
    let mut steps: Vec<Step> = Vec::new();
    let mut k: usize = 0;
    while k < path.len()
        invariant
            k <= path.len(),
            steps@ == steps_of(path@.take(k as int)),
        decreases path.len() - k,
    {
        steps.push(path[k].step);
        assert(steps@ =~= steps_of(path@.take(k + 1)));
        k += 1;
    }
    assert(path@.take(path.len() as int) =~= path@);
    check_monotone(&steps)?;
    let mut k: usize = 0;
    while k < path.len()
        invariant
            k <= path.len(),
            monotone(steps_of(path@)),
            all_within(path@.take(k as int), limit),
        decreases path.len() - k,
    {
        let at = path[k];
        check_gap(k, at.step, at.gap, limit)?;
        assert(all_within(path@.take(k + 1), limit)) by {
            assert forall|a: int| 0 <= a < k + 1 implies (#[trigger] path@.take(k + 1)[a]).gap.lt(
                limit,
            ) by {
                if a < k {
                    assert(path@.take(k as int)[a].gap.lt(limit));
                }
            }
        }
        k += 1;
    }
    assert(path@.take(path.len() as int) =~= path@);
    Ok(())
}

} // verus!
