//! The run as a whole: which cases it tries, and what follows each trial.

use vstd::prelude::*;
use crate::case::Point;
use crate::case::TestCase;
use crate::scalar::Scalar;
use crate::scalar::ONE_BITS;
use crate::trial::Verdict;

verus! {

/// The pattern of the number two.
pub const TWO_BITS: u64 = 0x4000_0000_0000_0000;

/// Where the cases of a run come from.
#[derive(Clone, Copy, Debug, PartialEq, Eq, Structural)]
pub enum Mode {
    /// Fresh random cases; those that fail are persisted.
    Discover,
    /// The cases of the corpus; none is persisted again.
    Replay,
}

/// What is fixed for a run.
#[derive(Clone, Copy, Debug, PartialEq, Eq, Structural)]
pub struct Config {
    pub mode: Mode,
    /// The number of trials of a run.
    pub run_count: usize,
    /// The number of points of a random curve.
    pub curve_points: usize,
    /// Random points lie in the square from zero to this size.
    pub field_size: Scalar,
    /// The match distance of a fresh case.
    pub epsilon: Scalar,
}

/// What the harness does once a trial has its verdict.
#[derive(Clone, Copy, Debug, PartialEq, Eq, Structural)]
pub enum Followup {
    /// The trial passed: go on with the next case.
    Proceed,
    /// Report the failure, and go on.
    Report,
    /// Report the failure, persist the case, and go on.
    ReportAndPersist,
}

impl Config {
    /// Ten discovering trials on curves of five points in a field of size
    /// two, with match distance one.
    pub fn standard() -> (c: Config)
        ensures
            c == (Config {
                mode: Mode::Discover,
                run_count: 10,
                curve_points: 5,
                field_size: Scalar { bits: TWO_BITS },
                epsilon: Scalar { bits: ONE_BITS },
            }),
    {
        Config {
            mode: Mode::Discover,
            run_count: 10,
            curve_points: 5,
            field_size: Scalar::from_bits(TWO_BITS),
            epsilon: Scalar::one(),
        }
    }
}

/// What comes after a trial. One that passed needs nothing more. One that
/// failed is shown to the user, and in discovery its case is persisted too.
pub open spec fn followup_of(mode: Mode, verdict: Verdict) -> Followup {
    match verdict {
        Verdict::Passed => Followup::Proceed,
        Verdict::Failed(_) => match mode {
            Mode::Discover => Followup::ReportAndPersist,
            Mode::Replay => Followup::Report,
        },
    }
}

/// Tells what follows a verdict.
pub fn after_trial(mode: Mode, verdict: Verdict) -> (f: Followup)
    ensures
        f == followup_of(mode, verdict),
{
    match verdict {
        Verdict::Passed => Followup::Proceed,
        Verdict::Failed(_) => match mode {
            Mode::Discover => Followup::ReportAndPersist,
            Mode::Replay => Followup::Report,
        },
    }
}

/// Replaying never persists, whatever the verdict.
pub proof fn lemma_replay_never_persists(verdict: Verdict)
    ensures
        followup_of(Mode::Replay, verdict) != Followup::ReportAndPersist,
{
}

/// The cases of a replay: those of the corpus in their order, and no more
/// of them than the run has trials.
pub fn replay_cases(loaded: Vec<TestCase>, run_count: usize) -> (cases: Vec<TestCase>)
    ensures
        cases@ == loaded@.take(
            if loaded.len() <= run_count {
                loaded.len() as int
            } else {
                run_count as int
            },
        ),
{
    let mut cases = loaded;
    cases.truncate(run_count);
    assert(cases@ =~= loaded@.take(
        if loaded.len() <= run_count {
            loaded.len() as int
        } else {
            run_count as int
        },
    ));
    cases
}

/// The case that matches a curve against itself, which every engine must
/// accept.
pub fn smoke_case(curve: Vec<Point>, epsilon: Scalar) -> (case: TestCase)
    ensures
        case@.primary == curve@,
        case@.secondary == curve@,
        case@.epsilon == epsilon,
{
    let mut secondary: Vec<Point> = Vec::new();
    let mut k: usize = 0;
    while k < curve.len()
        invariant
            k <= curve.len(),
            secondary@ == curve@.take(k as int),
        decreases curve.len() - k,
    {
        secondary.push(curve[k]);
        assert(secondary@ =~= curve@.take(k + 1));
        k += 1;
    }
    assert(curve@.take(curve.len() as int) =~= curve@);
    TestCase { primary: curve, secondary, epsilon }
}

} // verus!
