//! One trial of the matching engine, as a state machine: each answer of the
//! harness is an event, and each event gives the next request or the
//! verdict.

use vstd::prelude::*;
use crate::diagram::check_corner_consistency;
use crate::diagram::CornerViolation;
use crate::diagram::Diagram;
use crate::diagram::lemma_first_violation_unique;
use crate::diagram::Tolerance;
use crate::path::check_gap;
use crate::path::check_monotone;
use crate::path::first_step_back;
use crate::path::lemma_first_step_back_unique;
use crate::path::lemma_monotone_end_to_end;
use crate::path::monotone;
use crate::path::non_decreasing;
use crate::path::PathViolation;
use crate::path::Step;
use crate::scalar::Scalar;

verus! {

/// Why a trial failed.
#[derive(Clone, Copy, Debug, PartialEq, Eq, Structural)]
pub enum TrialError {
    /// The diagram contradicts its own corner markers.
    Corner(CornerViolation),
    /// The engine could not extract a witness.
    Engine,
    /// The engine reported a match and gave no witness for it.
    MissingWitness,
    /// The witness is no valid path.
    Path(PathViolation),
}

/// How a trial ended.
#[derive(Clone, Copy, Debug, PartialEq, Eq, Structural)]
pub enum Verdict {
    Passed,
    Failed(TrialError),
}

/// Where a trial stands: which answer it waits for.
#[derive(Clone, Copy, Debug, PartialEq, Eq, Structural)]
pub enum Stage {
    RenderingCurves,
    BuildingDiagram,
    RenderingDiagram,
    DerivingReachability,
    RenderingReachability,
    ExtractingWitness,
    RenderingWitness,
    QueryingMatch,
    /// Waits for the gap at step `index` of the witness.
    Measuring { index: usize },
    Finished,
}

/// What a trial asks of the harness next.
#[derive(Clone, Copy, Debug, PartialEq, Eq, Structural)]
pub enum Action {
    /// Draw the two curves.
    RenderCurves,
    /// Have the engine build the free-space diagram.
    BuildDiagram,
    /// Draw the free-space diagram.
    RenderDiagram,
    /// Have the engine derive the reachability diagram.
    DeriveReachability,
    /// Draw the reachability diagram.
    RenderReachability,
    /// Have the engine extract a witness path.
    ExtractWitness,
    /// Draw the reachability diagram, with the witness over it if there
    /// is one.
    RenderWitness { overlay: bool },
    /// Ask the engine whether there is a partial match.
    QueryMatch,
    /// Measure the distance between the two curve points that the step
    /// matches.
    Measure { index: usize, step: Step },
    /// Nothing more: the trial has its verdict.
    Finish(Verdict),
}

/// What the harness answers.
pub enum Event {
    /// A drawing was attempted; `ok` tells whether it succeeded.
    Rendered { ok: bool },
    DiagramBuilt(Diagram),
    ReachabilityDerived,
    WitnessFound(Vec<Step>),
    NoWitness,
    EngineFailed,
    MatchQueried(bool),
    Measured(Scalar),
}

/// A trial as a mathematical value.
pub struct TrialView {
    pub stage: Stage,
    pub tolerance: Tolerance,
    pub limit: Scalar,
    pub witness: Option<Seq<Step>>,
    pub matched: bool,
    pub gaps: Seq<Scalar>,
    pub verdict: Option<Verdict>,
}

/// One run of the engine on a test case, judged step by step.
pub struct Trial {
    stage: Stage,
    tolerance: Tolerance,
    limit: Scalar,
    witness: Option<Vec<Step>>,
    matched: bool,
    gaps: Vec<Scalar>,
    verdict: Option<Verdict>,
}

impl TrialView {
    /// A trial before its first answer.
    pub open spec fn start(tolerance: Tolerance, limit: Scalar) -> TrialView {
        TrialView {
            stage: Stage::RenderingCurves,
            tolerance,
            limit,
            witness: None,
            matched: false,
            gaps: Seq::empty(),
            verdict: None,
        }
    }

    /// The same trial at another stage.
    pub open spec fn at(self, stage: Stage) -> TrialView {
        TrialView { stage, ..self }
    }

    /// The same trial, finished with the verdict.
    pub open spec fn finished(self, verdict: Verdict) -> TrialView {
        TrialView { stage: Stage::Finished, verdict: Some(verdict), ..self }
    }

    /// The same trial, holding what the engine extracted.
    pub open spec fn with_witness(self, witness: Option<Seq<Step>>) -> TrialView {
        TrialView { witness, ..self }
    }

    /// The same trial, knowing that the engine reported a match.
    pub open spec fn with_match(self) -> TrialView {
        TrialView { matched: true, ..self }
    }

    /// The same trial with one more measured gap.
    pub open spec fn with_gap(self, gap: Scalar) -> TrialView {
        TrialView { gaps: self.gaps.push(gap), ..self }
    }

    /// The request that the trial waits for an answer to.
    pub open spec fn pending(self) -> Action {
        match self.stage {
            Stage::RenderingCurves => Action::RenderCurves,
            Stage::BuildingDiagram => Action::BuildDiagram,
            Stage::RenderingDiagram => Action::RenderDiagram,
            Stage::DerivingReachability => Action::DeriveReachability,
            Stage::RenderingReachability => Action::RenderReachability,
            Stage::ExtractingWitness => Action::ExtractWitness,
            Stage::RenderingWitness => Action::RenderWitness { overlay: self.witness is Some },
            Stage::QueryingMatch => Action::QueryMatch,
            Stage::Measuring { index } => Action::Measure {
                index,
                step: self.witness->0[index as int],
            },
            Stage::Finished => Action::Finish(self.verdict->0),
        }
    }

    /// What holds of a trial at every stage: a finished trial has its
    /// verdict and no other has one; a witness is no longer than a vector
    /// can be; gaps are measured only of a witness
    /// that never steps back, one for each step in turn, and each gap that
    /// was kept is below the limit; a trial that passed on a reported match
    /// has measured every step.
    pub open spec fn wf(self) -> bool {
        &&& self.stage is Finished <==> self.verdict is Some
        &&& forall|k: int| 0 <= k < self.gaps.len() ==> (#[trigger] self.gaps[k]).lt(self.limit)
        &&& self.matched ==> self.stage is Measuring || self.stage is Finished
        &&& !self.matched ==> self.gaps.len() == 0
        &&& self.witness matches Some(w) ==> w.len() <= usize::MAX
        &&& self.stage matches Stage::Measuring { index } ==> {
            &&& self.matched
            &&& self.gaps.len() == index
        }
        &&& self.matched && (self.stage is Measuring || self.verdict == Some(Verdict::Passed)) ==> {
            &&& self.witness matches Some(w)
            &&& monotone(w)
            &&& self.gaps.len() <= w.len()
            &&& self.stage is Measuring ==> self.gaps.len() < w.len()
            &&& self.stage is Finished ==> self.gaps.len() == w.len()
        }
    }
}

/// Whether `post` and `action` are what `event` makes of `pre`.
///
/// The stages follow one another in the order of their declaration. A
/// drawing moves the trial on whether it succeeded or not. A diagram that
/// breaks the corner rule ends the trial with the first violation, and so
/// does an engine that fails to extract a witness. When the engine reports
/// no match the trial has passed. When it reports one, the witness must be
/// there and must never step back; then its steps are measured one by one,
/// and the first gap that is not below the limit ends the trial. An event
/// that the stage does not wait for changes nothing, and the request is
/// made again.
pub open spec fn follows(pre: TrialView, event: Event, post: TrialView, action: Action) -> bool {
    match (pre.stage, event) {
        (Stage::RenderingCurves, Event::Rendered { .. }) => {
            post == pre.at(Stage::BuildingDiagram) && action == Action::BuildDiagram
        },
        (Stage::BuildingDiagram, Event::DiagramBuilt(d)) => {
            if d.consistent(pre.tolerance) {
                post == pre.at(Stage::RenderingDiagram) && action == Action::RenderDiagram
            } else {
                &&& action matches Action::Finish(Verdict::Failed(TrialError::Corner(v)))
                &&& d.first_violation(pre.tolerance, v)
                &&& post == pre.finished(Verdict::Failed(TrialError::Corner(v)))
            }
        },
        (Stage::RenderingDiagram, Event::Rendered { .. }) => {
            post == pre.at(Stage::DerivingReachability) && action == Action::DeriveReachability
        },
        (Stage::DerivingReachability, Event::ReachabilityDerived) => {
            post == pre.at(Stage::RenderingReachability) && action == Action::RenderReachability
        },
        (Stage::RenderingReachability, Event::Rendered { .. }) => {
            post == pre.at(Stage::ExtractingWitness) && action == Action::ExtractWitness
        },
        (Stage::ExtractingWitness, Event::WitnessFound(w)) => {
            &&& post == pre.with_witness(Some(w@)).at(Stage::RenderingWitness)
            &&& action == Action::RenderWitness { overlay: true }
        },
        (Stage::ExtractingWitness, Event::NoWitness) => {
            &&& post == pre.with_witness(None).at(Stage::RenderingWitness)
            &&& action == Action::RenderWitness { overlay: false }
        },
        (Stage::ExtractingWitness, Event::EngineFailed) => {
            &&& post == pre.finished(Verdict::Failed(TrialError::Engine))
            &&& action == Action::Finish(Verdict::Failed(TrialError::Engine))
        },
        (Stage::RenderingWitness, Event::Rendered { .. }) => {
            post == pre.at(Stage::QueryingMatch) && action == Action::QueryMatch
        },
        (Stage::QueryingMatch, Event::MatchQueried(false)) => {
            post == pre.finished(Verdict::Passed) && action == Action::Finish(Verdict::Passed)
        },
        (Stage::QueryingMatch, Event::MatchQueried(true)) => match pre.witness {
            None => {
                &&& post == pre.with_match().finished(Verdict::Failed(TrialError::MissingWitness))
                &&& action == Action::Finish(Verdict::Failed(TrialError::MissingWitness))
            },
            Some(w) => if !monotone(w) {
                &&& action matches Action::Finish(Verdict::Failed(TrialError::Path(v)))
                &&& first_step_back(w, v)
                &&& post == pre.with_match().finished(Verdict::Failed(TrialError::Path(v)))
            } else if w.len() == 0 {
                &&& post == pre.with_match().finished(Verdict::Passed)
                &&& action == Action::Finish(Verdict::Passed)
            } else {
                &&& post == pre.with_match().at(Stage::Measuring { index: 0 })
                &&& action == Action::Measure { index: 0, step: w[0] }
            },
        },
        (Stage::Measuring { index }, Event::Measured(gap)) => {
            let w = pre.witness->0;
            let step = w[index as int];
            if !gap.lt(pre.limit) {
                let v = PathViolation::TooFar { index, step, gap, limit: pre.limit };
                &&& post == pre.finished(Verdict::Failed(TrialError::Path(v)))
                &&& action == Action::Finish(Verdict::Failed(TrialError::Path(v)))
            } else if index + 1 < w.len() {
                let next = (index + 1) as usize;
                &&& post == pre.with_gap(gap).at(Stage::Measuring { index: next })
                &&& action == Action::Measure { index: next, step: w[index + 1] }
            } else {
                &&& post == pre.with_gap(gap).finished(Verdict::Passed)
                &&& action == Action::Finish(Verdict::Passed)
            }
        },
        _ => post == pre && action == pre.pending(),
    }
}

/// An event makes one thing of a trial: the next state and the request
/// are determined.
pub proof fn lemma_follows_is_a_function(
    pre: TrialView,
    event: Event,
    post: TrialView,
    action: Action,
    other_post: TrialView,
    other_action: Action,
)
    requires
        follows(pre, event, post, action),
        follows(pre, event, other_post, other_action),
    ensures
        post == other_post,
        action == other_action,
{
    match (pre.stage, event) {
        (Stage::BuildingDiagram, Event::DiagramBuilt(d)) => {
            if !d.consistent(pre.tolerance) {
                let v = action->Finish_0->Failed_0->Corner_0;
                let w = other_action->Finish_0->Failed_0->Corner_0;
                lemma_first_violation_unique(d, pre.tolerance, v, w);
            }
        },
        (Stage::QueryingMatch, Event::MatchQueried(true)) => {
            if pre.witness is Some && !monotone(pre.witness->0) {
                let v = action->Finish_0->Failed_0->Path_0;
                let w = other_action->Finish_0->Failed_0->Path_0;
                lemma_first_step_back_unique(pre.witness->0, v, w);
            }
        },
        _ => {},
    }
}

/// Whether a drawing succeeded never decides anything.
pub proof fn lemma_rendering_never_decides(
    pre: TrialView,
    post: TrialView,
    action: Action,
    first: bool,
    second: bool,
)
    requires
        follows(pre, Event::Rendered { ok: first }, post, action),
    ensures
        follows(pre, Event::Rendered { ok: second }, post, action),
{
}

/// Every event keeps a trial well-formed.
pub proof fn lemma_follows_keeps_wf(pre: TrialView, event: Event, post: TrialView, action: Action)
    requires
        pre.wf(),
        follows(pre, event, post, action),
    ensures
        post.wf(),
{
    match (pre.stage, event) {
        (Stage::Measuring { index }, Event::Measured(gap)) => {
            if gap.lt(pre.limit) {
                assert forall|k: int| 0 <= k < post.gaps.len() implies (#[trigger] post.gaps[k]).lt(
                    post.limit,
                ) by {
                    if k < pre.gaps.len() {
                        assert(pre.gaps[k].lt(pre.limit));
                    }
                }
            }
        },
        (Stage::ExtractingWitness, Event::WitnessFound(w)) => {
            assert(w.len() <= usize::MAX);
        },
        _ => {},
    }
}

/// A trial that passed after the engine reported a match has a witness
/// that never steps back, end to end, and has measured each of its steps
/// with a gap below the limit.
pub proof fn lemma_passed_match_was_validated(t: TrialView)
    requires
        t.wf(),
        t.verdict == Some(Verdict::Passed),
        t.matched,
    ensures
        t.witness is Some,
        non_decreasing(t.witness->0),
        t.gaps.len() == t.witness->0.len(),
        forall|k: int| 0 <= k < t.gaps.len() ==> (#[trigger] t.gaps[k]).lt(t.limit),
{
    lemma_monotone_end_to_end(t.witness->0);
}

impl View for Trial {
    type V = TrialView;

    closed spec fn view(&self) -> TrialView {
        TrialView {
            stage: self.stage,
            tolerance: self.tolerance,
            limit: self.limit,
            witness: match self.witness {
                Some(w) => Some(w@),
                None => None,
            },
            matched: self.matched,
            gaps: self.gaps@,
            verdict: self.verdict,
        }
    }
}

impl Trial {
    /// A new trial, with the tolerance of the corner rule and the limit
    /// below which a gap must stay, and its first request.
    pub fn begin(tolerance: Tolerance, limit: Scalar) -> (r: (Trial, Action))
        ensures
            r.0@ == TrialView::start(tolerance, limit),
            r.0@.wf(),
            r.1 == Action::RenderCurves,
    {
        let trial = Trial {
            stage: Stage::RenderingCurves,
            tolerance,
            limit,
            witness: None,
            matched: false,
            gaps: Vec::new(),
            verdict: None,
        };
        (trial, Action::RenderCurves)
    }

    /// The stage of the trial.
    pub fn stage(&self) -> (stage: Stage)
        ensures
            stage == self@.stage,
    {
        self.stage
    }

    /// The verdict, once the trial has finished.
    pub fn verdict(&self) -> (verdict: Option<Verdict>)
        ensures
            verdict == self@.verdict,
    {
        self.verdict
    }

    /// The request that the trial waits for an answer to.
    pub fn pending(&self) -> (action: Action)
        requires
            self@.wf(),
        ensures
            action == self@.pending(),
    {
        match self.stage {
            Stage::RenderingCurves => Action::RenderCurves,
            Stage::BuildingDiagram => Action::BuildDiagram,
            Stage::RenderingDiagram => Action::RenderDiagram,
            Stage::DerivingReachability => Action::DeriveReachability,
            Stage::RenderingReachability => Action::RenderReachability,
            Stage::ExtractingWitness => Action::ExtractWitness,
            Stage::RenderingWitness => Action::RenderWitness { overlay: self.witness.is_some() },
            Stage::QueryingMatch => Action::QueryMatch,
            Stage::Measuring { index } => match &self.witness {
                Some(w) => Action::Measure { index, step: w[index] },
                None => unreached(),
            },
            Stage::Finished => match self.verdict {
                Some(verdict) => Action::Finish(verdict),
                None => unreached(),
            },
        }
    }

    fn finish(&mut self, verdict: Verdict) -> (action: Action)
        ensures
            final(self)@ == old(self)@.finished(verdict),
            action == Action::Finish(verdict),
    {
        self.stage = Stage::Finished;
        self.verdict = Some(verdict);
        Action::Finish(verdict)
    }

    fn move_to(&mut self, stage: Stage, action: Action) -> (asked: Action)
        ensures
            final(self)@ == old(self)@.at(stage),
            asked == action,
    {
        self.stage = stage;
        action
    }

    /// What a reported match makes of the witness: the verdict at once, or
    /// none when its steps are to be measured.
    fn judge_witness(&self) -> (early: Option<Verdict>)
        ensures
            match self@.witness {
                None => early == Some(Verdict::Failed(TrialError::MissingWitness)),
                Some(w) => if !monotone(w) {
                    &&& early matches Some(Verdict::Failed(TrialError::Path(v)))
                    &&& first_step_back(w, v)
                } else if w.len() == 0 {
                    early == Some(Verdict::Passed)
                } else {
                    early is None
                },
            },
    {
        match &self.witness {
            None => Some(Verdict::Failed(TrialError::MissingWitness)),
            Some(w) => match check_monotone(w) {
                Err(v) => Some(Verdict::Failed(TrialError::Path(v))),
                Ok(()) => if w.len() == 0 {
                    Some(Verdict::Passed)
                } else {
                    None
                },
            },
        }
    }

    /// Takes the harness's answer and gives the next request, or the
    /// verdict.
    pub fn advance(&mut self, event: Event) -> (action: Action)
        requires
            old(self)@.wf(),
            event matches Event::DiagramBuilt(d) ==> d.wf(),
        ensures
            follows(old(self)@, event, final(self)@, action),
            final(self)@.wf(),
    {
        let ghost pre = self@;
        let action = match (self.stage, event) {
            (Stage::RenderingCurves, Event::Rendered { .. }) => self.move_to(
                Stage::BuildingDiagram,
                Action::BuildDiagram,
            ),
            (Stage::BuildingDiagram, Event::DiagramBuilt(d)) => {
                match check_corner_consistency(&d, &self.tolerance) {
                    Ok(()) => self.move_to(Stage::RenderingDiagram, Action::RenderDiagram),
                    Err(v) => self.finish(Verdict::Failed(TrialError::Corner(v))),
                }
            },
            (Stage::RenderingDiagram, Event::Rendered { .. }) => self.move_to(
                Stage::DerivingReachability,
                Action::DeriveReachability,
            ),
            (Stage::DerivingReachability, Event::ReachabilityDerived) => self.move_to(
                Stage::RenderingReachability,
                Action::RenderReachability,
            ),
            (Stage::RenderingReachability, Event::Rendered { .. }) => self.move_to(
                Stage::ExtractingWitness,
                Action::ExtractWitness,
            ),
            (Stage::ExtractingWitness, Event::WitnessFound(w)) => {
                self.witness = Some(w);
                self.move_to(Stage::RenderingWitness, Action::RenderWitness { overlay: true })
            },
            (Stage::ExtractingWitness, Event::NoWitness) => {
                self.witness = None;
                self.move_to(Stage::RenderingWitness, Action::RenderWitness { overlay: false })
            },
            (Stage::ExtractingWitness, Event::EngineFailed) => self.finish(
                Verdict::Failed(TrialError::Engine),
            ),
            (Stage::RenderingWitness, Event::Rendered { .. }) => self.move_to(
                Stage::QueryingMatch,
                Action::QueryMatch,
            ),
            (Stage::QueryingMatch, Event::MatchQueried(found)) => {
                if found {
                    let early = self.judge_witness();
                    self.matched = true;
                    match early {
                        Some(verdict) => self.finish(verdict),
                        None => {
                            let step = match &self.witness {
                                Some(w) => w[0],
                                None => unreached(),
                            };
                            self.move_to(
                                Stage::Measuring { index: 0 },
                                Action::Measure { index: 0, step },
                            )
                        },
                    }
                } else {
                    self.finish(Verdict::Passed)
                }
            },
            (Stage::Measuring { index }, Event::Measured(gap)) => {
                assert(self@.witness is Some && index < self@.witness->0.len());
                let (step, more) = match &self.witness {
                    Some(w) => {
                        let count: usize = w.len();
                        (
                            w[index],
                            if index + 1 < count {
                                Some(w[index + 1])
                            } else {
                                None
                            },
                        )
                    },
                    None => unreached(),
                };
                match check_gap(index, step, gap, self.limit) {
                    Err(v) => self.finish(Verdict::Failed(TrialError::Path(v))),
                    Ok(()) => {
                        self.gaps.push(gap);
                        match more {
                            Some(next) => self.move_to(
                                Stage::Measuring { index: index + 1 },
                                Action::Measure { index: index + 1, step: next },
                            ),
                            None => self.finish(Verdict::Passed),
                        }
                    },
                }
            },
            (_, _) => self.pending(),
        };
        proof {
            lemma_follows_keeps_wf(pre, event, self@, action);
        }
        action
    }
}

} // verus!
