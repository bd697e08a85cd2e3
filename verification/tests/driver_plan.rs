use pcm_vis::case::{Point, TestCase};
use pcm_vis::driver::{after_trial, replay_cases, smoke_case, Config, Followup, Mode};
use pcm_vis::scalar::Scalar;
use pcm_vis::trial::{TrialError, Verdict};

fn s(x: f64) -> Scalar {
    Scalar::from_bits(x.to_bits())
}

fn case(seed: f64) -> TestCase {
    TestCase { primary: vec![Point { x: s(seed), y: s(seed) }], secondary: vec![], epsilon: s(1.0) }
}

#[test]
fn the_standard_run_discovers_ten_times() {
    let c = Config::standard();
    assert_eq!(c.mode, Mode::Discover);
    assert_eq!(c.run_count, 10);
    assert_eq!(c.curve_points, 5);
    assert_eq!(c.field_size, s(2.0));
    assert_eq!(c.epsilon, s(1.0));
}

#[test]
fn only_a_failure_in_discovery_is_persisted() {
    let failed = Verdict::Failed(TrialError::MissingWitness);
    assert_eq!(after_trial(Mode::Discover, Verdict::Passed), Followup::Proceed);
    assert_eq!(after_trial(Mode::Replay, Verdict::Passed), Followup::Proceed);
    assert_eq!(after_trial(Mode::Discover, failed), Followup::ReportAndPersist);
    assert_eq!(after_trial(Mode::Replay, failed), Followup::Report);
    assert_eq!(after_trial(Mode::Replay, Verdict::Failed(TrialError::Engine)), Followup::Report);
}

#[test]
fn a_replay_runs_no_more_cases_than_the_run_has_trials() {
    let loaded = vec![case(1.0), case(2.0), case(3.0)];
    assert_eq!(replay_cases(loaded.clone(), 2), vec![case(1.0), case(2.0)]);
    assert_eq!(replay_cases(loaded.clone(), 3), loaded);
    assert_eq!(replay_cases(loaded.clone(), 10), loaded);
    assert_eq!(replay_cases(loaded, 0), Vec::new());
    assert_eq!(replay_cases(Vec::new(), 10), Vec::new());
}

#[test]
fn the_smoke_case_matches_a_curve_against_itself() {
    let curve = vec![Point { x: s(0.25), y: s(1.5) }, Point { x: s(f64::NAN), y: s(-0.0) }];
    let c = smoke_case(curve.clone(), s(1.0));
    assert_eq!(c.primary, curve);
    assert_eq!(c.secondary, curve);
    assert_eq!(c.epsilon, s(1.0));
}
