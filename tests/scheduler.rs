use ferroci::graph::{Job, JobGraph, Pipeline};
use ferroci::scheduler::{JobState, Round, RunResult, RunState};
use ferroci::steps::{run_job, FailureCause, JobAction, JobOutcome, StepStatus};

fn job(steps: &[&str], deps: Option<&[&str]>) -> Job {
    Job {
        steps: steps.iter().map(|s| s.to_string()).collect(),
        depends_on: deps.map(|d| d.iter().map(|s| s.to_string()).collect()),
    }
}

fn pipeline(jobs: Vec<(&str, Job)>) -> Pipeline {
    Pipeline {
        version: "1".to_string(),
        jobs: jobs.into_iter().map(|(n, j)| (n.to_string(), j)).collect(),
    }
}

/// Runs the coordinating decisions to the end, with every launched job
/// finishing at once, successfully unless its name is in `failing`.
/// Returns the result and the launched jobs, round by round.
fn drive(g: &JobGraph, failing: &[&str]) -> (RunResult, Vec<Vec<String>>) {
    let mut run = RunState::new(g);
    let mut rounds = Vec::new();
    for _ in 0..100 {
        match run.next_round(g) {
            Round::Dispatch(v) => {
                rounds.push(v.iter().map(|&i| g.names[i].clone()).collect());
                for i in v {
                    let ok = !failing.contains(&g.names[i].as_str());
                    run.finish(g, i, ok);
                }
            }
            Round::Wait => panic!("nothing is in flight"),
            Round::Finished(r) => return (r, rounds),
        }
    }
    panic!("the run did not end")
}

#[test]
fn chain_runs_in_dependency_order() {
    let p = pipeline(vec![
        ("deploy", job(&["echo deploy"], Some(&["test"]))),
        ("build", job(&["echo build"], None)),
        ("test", job(&["echo test"], Some(&["build"]))),
    ]);
    let g = p.graph();
    let (r, rounds) = drive(&g, &[]);
    assert!(matches!(r, RunResult::Success));
    assert_eq!(
        rounds,
        vec![vec!["build".to_string()], vec!["test".to_string()], vec!["deploy".to_string()]]
    );
}

#[test]
fn two_job_cycle_stalls() {
    let p = pipeline(vec![("a", job(&[], Some(&["b"]))), ("b", job(&[], Some(&["a"])))]);
    let g = p.graph();
    let (r, rounds) = drive(&g, &[]);
    assert!(matches!(r, RunResult::Stall));
    assert!(rounds.is_empty());
}

#[test]
fn failing_job_fails_the_run() {
    let p = pipeline(vec![("x", job(&["false"], None))]);
    let g = p.graph();
    let (r, _) = drive(&g, &["x"]);
    match r {
        RunResult::JobFailure(name) => assert_eq!(name, "x"),
        other => panic!("unexpected {:?}", other),
    }
}

#[test]
fn failure_stops_later_jobs() {
    let p = pipeline(vec![
        ("build", job(&["make"], None)),
        ("test", job(&["make test"], Some(&["build"]))),
    ]);
    let g = p.graph();
    let (r, rounds) = drive(&g, &["build"]);
    assert!(matches!(r, RunResult::JobFailure(ref n) if n == "build"));
    assert_eq!(rounds, vec![vec!["build".to_string()]]);
}

#[test]
fn failure_waits_for_jobs_in_flight() {
    let p = pipeline(vec![("a", job(&["x"], None)), ("b", job(&["y"], None))]);
    let g = p.graph();
    let mut run = RunState::new(&g);
    match run.next_round(&g) {
        Round::Dispatch(v) => assert_eq!(v, vec![0, 1]),
        other => panic!("unexpected {:?}", other),
    }
    run.finish(&g, 0, false);
    assert!(matches!(run.next_round(&g), Round::Wait));
    run.finish(&g, 1, true);
    assert!(matches!(run.next_round(&g), Round::Finished(RunResult::JobFailure(ref n)) if n == "a"));
}

#[test]
fn independent_jobs_launch_together() {
    let p = pipeline(vec![
        ("lint", job(&["lint"], None)),
        ("build", job(&["make"], None)),
        ("pack", job(&["tar"], Some(&["build", "lint"]))),
    ]);
    let g = p.graph();
    let (r, rounds) = drive(&g, &[]);
    assert!(matches!(r, RunResult::Success));
    assert_eq!(rounds.len(), 2);
    assert_eq!(rounds[0], vec!["lint".to_string(), "build".to_string()]);
    assert_eq!(rounds[1], vec!["pack".to_string()]);
}

#[test]
fn waiting_while_a_dependency_runs() {
    let p = pipeline(vec![("a", job(&["x"], None)), ("b", job(&["y"], Some(&["a"])))]);
    let g = p.graph();
    let mut run = RunState::new(&g);
    assert!(matches!(run.next_round(&g), Round::Dispatch(ref v) if v == &vec![0]));
    assert!(matches!(run.next_round(&g), Round::Wait));
    run.finish(&g, 0, true);
    assert!(matches!(run.next_round(&g), Round::Dispatch(ref v) if v == &vec![1]));
    assert_eq!(run.states, vec![JobState::Succeeded, JobState::Running]);
}

#[test]
fn same_graph_twice_gives_same_result() {
    let p = pipeline(vec![
        ("build", job(&["make"], None)),
        ("test", job(&["make test"], Some(&["build"]))),
    ]);
    let g = p.graph();
    let (r1, rounds1) = drive(&g, &[]);
    let (r2, rounds2) = drive(&g, &[]);
    assert!(matches!(r1, RunResult::Success));
    assert!(matches!(r2, RunResult::Success));
    assert_eq!(rounds1, rounds2);
}

#[test]
fn missing_dependency_stalls() {
    let p = pipeline(vec![("a", job(&["x"], None)), ("b", job(&["y"], Some(&["nope"])))]);
    let g = p.graph();
    assert_eq!(g.deps[1], vec![2]);
    let (r, rounds) = drive(&g, &[]);
    assert!(matches!(r, RunResult::Stall));
    assert_eq!(rounds, vec![vec!["a".to_string()]]);
}

#[test]
fn empty_pipeline_succeeds() {
    let g = pipeline(vec![]).graph();
    let (r, rounds) = drive(&g, &[]);
    assert!(matches!(r, RunResult::Success));
    assert!(rounds.is_empty());
}

#[test]
fn graph_resolves_names_to_positions() {
    let p = pipeline(vec![
        ("a", job(&[], None)),
        ("b", job(&[], Some(&["a"]))),
        ("c", job(&[], Some(&["b", "a", "zzz"]))),
    ]);
    let g = p.graph();
    assert_eq!(g.names, vec!["a".to_string(), "b".to_string(), "c".to_string()]);
    assert_eq!(g.deps, vec![vec![], vec![0], vec![1, 0, 3]]);
    assert_eq!(p.position_of(&"c".to_string()), 2);
    assert_eq!(p.position_of(&"q".to_string()), 3);
}

#[test]
fn dependencies_satisfied_needs_success() {
    let p = pipeline(vec![("a", job(&[], None)), ("b", job(&[], Some(&["a"])))]);
    let g = p.graph();
    let mut run = RunState::new(&g);
    assert!(run.dependencies_satisfied(&g, 0));
    assert!(!run.dependencies_satisfied(&g, 1));
    let _ = run.next_round(&g);
    assert!(!run.dependencies_satisfied(&g, 1));
    run.finish(&g, 0, false);
    assert!(!run.dependencies_satisfied(&g, 1));
    assert_eq!(run.runnable(&g), Vec::<usize>::new());
}

#[test]
fn run_job_runs_steps_in_order() {
    let j = job(&["s1", "s2", "s3"], None);
    let mut results = Vec::new();
    assert!(matches!(run_job(&j, &results), JobAction::RunStep(0)));
    results.push(StepStatus::Success);
    assert!(matches!(run_job(&j, &results), JobAction::RunStep(1)));
    results.push(StepStatus::Success);
    assert!(matches!(run_job(&j, &results), JobAction::RunStep(2)));
    results.push(StepStatus::Success);
    assert!(matches!(run_job(&j, &results), JobAction::Finish(JobOutcome::AllStepsSucceeded)));
}

#[test]
fn run_job_stops_after_failed_step() {
    let j = job(&["s1", "s2", "s3"], None);
    let results = vec![StepStatus::Success, StepStatus::Failure(FailureCause::Exit(Some(1)))];
    match run_job(&j, &results) {
        JobAction::Finish(JobOutcome::StepFailed { index, step, cause }) => {
            assert_eq!(index, 1);
            assert_eq!(step, "s2");
            assert!(matches!(cause, FailureCause::Exit(Some(1))));
        }
        other => panic!("unexpected {:?}", other),
    }
}

#[test]
fn run_job_reports_launch_failure() {
    let j = job(&["s1"], None);
    let results = vec![StepStatus::Failure(FailureCause::Launch("not found".to_string()))];
    match run_job(&j, &results) {
        JobAction::Finish(JobOutcome::StepFailed { index, step, cause }) => {
            assert_eq!(index, 0);
            assert_eq!(step, "s1");
            assert!(matches!(cause, FailureCause::Launch(ref w) if w == "not found"));
        }
        other => panic!("unexpected {:?}", other),
    }
}

#[test]
fn run_job_with_no_steps_succeeds() {
    let j = job(&[], None);
    assert!(matches!(run_job(&j, &Vec::new()), JobAction::Finish(JobOutcome::AllStepsSucceeded)));
}
