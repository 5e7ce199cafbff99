use vstd::prelude::*;
use crate::graph::Job;

verus! {

/// Why a step failed.
#[derive(Debug)]
pub enum FailureCause {
    /// The command ran and exited unsuccessfully, with its exit code if it had one.
    Exit(Option<i32>),
    /// The command interpreter could not be started; the reason in words.
    Launch(String),
}

impl FailureCause {
    /// An equal copy.
    pub fn duplicate(&self) -> (r: FailureCause)
        ensures
            r == *self,
    {
        match self {
            FailureCause::Exit(code) => FailureCause::Exit(*code),
            FailureCause::Launch(why) => FailureCause::Launch(why.clone()),
        }
    }
}

/// What running one step gave.
#[derive(Debug)]
pub enum StepStatus {
    Success,
    Failure(FailureCause),
}

/// The result of running a job's steps.
#[derive(Debug)]
pub enum JobOutcome {
    AllStepsSucceeded,
    StepFailed { index: usize, step: String, cause: FailureCause },
}

/// What the step runner is to do next.
#[derive(Debug)]
pub enum JobAction {
    /// Run the step at this position.
    RunStep(usize),
    /// The job is over.
    Finish(JobOutcome),
}

/// Every one of the first `n` results is a success.
pub open spec fn succeeded_up_to(results: Seq<StepStatus>, n: int) -> bool {
    forall|k: int| 0 <= k < n ==> results[k] is Success
}

/// Decides the next move of a job's step runner, given the results of the
/// steps run so far, in order. Steps run strictly in order, and none runs
/// after one has failed: the first failure ends the job.
pub fn run_job(job: &Job, results: &Vec<StepStatus>) -> (r: JobAction)
    requires
        results@.len() <= job.steps@.len(),
    ensures
        match r {
            JobAction::RunStep(i) => i == results@.len() && i < job.steps@.len() && succeeded_up_to(
                results@,
                i as int,
            ),
            JobAction::Finish(JobOutcome::AllStepsSucceeded) => results@.len() == job.steps@.len()
                && succeeded_up_to(results@, results@.len() as int),
            JobAction::Finish(JobOutcome::StepFailed { index, step, cause }) => index
                < results@.len() && results@[index as int] == StepStatus::Failure(cause)
                && step@ == job.steps@[index as int]@ && succeeded_up_to(results@, index as int),
        },
{
    let mut i: usize = 0;
    while i < results.len()
        invariant
            i <= results@.len(),
            results@.len() <= job.steps@.len(),
            succeeded_up_to(results@, i as int),
        decreases results@.len() - i,
    {
        match &results[i] {
            StepStatus::Success => {},
            StepStatus::Failure(cause) => {
                return JobAction::Finish(
                    JobOutcome::StepFailed {
                        index: i,
                        step: job.steps[i].clone(),
                        cause: cause.duplicate(),
                    },
                );
            },
        }
        i = i + 1;
    }
    if i < job.steps.len() {
        JobAction::RunStep(i)
    } else {
        JobAction::Finish(JobOutcome::AllStepsSucceeded)
    }
}

} // verus!
