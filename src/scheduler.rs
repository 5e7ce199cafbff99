use vstd::prelude::*;
use crate::graph::JobGraph;

verus! {

/// Where a job stands in a run. Completion and success are kept apart:
/// `Succeeded` and `Failed` are both finished.
#[derive(Clone, Copy, Debug, PartialEq, Eq, Structural)]
pub enum JobState {
    Waiting,
    Running,
    Succeeded,
    Failed,
}

/// The terminal result of a run.
#[derive(Debug)]
pub enum RunResult {
    Success,
    Stall,
    JobFailure(String),
}

/// What the coordinating loop is to do after one round of decisions.
#[derive(Debug)]
pub enum Round {
    /// Launch these jobs, by position, concurrently.
    Dispatch(Vec<usize>),
    /// Jobs are in flight: wait for one to report.
    Wait,
    /// The run is over; every job launched has reported.
    Finished(RunResult),
}

/// Every dependency of the list has finished with success.
pub open spec fn deps_satisfied(deps: Seq<usize>, states: Seq<JobState>) -> bool {
    forall|k: int|
        0 <= k < deps.len() ==> {
            let d = #[trigger] deps[k];
            d < states.len() && states[d as int] == JobState::Succeeded
        }
}

/// Job `i` has not been launched and all its dependencies have succeeded.
pub open spec fn ready(g: &JobGraph, states: Seq<JobState>, i: int) -> bool {
    states[i] == JobState::Waiting && deps_satisfied(g.deps_of(i), states)
}

pub open spec fn any_ready(g: &JobGraph, states: Seq<JobState>) -> bool {
    exists|i: int| 0 <= i < states.len() && ready(g, states, i)
}

pub open spec fn any_failed(states: Seq<JobState>) -> bool {
    exists|i: int| 0 <= i < states.len() && states[i] == JobState::Failed
}

pub open spec fn any_running(states: Seq<JobState>) -> bool {
    exists|i: int| 0 <= i < states.len() && states[i] == JobState::Running
}

pub open spec fn all_succeeded(states: Seq<JobState>) -> bool {
    forall|i: int| 0 <= i < states.len() ==> states[i] == JobState::Succeeded
}

/// `i` is the first failed job.
pub open spec fn first_failed(states: Seq<JobState>, i: int) -> bool {
    &&& 0 <= i < states.len()
    &&& states[i] == JobState::Failed
    &&& forall|j: int| 0 <= j < i ==> states[j] != JobState::Failed
}

/// No job can be launched, none is in flight, none failed, and the run is
/// not complete.
pub open spec fn stalled(g: &JobGraph, states: Seq<JobState>) -> bool {
    !any_failed(states) && !all_succeeded(states) && !any_ready(g, states) && !any_running(
        states,
    )
}

/// A dependency list satisfied in one state stays satisfied in any state in
/// which every job that had succeeded still has.
proof fn lemma_satisfied_monotone(deps: Seq<usize>, a: Seq<JobState>, b: Seq<JobState>)
    requires
        a.len() == b.len(),
        forall|j: int| 0 <= j < a.len() && a[j] == JobState::Succeeded ==> b[j] == JobState::Succeeded,
    ensures
        deps_satisfied(deps, a) ==> deps_satisfied(deps, b),
{
}

/// The mutable state of one run, owned by the coordinating loop.
pub struct RunState {
    pub states: Vec<JobState>,
}

impl RunState {
    /// One state per job, and every launched job was launched only after all
    /// its dependencies had succeeded (those never change again).
    pub open spec fn inv(&self, g: &JobGraph) -> bool {
        &&& g.wf()
        &&& self.states@.len() == g.len()
        &&& forall|i: int|
            0 <= i < g.len() && #[trigger] self.states@[i] != JobState::Waiting
                ==> deps_satisfied(g.deps_of(i), self.states@)
    }

    /// A fresh run: every job waiting.
    pub fn new(g: &JobGraph) -> (r: RunState)
        requires
            g.wf(),
        ensures
            r.inv(g),
            forall|i: int| 0 <= i < g.len() ==> r.states@[i] == JobState::Waiting,
    {
        let mut states: Vec<JobState> = Vec::new();
        let mut i: usize = 0;
        while i < g.names.len()
            invariant
                g.wf(),
                i <= g.len(),
                states@.len() == i,
                forall|j: int| 0 <= j < i ==> states@[j] == JobState::Waiting,
            decreases g.len() - i,
        {
            states.push(JobState::Waiting);
            i = i + 1;
        }
        RunState { states }
    }

    /// Whether job `i` has every dependency finished with success.
    pub fn dependencies_satisfied(&self, g: &JobGraph, i: usize) -> (r: bool)
        requires
            g.wf(),
            i < g.len(),
        ensures
            r == deps_satisfied(g.deps_of(i as int), self.states@),
    {
        let deps = &g.deps[i];
        let mut k: usize = 0;
        while k < deps.len()
            invariant
                k <= deps@.len(),
                deps@ == g.deps_of(i as int),
                forall|m: int|
                    0 <= m < k ==> {
                        let d = #[trigger] deps@[m];
                        d < self.states@.len() && self.states@[d as int] == JobState::Succeeded
                    },
            decreases deps@.len() - k,
        {
            let d = deps[k];
            if d >= self.states.len() || self.states[d] != JobState::Succeeded {
                return false;
            }
            k = k + 1;
        }
        true
    }

    /// The positions of the jobs that may be launched now, in increasing order.
    pub fn runnable(&self, g: &JobGraph) -> (r: Vec<usize>)
        requires
            self.inv(g),
        ensures
            forall|i: int| 0 <= i < r@.len() ==> #[trigger] r@[i] < g.len(),
            forall|i: int, j: int| 0 <= i < j < r@.len() ==> r@[i] < r@[j],
            forall|i: int|
                0 <= i < g.len() ==> (r@.contains(i as usize) <== ready(g, self.states@, i)),
            forall|i: int| 0 <= i < r@.len() ==> ready(g, self.states@, #[trigger] r@[i] as int),
    {
        let mut out: Vec<usize> = Vec::new();
        let mut i: usize = 0;
        while i < self.states.len()
            invariant
                self.inv(g),
                i <= g.len(),
                forall|m: int| 0 <= m < out@.len() ==> #[trigger] out@[m] < i,
                forall|m: int, p: int| 0 <= m < p < out@.len() ==> out@[m] < out@[p],
                forall|j: int| 0 <= j < i ==> (out@.contains(j as usize) <== ready(g, self.states@, j)),
                forall|m: int| 0 <= m < out@.len() ==> ready(g, self.states@, #[trigger] out@[m] as int),
            decreases g.len() - i,
        {
            let ghost before = out@;
            if self.states[i] == JobState::Waiting && self.dependencies_satisfied(g, i) {
                out.push(i);
                assert(out@[out@.len() - 1] == i);
                assert forall|j: int| 0 <= j < i && #[trigger] before.contains(j as usize) implies out@.contains(
                    j as usize,
                ) by {
                    let m = choose|m: int| 0 <= m < before.len() && before[m] == j as usize;
                    assert(out@[m] == j as usize);
                }
            }
            i = i + 1;
        }
        out
    }

    /// One round of the coordinating loop. Once a job has failed nothing new
    /// is launched, and the failure is reported when no job is in flight.
    /// Otherwise every job that may run is launched at once, or, with none in
    /// flight and none ready, the run has stalled.
    pub fn next_round(&mut self, g: &JobGraph) -> (r: Round)
        requires
            old(self).inv(g),
        ensures
            final(self).inv(g),
            any_failed(old(self).states@) ==> !(r is Dispatch),
            match r {
                Round::Finished(RunResult::Success) => all_succeeded(old(self).states@)
                    && final(self).states@ == old(self).states@,
                Round::Finished(RunResult::JobFailure(name)) => !any_running(old(self).states@)
                    && final(self).states@ == old(self).states@ && exists|i: int|
                    first_failed(old(self).states@, i) && name@ == g.names@[i]@,
                Round::Finished(RunResult::Stall) => stalled(g, old(self).states@)
                    && final(self).states@ == old(self).states@,
                Round::Wait => any_running(old(self).states@) && (any_failed(old(self).states@)
                    || !any_ready(g, old(self).states@)) && final(self).states@ == old(
                    self,
                ).states@,
                Round::Dispatch(v) => {
                    &&& !any_failed(old(self).states@)
                    &&& v@.len() > 0
                    &&& forall|i: int| 0 <= i < v@.len() ==> #[trigger] v@[i] < g.len()
                    &&& forall|i: int, j: int| 0 <= i < j < v@.len() ==> v@[i] < v@[j]
                    &&& forall|i: int|
                        0 <= i < g.len() ==> (v@.contains(i as usize) <==> ready(
                            g,
                            old(self).states@,
                            i,
                        ))
                    &&& final(self).states@.len() == old(self).states@.len()
                    &&& forall|i: int|
                        0 <= i < g.len() ==> #[trigger] final(self).states@[i] == if v@.contains(
                            i as usize,
                        ) {
                            JobState::Running
                        } else {
                            old(self).states@[i]
                        }
                },
            },
    {
        let ghost start = self.states@;
        let mut failed: Option<usize> = None;
        let mut running = false;
        let mut all_ok = true;
        let mut i: usize = 0;
        while i < self.states.len()
            invariant
                self.states@ == start,
                i <= start.len(),
                running <==> exists|j: int| 0 <= j < i && start[j] == JobState::Running,
                all_ok <==> forall|j: int| 0 <= j < i ==> start[j] == JobState::Succeeded,
                match failed {
                    Some(f) => first_failed(start, f as int) && f < i,
                    None => forall|j: int| 0 <= j < i ==> start[j] != JobState::Failed,
                },
            decreases start.len() - i,
        {
            let s = self.states[i];
            if s == JobState::Running {
                running = true;
            }
            if s != JobState::Succeeded {
                all_ok = false;
            }
            if s == JobState::Failed && failed.is_none() {
                failed = Some(i);
            }
            i = i + 1;
        }
        if let Some(f) = failed {
            if running {
                return Round::Wait;
            }
            return Round::Finished(RunResult::JobFailure(g.names[f].clone()));
        }
        if all_ok {
            return Round::Finished(RunResult::Success);
        }
        let r = self.runnable(g);
        if r.len() == 0 {
            assert(!any_ready(g, start)) by {
                if any_ready(g, start) {
                    let j = choose|j: int| 0 <= j < start.len() && ready(g, start, j);
                    assert(r@.contains(j as usize));
                }
            }
            if running {
                return Round::Wait;
            }
            return Round::Finished(RunResult::Stall);
        }
        let n = self.states.len();
        let mut k: usize = 0;
        while k < r.len()
            invariant
                g.wf(),
                g.len() == n,
                start.len() == g.len(),
                k <= r@.len(),
                self.states@.len() == start.len(),
                forall|m: int| 0 <= m < r@.len() ==> #[trigger] r@[m] < g.len(),
                forall|m: int, p: int| 0 <= m < p < r@.len() ==> r@[m] < r@[p],
                forall|m: int| 0 <= m < r@.len() ==> ready(g, start, #[trigger] r@[m] as int),
                forall|j: int|
                    0 <= j < g.len() ==> #[trigger] self.states@[j] == if r@.subrange(
                        0,
                        k as int,
                    ).contains(j as usize) {
                        JobState::Running
                    } else {
                        start[j]
                    },
            decreases r@.len() - k,
        {
            let ghost before = self.states@;
            self.states.set(r[k], JobState::Running);
            assert forall|j: int| 0 <= j < g.len() implies #[trigger] self.states@[j] == if r@.subrange(
                0,
                k + 1,
            ).contains(j as usize) {
                JobState::Running
            } else {
                start[j]
            } by {
                let pre = r@.subrange(0, k as int);
                let post = r@.subrange(0, k + 1);
                assert(post[k as int] == r@[k as int]);
                assert((j as usize) as int == j);
                if pre.contains(j as usize) {
                    let m = choose|m: int| 0 <= m < pre.len() && pre[m] == j as usize;
                    assert(post[m] == j as usize);
                } else if j == r@[k as int] as int {
                    assert(post.contains(j as usize));
                } else {
                    assert(self.states@[j] == before[j]);
                    if post.contains(j as usize) {
                        let m = choose|m: int| 0 <= m < post.len() && post[m] == j as usize;
                        assert(m != k);
                        assert(pre[m] == post[m]);
                    }
                }
            }
            k = k + 1;
        }
        assert(r@.subrange(0, r@.len() as int) == r@);
        proof {
            assert forall|j: int| 0 <= j < g.len() implies (start[j] == JobState::Succeeded
                <==> self.states@[j] == JobState::Succeeded) by {
                if r@.contains(j as usize) {
                    let m = choose|m: int| 0 <= m < r@.len() && r@[m] == j as usize;
                    assert(ready(g, start, r@[m] as int));
                }
            }
            assert forall|j: int|
                0 <= j < g.len() && #[trigger] self.states@[j] != JobState::Waiting implies deps_satisfied(
                g.deps_of(j),
                self.states@,
            ) by {
                if r@.contains(j as usize) {
                    let m = choose|m: int| 0 <= m < r@.len() && r@[m] == j as usize;
                    assert(ready(g, start, r@[m] as int));
                }
                lemma_satisfied_monotone(g.deps_of(j), start, self.states@);
            }
        }
        Round::Dispatch(r)
    }

    /// Records that a launched job has finished, with or without success.
    pub fn finish(&mut self, g: &JobGraph, job: usize, success: bool)
        requires
            old(self).inv(g),
            job < g.len(),
            old(self).states@[job as int] == JobState::Running,
        ensures
            final(self).inv(g),
            final(self).states@ == old(self).states@.update(
                job as int,
                if success {
                    JobState::Succeeded
                } else {
                    JobState::Failed
                },
            ),
    {
        let ghost start = self.states@;
        let s = if success {
            JobState::Succeeded
        } else {
            JobState::Failed
        };
        self.states.set(job, s);
        proof {
            assert forall|j: int|
                0 <= j < g.len() && #[trigger] self.states@[j] != JobState::Waiting implies deps_satisfied(
                g.deps_of(j),
                self.states@,
            ) by {
                lemma_satisfied_monotone(g.deps_of(j), start, self.states@);
            }
        }
    }
}

} // verus!
