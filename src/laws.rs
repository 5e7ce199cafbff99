use vstd::prelude::*;
use crate::graph::JobGraph;
use crate::scheduler::{
    JobState,
    RunState,
    all_succeeded,
    any_failed,
    any_ready,
    any_running,
    deps_satisfied,
    ready,
    stalled,
};

verus! {

/// The state of a fresh run of `n` jobs.
pub open spec fn initial_states(n: nat) -> Seq<JobState> {
    Seq::new(n, |i: int| JobState::Waiting)
}

/// One round in which every job that may run is launched and succeeds before
/// the next round looks again.
pub open spec fn clean_round(g: &JobGraph, states: Seq<JobState>) -> Seq<JobState> {
    Seq::new(
        states.len(),
        |i: int|
            if ready(g, states, i) {
                JobState::Succeeded
            } else {
                states[i]
            },
    )
}

/// `rounds` clean rounds in a row.
pub open spec fn clean_run(g: &JobGraph, states: Seq<JobState>, rounds: nat) -> Seq<JobState>
    decreases rounds,
{
    if rounds == 0 {
        states
    } else {
        clean_run(g, clean_round(g, states), (rounds - 1) as nat)
    }
}

/// The number of jobs that have succeeded.
pub open spec fn succeeded_count(states: Seq<JobState>) -> nat
    decreases states.len(),
{
    if states.len() == 0 {
        0
    } else {
        succeeded_count(states.drop_last()) + if states.last() == JobState::Succeeded {
            1nat
        } else {
            0nat
        }
    }
}

/// Every job either waits or has succeeded.
pub open spec fn waiting_or_succeeded(states: Seq<JobState>) -> bool {
    forall|i: int|
        0 <= i < states.len() ==> states[i] == JobState::Waiting || states[i]
            == JobState::Succeeded
}

/// In every state of a run, a job that has been launched has every
/// dependency finished with success: no job starts before its dependencies
/// have completed.
pub proof fn lemma_launched_after_dependencies(g: &JobGraph, run: &RunState, i: int, k: int)
    requires
        run.inv(g),
        0 <= i < g.len(),
        run.states@[i] != JobState::Waiting,
        0 <= k < g.deps_of(i).len(),
    ensures
        g.deps_of(i)[k] < g.len(),
        run.states@[g.deps_of(i)[k] as int] == JobState::Succeeded,
{
    assert(deps_satisfied(g.deps_of(i), run.states@));
}

/// Two jobs that each depend on the other, and on nothing else, stall the run
/// at its very first round: the scheduler reports it instead of waiting.
pub proof fn lemma_two_cycle_stalls(g: &JobGraph)
    requires
        g.wf(),
        g.len() == 2,
        g.deps_of(0) == seq![1usize],
        g.deps_of(1) == seq![0usize],
    ensures
        stalled(g, initial_states(2)),
{
    let s = initial_states(2);
    assert(!ready(g, s, 0)) by {
        assert(g.deps_of(0)[0] == 1usize);
    }
    assert(!ready(g, s, 1)) by {
        assert(g.deps_of(1)[0] == 0usize);
    }
    assert(s[0] != JobState::Succeeded);
}

/// With no cycle, no failure and no job in flight, a waiting job means some
/// job may run now.
proof fn lemma_waiting_leads_to_ready(
    g: &JobGraph,
    states: Seq<JobState>,
    rank: Seq<nat>,
    i: int,
)
    requires
        g.acyclic_with(rank),
        states.len() == g.len(),
        !any_failed(states),
        !any_running(states),
        0 <= i < g.len(),
        states[i] == JobState::Waiting,
    ensures
        any_ready(g, states),
    decreases rank[i],
{
    if !ready(g, states, i) {
        let k = choose|k: int|
            0 <= k < g.deps_of(i).len() && !({
                let d = #[trigger] g.deps_of(i)[k];
                d < states.len() && states[d as int] == JobState::Succeeded
            });
        let d = g.deps_of(i)[k];
        assert(d < g.len() && rank[d as int] < rank[i]);
        lemma_waiting_leads_to_ready(g, states, rank, d as int);
    }
}

/// A run of a graph without cycles or missing names never stalls while no
/// job has failed.
pub proof fn lemma_acyclic_never_stalls(g: &JobGraph, states: Seq<JobState>, rank: Seq<nat>)
    requires
        g.acyclic_with(rank),
        states.len() == g.len(),
    ensures
        !stalled(g, states),
{
    if stalled(g, states) {
        let i = choose|i: int| 0 <= i < states.len() && states[i] != JobState::Succeeded;
        assert(states[i] != JobState::Failed);
        assert(states[i] != JobState::Running);
        lemma_waiting_leads_to_ready(g, states, rank, i);
    }
}

proof fn lemma_count_bounded(states: Seq<JobState>)
    ensures
        succeeded_count(states) <= states.len(),
        succeeded_count(states) == states.len() ==> all_succeeded(states),
    decreases states.len(),
{
    if states.len() > 0 {
        lemma_count_bounded(states.drop_last());
        if succeeded_count(states) == states.len() {
            assert forall|i: int| 0 <= i < states.len() implies states[i]
                == JobState::Succeeded by {
                if i < states.len() - 1 {
                    assert(states.drop_last()[i] == states[i]);
                }
            }
        }
    }
}

/// Where `b` keeps every success of `a` and adds one, it counts more.
proof fn lemma_count_grows(a: Seq<JobState>, b: Seq<JobState>, j: int)
    requires
        a.len() == b.len(),
        forall|i: int| 0 <= i < a.len() && a[i] == JobState::Succeeded ==> b[i] == JobState::Succeeded,
        0 <= j < a.len(),
        a[j] != JobState::Succeeded,
        b[j] == JobState::Succeeded,
    ensures
        succeeded_count(a) < succeeded_count(b),
    decreases a.len(),
{
    lemma_count_monotone(a.drop_last(), b.drop_last());
    if j < a.len() - 1 {
        lemma_count_grows(a.drop_last(), b.drop_last(), j);
    }
}

proof fn lemma_count_monotone(a: Seq<JobState>, b: Seq<JobState>)
    requires
        a.len() == b.len(),
        forall|i: int| 0 <= i < a.len() && a[i] == JobState::Succeeded ==> b[i] == JobState::Succeeded,
    ensures
        succeeded_count(a) <= succeeded_count(b),
    decreases a.len(),
{
    if a.len() > 0 {
        lemma_count_monotone(a.drop_last(), b.drop_last());
    }
}

/// After `t` clean rounds from a state of only waiting and succeeded jobs, at
/// least `t` more jobs have succeeded, or all have.
proof fn lemma_clean_run_progress(g: &JobGraph, states: Seq<JobState>, rank: Seq<nat>, t: nat)
    requires
        g.acyclic_with(rank),
        states.len() == g.len(),
        waiting_or_succeeded(states),
    ensures
        clean_run(g, states, t).len() == g.len(),
        all_succeeded(clean_run(g, states, t)) || succeeded_count(clean_run(g, states, t))
            >= succeeded_count(states) + t,
    decreases t,
{
    if t > 0 {
        let next = clean_round(g, states);
        assert(waiting_or_succeeded(next));
        if all_succeeded(states) {
            assert(next =~= states);
            lemma_clean_run_fixed(g, states, (t - 1) as nat);
        } else {
            lemma_acyclic_never_stalls(g, states, rank);
            assert(!any_failed(states));
            assert(!any_running(states));
            let j = choose|j: int| 0 <= j < states.len() && ready(g, states, j);
            lemma_count_grows(states, next, j);
            lemma_clean_run_progress(g, next, rank, (t - 1) as nat);
        }
    }
}

/// Clean rounds change nothing once every job has succeeded.
proof fn lemma_clean_run_fixed(g: &JobGraph, states: Seq<JobState>, t: nat)
    requires
        all_succeeded(states),
    ensures
        clean_run(g, states, t) == states,
    decreases t,
{
    if t > 0 {
        assert(clean_round(g, states) =~= states);
        lemma_clean_run_fixed(g, states, (t - 1) as nat);
    }
}

/// A graph without cycles or missing names, whose jobs all succeed, runs to
/// completion: after as many rounds as it has jobs every job has succeeded,
/// so every run of it ends in success with the same complete set of finished
/// jobs.
pub proof fn lemma_clean_run_succeeds(g: &JobGraph, rank: Seq<nat>)
    requires
        g.acyclic_with(rank),
    ensures
        all_succeeded(clean_run(g, initial_states(g.len()), g.len())),
        clean_run(g, initial_states(g.len()), g.len()).len() == g.len(),
{
    let s = initial_states(g.len());
    lemma_clean_run_progress(g, s, rank, g.len());
    let f = clean_run(g, s, g.len());
    lemma_count_bounded(f);
}

} // verus!
