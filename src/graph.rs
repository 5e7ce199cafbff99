use vstd::prelude::*;

verus! {

/// One unit of work: shell command lines run in order, and the names of the
/// jobs that must finish first.
pub struct Job {
    pub steps: Vec<String>,
    pub depends_on: Option<Vec<String>>,
}

/// A pipeline definition: a version tag and the jobs, each under its name.
pub struct Pipeline {
    pub version: String,
    pub jobs: Vec<(String, Job)>,
}

/// The jobs of a pipeline by position, with each dependency resolved to the
/// position of the job it names. A name that no job carries resolves to the
/// number of jobs, a position that never completes.
pub struct JobGraph {
    pub names: Vec<String>,
    pub deps: Vec<Vec<usize>>,
}

/// The dependency names of a job, an absent list being empty.
pub open spec fn dependency_names(job: Job) -> Seq<String> {
    match job.depends_on {
        Some(d) => d@,
        None => Seq::empty(),
    }
}

impl Pipeline {
    pub open spec fn len(&self) -> nat {
        self.jobs@.len()
    }

    pub open spec fn name_at(&self, i: int) -> Seq<char> {
        self.jobs@[i].0@
    }

    /// `d` is where `name` resolves: the first job carrying it, or the number
    /// of jobs when none does.
    pub open spec fn resolves(&self, name: Seq<char>, d: int) -> bool {
        &&& 0 <= d <= self.len()
        &&& d < self.len() ==> self.name_at(d) == name
        &&& forall|e: int| 0 <= e < d ==> #[trigger] self.name_at(e) != name
    }

    /// The position of the job named `name`, or the number of jobs when there
    /// is none.
    pub fn position_of(&self, name: &String) -> (r: usize)
        ensures
            self.resolves(name@, r as int),
    {
        let mut i: usize = 0;
        while i < self.jobs.len()
            invariant
                i <= self.jobs@.len(),
                forall|e: int| 0 <= e < i ==> #[trigger] self.name_at(e) != name@,
            decreases self.jobs@.len() - i,
        {
            if self.jobs[i].0 == *name {
                return i;
            }
            i = i + 1;
        }
        i
    }

    /// Resolves every dependency name of every job to a position.
    pub fn graph(&self) -> (g: JobGraph)
        ensures
            g.wf(),
            g.names@.len() == self.len(),
            forall|i: int| 0 <= i < self.len() ==> (#[trigger] g.names@[i])@ == self.name_at(i),
            forall|i: int|
                0 <= i < self.len() ==> (#[trigger] g.deps@[i])@.len() == dependency_names(
                    self.jobs@[i].1,
                ).len(),
            forall|i: int, k: int|
                0 <= i < self.len() && 0 <= k < dependency_names(self.jobs@[i].1).len()
                    ==> self.resolves(
                    dependency_names(self.jobs@[i].1)[k]@,
                    (#[trigger] g.deps@[i]@[k]) as int,
                ),
    {
        let mut names: Vec<String> = Vec::new();
        let mut deps: Vec<Vec<usize>> = Vec::new();
        let mut i: usize = 0;
        while i < self.jobs.len()
            invariant
                i <= self.jobs@.len(),
                names@.len() == i,
                deps@.len() == i,
                forall|j: int| 0 <= j < i ==> (#[trigger] names@[j])@ == self.name_at(j),
                forall|j: int|
                    0 <= j < i ==> (#[trigger] deps@[j])@.len() == dependency_names(
                        self.jobs@[j].1,
                    ).len(),
                forall|j: int, k: int|
                    0 <= j < i && 0 <= k < dependency_names(self.jobs@[j].1).len()
                        ==> self.resolves(
                        dependency_names(self.jobs@[j].1)[k]@,
                        (#[trigger] deps@[j]@[k]) as int,
                    ),
            decreases self.jobs@.len() - i,
        {
            let job = &self.jobs[i].1;
            let mut resolved: Vec<usize> = Vec::new();
            match &job.depends_on {
                Some(list) => {
                    let mut k: usize = 0;
                    while k < list.len()
                        invariant
                            k <= list@.len(),
                            list@ == dependency_names(self.jobs@[i as int].1),
                            resolved@.len() == k,
                            forall|m: int|
                                0 <= m < k ==> self.resolves(
                                    list@[m]@,
                                    (#[trigger] resolved@[m]) as int,
                                ),
                        decreases list@.len() - k,
                    {
                        let d = self.position_of(&list[k]);
                        resolved.push(d);
                        k = k + 1;
                    }
                },
                None => {},
            }
            names.push(self.jobs[i].0.clone());
            deps.push(resolved);
            i = i + 1;
        }
        JobGraph { names, deps }
    }
}

impl JobGraph {
    /// One dependency list per job.
    pub open spec fn wf(&self) -> bool {
        self.names@.len() == self.deps@.len()
    }

    pub open spec fn len(&self) -> nat {
        self.names@.len()
    }

    pub open spec fn deps_of(&self, i: int) -> Seq<usize> {
        self.deps@[i]@
    }

    /// No dependency names a missing job, and the jobs can be ranked so that
    /// each depends only on jobs of lower rank: there is no cycle.
    pub open spec fn acyclic_with(&self, rank: Seq<nat>) -> bool {
        &&& rank.len() == self.len()
        &&& forall|i: int, k: int|
            0 <= i < self.len() && 0 <= k < self.deps_of(i).len() ==> {
                let d = #[trigger] self.deps_of(i)[k];
                d < self.len() && rank[d as int] < rank[i]
            }
    }
}

} // verus!
