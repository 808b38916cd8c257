use vstd::prelude::*;
use vstd::multiset::Multiset;

verus! {

broadcast use vstd::seq_lib::group_to_multiset_ensures;

/// One gene block found on disk: the chromosome it belongs to, its file name, and the position
/// of its file among all files found (by which the caller keeps the block's data).
#[derive(Debug)]
pub struct GeneBlock {
    pub chromosome: usize,
    pub identifier: String,
    pub slot: usize,
}

/// The jobs of the files found, chromosome by chromosome: `(chromosome, file name)`.
pub open spec fn discovered_jobs(groups: Seq<Seq<String>>) -> Seq<(nat, String)>
    decreases groups.len(),
{
    if groups.len() == 0 {
        Seq::empty()
    } else {
        let c = (groups.len() - 1) as nat;
        discovered_jobs(groups.drop_last()) + groups.last().map_values(|g: String| (c, g))
    }
}

/// The views of the file lists of each chromosome.
pub open spec fn groups_view(groups: Seq<Vec<String>>) -> Seq<Seq<String>> {
    groups.map_values(|v: Vec<String>| v@)
}

/// `jobs` lists, in order, the files of `groups`, with their chromosome (the index of their
/// group) and their position in the whole list.
pub open spec fn jobs_follow(jobs: Seq<GeneBlock>, groups: Seq<Seq<String>>) -> bool {
    let d = discovered_jobs(groups);
    &&& jobs.len() == d.len()
    &&& forall|i: int|
        0 <= i < jobs.len() ==> {
            &&& #[trigger] jobs[i].chromosome == d[i].0
            &&& jobs[i].identifier == d[i].1
            &&& jobs[i].slot == i
        }
}

/// The job list of a scan: `groups[c]` holds the file names found for chromosome `c`.
pub fn collect_jobs(groups: &Vec<Vec<String>>) -> (r: Vec<GeneBlock>)
    ensures
        jobs_follow(r@, groups_view(groups@)),
{
    let mut out: Vec<GeneBlock> = Vec::new();
    let mut c: usize = 0;
    while c < groups.len()
        invariant
            c <= groups@.len(),
            jobs_follow(out@, groups_view(groups@.take(c as int))),
        decreases groups@.len() - c,
    {
        let group = &groups[c];
        let ghost before = out@;
        let ghost prev = groups_view(groups@.take(c as int));
        let ghost next = groups_view(groups@.take(c + 1));
        proof {
            assert(next.drop_last() =~= prev);
            assert(next.last() == group@);
        }
        let mut j: usize = 0;
        while j < group.len()
            invariant
                c < groups@.len(),
                group == &groups@[c as int],
                j <= group@.len(),
                before.len() == discovered_jobs(prev).len(),
                out@.len() == before.len() + j,
                jobs_follow(before, prev),
                forall|i: int| 0 <= i < before.len() ==> #[trigger] out@[i] == before[i],
                forall|k: int|
                    0 <= k < j ==> {
                        &&& #[trigger] out@[before.len() + k].chromosome == c
                        &&& out@[before.len() + k].identifier == group@[k]
                        &&& out@[before.len() + k].slot == before.len() + k
                    },
            decreases group@.len() - j,
        {
            let slot = out.len();
            out.push(GeneBlock { chromosome: c, identifier: group[j].clone(), slot });
            j = j + 1;
        }
        proof {
            let d = discovered_jobs(next);
            assert(d =~= discovered_jobs(prev) + group@.map_values(|g: String| (c as nat, g)));
            assert forall|i: int| 0 <= i < out@.len() implies {
                &&& #[trigger] out@[i].chromosome == d[i].0
                &&& out@[i].identifier == d[i].1
                &&& out@[i].slot == i
            } by {
                if i >= before.len() {
                    let k = i - before.len();
                    assert(out@[before.len() + k].chromosome == c);
                }
            }
        }
        c = c + 1;
    }
    assert(groups@.take(groups@.len() as int) =~= groups@);
    out
}

/// Number of workers for `jobs` jobs when `requested` were asked for: the request clamped to
/// `[1, jobs]`, and one worker when there is no job.
pub open spec fn effective_workers(requested: nat, jobs: nat) -> nat {
    if requested == 0 || jobs == 0 {
        1
    } else if requested > jobs {
        jobs
    } else {
        requested
    }
}

/// The number of workers to start for `jobs` jobs when `requested` were asked for.
pub fn worker_count_for(requested: usize, jobs: usize) -> (r: usize)
    ensures
        r == effective_workers(requested as nat, jobs as nat),
        r >= 1,
{
    if requested == 0 || jobs == 0 {
        1
    } else if requested > jobs {
        jobs
    } else {
        requested
    }
}

/// All the jobs that the workers of `taken` have received, together.
pub open spec fn received(taken: Seq<Seq<GeneBlock>>) -> Multiset<GeneBlock>
    decreases taken.len(),
{
    if taken.len() == 0 {
        Multiset::empty()
    } else {
        received(taken.drop_last()).add(taken.last().to_multiset())
    }
}

proof fn lemma_received_push(taken: Seq<Seq<GeneBlock>>, w: int, job: GeneBlock)
    requires
        0 <= w < taken.len(),
    ensures
        received(taken.update(w, taken[w].push(job))) =~= received(taken).insert(job),
    decreases taken.len(),
{
    let next = taken.update(w, taken[w].push(job));
    if w == taken.len() - 1 {
        assert(next.drop_last() =~= taken.drop_last());
    } else {
        assert(next.drop_last() =~= taken.drop_last().update(w, taken[w].push(job)));
        lemma_received_push(taken.drop_last(), w, job);
    }
}

proof fn lemma_received_nothing(n: nat)
    ensures
        received(Seq::new(n, |i: int| Seq::<GeneBlock>::empty())) =~= Multiset::empty(),
    decreases n,
{
    if n > 0 {
        let s = Seq::new(n, |i: int| Seq::<GeneBlock>::empty());
        assert(s.drop_last() =~= Seq::new((n - 1) as nat, |i: int| Seq::<GeneBlock>::empty()));
        lemma_received_nothing((n - 1) as nat);
    }
}

/// The shared job stack of a run and the record of which worker received which job.
///
/// Jobs leave the stack from its top, one at a time, each to one worker.
pub struct Scheduler {
    pending: Vec<GeneBlock>,
    workers: usize,
    taken: Ghost<Seq<Seq<GeneBlock>>>,
    discovered: Ghost<Multiset<GeneBlock>>,
}

impl Scheduler {
    /// The jobs not yet handed out, the top of the stack last.
    pub closed spec fn pending(&self) -> Seq<GeneBlock> {
        self.pending@
    }

    /// The number of workers.
    pub closed spec fn workers(&self) -> nat {
        self.workers as nat
    }

    /// For each worker, the jobs it received, in order.
    pub closed spec fn taken(&self) -> Seq<Seq<GeneBlock>> {
        self.taken@
    }

    /// The jobs the run started with.
    pub closed spec fn discovered(&self) -> Multiset<GeneBlock> {
        self.discovered@
    }

    /// Every job the run started with is either pending or received by exactly one worker.
    pub open spec fn wf(&self) -> bool {
        &&& self.workers() >= 1
        &&& self.taken().len() == self.workers()
        &&& self.pending().to_multiset().add(received(self.taken())) == self.discovered()
    }

    /// A run over `jobs` with the number of workers that `requested` gives.
    pub fn new(jobs: Vec<GeneBlock>, requested: usize) -> (r: Scheduler)
        ensures
            r.wf(),
            r.pending() == jobs@,
            r.workers() == effective_workers(requested as nat, jobs@.len()),
            forall|w: int| 0 <= w < r.workers() ==> #[trigger] r.taken()[w].len() == 0,
            r.discovered() == jobs@.to_multiset(),
    {
        let workers = worker_count_for(requested, jobs.len());
        let ghost taken = Seq::new(workers as nat, |i: int| Seq::<GeneBlock>::empty());
        proof {
            lemma_received_nothing(workers as nat);
            assert(jobs@.to_multiset().add(received(taken)) =~= jobs@.to_multiset());
        }
        let ghost discovered = jobs@.to_multiset();
        Scheduler { pending: jobs, workers, taken: Ghost(taken), discovered: Ghost(discovered) }
    }

    /// The number of workers.
    pub fn worker_count(&self) -> (r: usize)
        ensures
            r == self.workers(),
    {
        self.workers
    }

    /// The number of jobs not yet handed out.
    pub fn pending_count(&self) -> (r: usize)
        ensures
            r == self.pending().len(),
    {
        self.pending.len()
    }

    /// The next job for `worker`: the top of the stack, or `None` when the stack is empty, upon
    /// which the worker stops.
    pub fn next_job(&mut self, worker: usize) -> (r: Option<GeneBlock>)
        requires
            old(self).wf(),
            worker < old(self).workers(),
        ensures
            final(self).wf(),
            final(self).workers() == old(self).workers(),
            final(self).discovered() == old(self).discovered(),
            old(self).pending().len() == 0 ==> r is None && final(self).pending() == old(
                self,
            ).pending() && final(self).taken() == old(self).taken(),
            old(self).pending().len() > 0 ==> {
                let job = old(self).pending().last();
                &&& r == Some(job)
                &&& final(self).pending() == old(self).pending().drop_last()
                &&& final(self).taken() == old(self).taken().update(
                    worker as int,
                    old(self).taken()[worker as int].push(job),
                )
            },
    {
        let r = self.pending.pop();
        match r {
            Some(job) => {
                proof {
                    let old_pending = old(self).pending();
                    assert(old_pending =~= self.pending@.push(job));
                    lemma_received_push(self.taken@, worker as int, job);
                    let before = self.taken@;
                    self.taken@ = before.update(worker as int, before[worker as int].push(job));
                    assert(old_pending.to_multiset() =~= self.pending@.to_multiset().insert(job));
                    assert(self.pending@.to_multiset().add(received(self.taken@)) =~= old_pending.to_multiset().add(received(before)));
                }
                Some(job)
            },
            None => None,
        }
    }
}

/// Once the stack is empty, the workers together have received each job the run started with,
/// as often as it was found: whatever the number of workers and however the jobs fell to them.
pub proof fn lemma_drained_hands_out_all(s: &Scheduler)
    requires
        s.wf(),
        s.pending().len() == 0,
    ensures
        received(s.taken()) == s.discovered(),
{
    assert(s.pending().to_multiset() =~= Multiset::empty());
    assert(received(s.taken()) =~= s.discovered());
}

/// Two drained runs over the same jobs, found in any order and shared among any numbers of
/// workers, have handed out the same jobs.
pub proof fn lemma_drained_runs_agree(a: &Scheduler, b: &Scheduler)
    requires
        a.wf(),
        b.wf(),
        a.pending().len() == 0,
        b.pending().len() == 0,
        a.discovered() == b.discovered(),
    ensures
        received(a.taken()) == received(b.taken()),
{
    lemma_drained_hands_out_all(a);
    lemma_drained_hands_out_all(b);
}

} // verus!
