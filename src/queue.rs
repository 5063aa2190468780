use vstd::prelude::*;
use crate::backend::{batch_len, views, Backend};
use crate::error::{Error, Result};
use crate::job::{JobDefinition, JobDefinitionView, QueueName};
use std::collections::VecDeque;

verus! {

/// Buffer size below which a queue refills itself from the backend, and the
/// size it refills to.
pub const DEFAULT_MAX_PENDING: usize = 3;

/// Number of jobs asked of the backend per pull while draining.
pub const DRAIN_BATCH: usize = 100;

/// What one processing step did, when it succeeded, to a queue whose buffer
/// went from `buffer` to `buffer2` with refill target `limit`, while the
/// backend's list for the queue went from `before` to `after`: it took the `k`
/// oldest pending jobs (none when the buffer was at its target, and no more
/// than reach it), and handed out the front of what was then staged.
pub open spec fn stepped(
    buffer: Seq<JobDefinitionView>,
    buffer2: Seq<JobDefinitionView>,
    limit: nat,
    before: Seq<JobDefinitionView>,
    after: Seq<JobDefinitionView>,
    r: Result<Option<JobDefinition>>,
) -> bool {
    r matches Ok(o) ==> {
        let k = before.len() - after.len();
        let staged = buffer + before.take(k);
        &&& 0 <= k
        &&& after == before.skip(k)
        &&& buffer.len() >= limit ==> k == 0
        &&& staged.len() <= limit
        &&& match o {
            None => staged.len() == 0 && buffer2 == staged,
            Some(j) => staged.len() > 0 && j@ == staged[0] && buffer2 == staged.drop_first(),
        }
    }
}

/// What a processing step does to a queue whose buffer is at its refill
/// target `limit`: it pulls nothing and hands out the front job.
pub open spec fn at_mark_step(
    buffer: Seq<JobDefinitionView>,
    buffer2: Seq<JobDefinitionView>,
    limit: nat,
    r: Result<Option<JobDefinition>>,
) -> bool {
    buffer.len() >= limit ==> (r matches Ok(Some(j)) && j@ == buffer[0] && buffer2
        == buffer.drop_first())
}

/// What a processing step does against a backend that serves in full: it
/// succeeds, and below the refill target it takes as many of the `before`
/// pending jobs as reach the target, or all of them when fewer are pending.
pub open spec fn full_step(
    buffer: Seq<JobDefinitionView>,
    limit: nat,
    before: Seq<JobDefinitionView>,
    after: Seq<JobDefinitionView>,
    r: Result<Option<JobDefinition>>,
) -> bool {
    &&& r is Ok
    &&& buffer.len() < limit ==> before.len() - after.len() == batch_len(
        before.len(),
        (limit - buffer.len()) as usize,
    )
}

/// One named queue's in-memory staging buffer, oldest job at the front.
pub struct Queue {
    name: QueueName,
    jobs: VecDeque<JobDefinition>,
    max_pending: usize,
}

impl Queue {
    /// The queue's name.
    pub closed spec fn name_view(&self) -> Seq<char> {
        self.name@
    }

    /// The staged jobs, oldest first.
    pub closed spec fn buffer(&self) -> Seq<JobDefinitionView> {
        views(self.jobs@)
    }

    /// The low-water mark and refill target.
    pub closed spec fn limit(&self) -> nat {
        self.max_pending as nat
    }

    /// The buffer never holds more than the refill target.
    pub open spec fn wf(&self) -> bool {
        &&& 0 < self.limit()
        &&& self.buffer().len() <= self.limit()
    }

    /// An empty queue with the default refill target.
    pub fn new(name: QueueName) -> (r: Self)
        ensures
            r.wf(),
            r.name_view() == name@,
            r.buffer() == Seq::<JobDefinitionView>::empty(),
            r.limit() == DEFAULT_MAX_PENDING,
    {
        Queue::with_max_pending(name, DEFAULT_MAX_PENDING)
    }

    /// An empty queue that refills to `max_pending` jobs.
    pub fn with_max_pending(name: QueueName, max_pending: usize) -> (r: Self)
        requires
            max_pending > 0,
        ensures
            r.wf(),
            r.name_view() == name@,
            r.buffer() == Seq::<JobDefinitionView>::empty(),
            r.limit() == max_pending,
    {
        let r = Queue { name, jobs: VecDeque::new(), max_pending };
        proof {
            assert(r.buffer() =~= Seq::<JobDefinitionView>::empty());
        }
        r
    }

    pub fn name(&self) -> (r: &QueueName)
        ensures
            r@ == self.name_view(),
    {
        &self.name
    }

    pub fn len(&self) -> (r: usize)
        ensures
            r == self.buffer().len(),
    {
        self.jobs.len()
    }

    /// One scheduling step: refill from the backend when the buffer is below
    /// the low-water mark, asking for enough jobs to reach it, then hand out
    /// the front job. A failed refill hands out nothing.
    pub fn process<B: Backend>(&mut self, backend: &mut B) -> (r: Result<Option<JobDefinition>>)
        requires
            old(self).wf(),
        ensures
            final(self).wf(),
            final(self).name_view() == old(self).name_view(),
            final(self).limit() == old(self).limit(),
            final(backend).models_contents() == old(backend).models_contents(),
            old(backend).models_contents() ==> forall|q: Seq<char>|
                q != old(self).name_view() ==> #[trigger] final(backend).pending(q) == old(
                    backend,
                ).pending(q),
            r is Err ==> old(self).buffer().len() < old(self).limit(),
            r is Err ==> final(self).buffer() == old(self).buffer(),
            final(backend).serves_in_full() == old(backend).serves_in_full(),
            at_mark_step(old(self).buffer(), final(self).buffer(), old(self).limit(), r),
            old(self).buffer().len() >= old(self).limit() ==> *final(backend) == *old(backend),
            old(backend).models_contents() && old(backend).serves_in_full() ==> full_step(
                old(self).buffer(),
                old(self).limit(),
                old(backend).pending(old(self).name_view()),
                final(backend).pending(old(self).name_view()),
                r,
            ),
            r matches Ok(None) ==> old(self).buffer().len() == 0 && final(self).buffer().len()
                == 0,
            r matches Ok(Some(j)) ==> (old(self).buffer().len() > 0 ==> j@ == old(
                self,
            ).buffer()[0]),
            old(backend).models_contents() ==> stepped(
                old(self).buffer(),
                final(self).buffer(),
                old(self).limit(),
                old(backend).pending(old(self).name_view()),
                final(backend).pending(old(self).name_view()),
                r,
            ),
    {
        let ghost before = backend.pending(self.name@);
        let ghost b0 = self.buffer();
        let len = self.jobs.len();
        if len < self.max_pending {
            let pulled = self.pull(backend, self.max_pending - len);
            if let Err(e) = pulled {
                return Err(e);
            }
        } else {
            proof {
                assert(before.skip(0) =~= before);
                assert(b0 + before.take(0) =~= b0);
            }
        }
        let ghost staged = self.buffer();
        let next = self.run_next_job();
        proof {
            if backend.models_contents() {
                let k = before.len() - backend.pending(self.name@).len();
                assert(staged == b0 + before.take(k));
            }
        }
        Ok(next)
    }

    /// Removes the front job, if any, and returns it to be run.
    pub fn run_next_job(&mut self) -> (r: Option<JobDefinition>)
        ensures
            final(self).name_view() == old(self).name_view(),
            final(self).limit() == old(self).limit(),
            match r {
                None => old(self).buffer().len() == 0 && final(self).buffer() == old(self).buffer(),
                Some(j) => old(self).buffer().len() > 0 && j@ == old(self).buffer()[0]
                    && final(self).buffer() == old(self).buffer().drop_first(),
            },
    {
        let ghost before = self.jobs@;
        let r = self.jobs.pop_front();
        proof {
            if r is Some {
                assert(views(self.jobs@) =~= views(before).drop_first());
            }
        }
        r
    }

    /// Moves up to `count` jobs from the backend to the back of the buffer and
    /// returns how many came.
    pub fn pull<B: Backend>(&mut self, backend: &mut B, count: usize) -> (r: Result<usize>)
        requires
            count > 0,
        ensures
            final(self).name_view() == old(self).name_view(),
            final(self).limit() == old(self).limit(),
            final(backend).models_contents() == old(backend).models_contents(),
            final(backend).serves_in_full() == old(backend).serves_in_full(),
            old(backend).models_contents() ==> forall|q: Seq<char>|
                q != old(self).name_view() ==> #[trigger] final(backend).pending(q) == old(
                    backend,
                ).pending(q),
            r is Err ==> final(self).buffer() == old(self).buffer(),
            r matches Ok(k) ==> {
                &&& k <= count
                &&& final(self).buffer().len() == old(self).buffer().len() + k
                &&& final(self).buffer().take(old(self).buffer().len() as int) == old(
                    self,
                ).buffer()
            },
            old(backend).models_contents() && old(backend).serves_in_full() ==> (r matches Ok(k)
                && k == batch_len(old(backend).pending(old(self).name_view()).len(), count)),
            old(backend).models_contents() ==> (r is Err ==> {
                let before = old(backend).pending(old(self).name_view());
                let after = final(backend).pending(old(self).name_view());
                let k = before.len() - after.len();
                &&& 0 <= k
                &&& after == before.skip(k)
            }),
            old(backend).models_contents() ==> (r matches Ok(k) ==> {
                let before = old(backend).pending(old(self).name_view());
                &&& k <= before.len()
                &&& final(backend).pending(old(self).name_view()) == before.skip(k as int)
                &&& final(self).buffer() == old(self).buffer() + before.take(k as int)
            }),
    {
        let pulled = backend.pull(&self.name, count);
        match pulled {
            Err(e) => Err(e),
            Ok(defs) => {
                let n = defs.len();
                let ghost start = self.jobs@;
                let mut i: usize = 0;
                let mut defs = defs;
                let ghost all = defs@;
                while i < n
                    invariant
                        i <= n,
                        n == all.len(),
                        defs@.len() == n - i,
                        defs@ == all.skip(i as int),
                        self.jobs@ == start + all.take(i as int),
                        self.name@ == old(self).name@,
                        self.max_pending == old(self).max_pending,
                    decreases n - i,
                {
                    let d = defs.remove(0);
                    self.jobs.push_back(d);
                    proof {
                        assert(all.take(i + 1) =~= all.take(i as int).push(all[i as int]));
                        assert(defs@ =~= all.skip(i + 1));
                    }
                    i = i + 1;
                }
                proof {
                    assert(all.take(n as int) =~= all);
                    assert(views(self.jobs@) =~= views(start) + views(all));
                    assert(views(self.jobs@).take(start.len() as int) =~= views(start));
                }
                Ok(n)
            },
        }
    }

    /// Flushes the queue: when `from_backend` holds, pulls from the backend in
    /// batches until a pull brings nothing or fails, then hands out every staged
    /// job, oldest first. A failed pull ends the pulling and is reported back.
    /// Against a store outside this process, which others may keep filling,
    /// the pulling also ends after `u64::MAX` batches.
    pub fn drain<B: Backend>(&mut self, backend: &mut B, from_backend: bool) -> (r: Drained)
        requires
            old(self).wf(),
        ensures
            final(self).wf(),
            final(self).name_view() == old(self).name_view(),
            final(self).limit() == old(self).limit(),
            final(self).buffer() == Seq::<JobDefinitionView>::empty(),
            final(backend).models_contents() == old(backend).models_contents(),
            final(backend).serves_in_full() == old(backend).serves_in_full(),
            r.pull_error is Some ==> from_backend,
            r.jobs@.len() >= old(self).buffer().len(),
            views(r.jobs@).take(old(self).buffer().len() as int) == old(self).buffer(),
            !from_backend ==> views(r.jobs@) == old(self).buffer() && *final(backend) == *old(
                backend,
            ),
            old(backend).models_contents() ==> forall|q: Seq<char>|
                q != old(self).name_view() ==> #[trigger] final(backend).pending(q) == old(
                    backend,
                ).pending(q),
            old(backend).models_contents() ==> ({
                let before = old(backend).pending(old(self).name_view());
                let after = final(backend).pending(old(self).name_view());
                let k = before.len() - after.len();
                let m = r.jobs@.len() - old(self).buffer().len();
                &&& 0 <= m <= k
                &&& after == before.skip(k)
                &&& views(r.jobs@) == old(self).buffer() + before.take(m)
                &&& r.pull_error is None ==> m == k
            }),
            old(backend).models_contents() && old(backend).serves_in_full() && from_backend ==> (
            r.pull_error is None && final(backend).pending(old(self).name_view()).len() == 0),
    {
        let ghost q = self.name@;
        let ghost before = backend.pending(q);
        let ghost b0 = self.buffer();
        let ghost modelled = backend.models_contents();
        let mut pull_error: Option<Error> = None;
        if from_backend {
            let local = backend.is_modelled();
            let mut rounds: u64 = 0;
            loop
                invariant_except_break
                    pull_error is None,
                    modelled ==> self.buffer() == b0 + before.take(
                        before.len() - backend.pending(q).len(),
                    ),
                invariant
                    local == modelled,
                    modelled == backend.models_contents(),
                    backend.serves_in_full() == old(backend).serves_in_full(),
                    self.name@ == q,
                    self.max_pending == old(self).max_pending,
                    self.buffer().len() >= b0.len(),
                    self.buffer().take(b0.len() as int) == b0,
                    modelled ==> before.len() >= backend.pending(q).len(),
                    modelled ==> backend.pending(q) == before.skip(
                        before.len() - backend.pending(q).len(),
                    ),
                    modelled ==> forall|q2: Seq<char>|
                        q2 != q ==> #[trigger] backend.pending(q2) == old(backend).pending(q2),
                ensures
                    modelled == backend.models_contents(),
                    backend.serves_in_full() == old(backend).serves_in_full(),
                    self.name@ == q,
                    self.max_pending == old(self).max_pending,
                    self.buffer().len() >= b0.len(),
                    self.buffer().take(b0.len() as int) == b0,
                    modelled ==> before.len() >= backend.pending(q).len(),
                    modelled ==> backend.pending(q) == before.skip(
                        before.len() - backend.pending(q).len(),
                    ),
                    modelled ==> forall|q2: Seq<char>|
                        q2 != q ==> #[trigger] backend.pending(q2) == old(backend).pending(q2),
                    modelled ==> self.buffer().len() - b0.len() <= before.len() - backend.pending(
                        q,
                    ).len(),
                    modelled ==> self.buffer() == b0 + before.take(self.buffer().len() - b0.len()),
                    modelled && pull_error is None ==> self.buffer() == b0 + before.take(
                        before.len() - backend.pending(q).len(),
                    ),
                    modelled && backend.serves_in_full() ==> pull_error is None
                        && backend.pending(q).len() == 0,
                decreases
                    if modelled {
                        backend.pending(q).len() as int
                    } else {
                        u64::MAX - rounds
                    },
            {
                if !local && rounds == u64::MAX {
                    break;
                }
                let ghost p0 = backend.pending(q);
                let ghost j = before.len() - p0.len();
                let ghost buf0 = self.buffer();
                match self.pull(backend, DRAIN_BATCH) {
                    Err(e) => {
                        proof {
                            if modelled {
                                let p1 = backend.pending(q);
                                assert(before.skip(j).skip(p0.len() - p1.len()) =~= before.skip(
                                    j + p0.len() - p1.len(),
                                ));
                                assert(b0 + before.take(j) == b0 + before.take(
                                    self.buffer().len() - b0.len(),
                                ));
                            }
                        }
                        pull_error = Some(e);
                        break;
                    },
                    Ok(size) => {
                        proof {
                            assert(self.buffer().take(b0.len() as int) =~= buf0.take(
                                b0.len() as int,
                            ));
                            if modelled {
                                assert(before.skip(j).skip(size as int) =~= before.skip(j + size));
                                assert(before.take(j) + p0.take(size as int) =~= before.take(
                                    j + size,
                                ));
                            }
                        }
                        if size == 0 {
                            break;
                        }
                    },
                }
                if rounds < u64::MAX {
                    rounds = rounds + 1;
                }
            }
        }
        let mut jobs: Vec<JobDefinition> = Vec::new();
        let ghost staged = self.buffer();
        while self.jobs.len() > 0
            invariant
                views(jobs@) + self.buffer() == staged,
                self.name@ == q,
                self.max_pending == old(self).max_pending,
            decreases self.jobs@.len(),
        {
            let ghost b = self.buffer();
            match self.run_next_job() {
                Some(j) => {
                    jobs.push(j);
                    proof {
                        assert(views(jobs@) =~= views(jobs@.drop_last()).push(j@));
                        assert(b =~= seq![j@] + b.drop_first());
                    }
                },
                None => {},
            }
        }
        proof {
            assert(views(jobs@) =~= staged);
            assert(self.buffer() =~= Seq::<JobDefinitionView>::empty());
            if !from_backend {
                assert(staged =~= b0);
            }
        }
        Drained { jobs, pull_error }
    }
}

/// Jobs of one queue are handed out in the order they were scheduled. Let
/// `states` be the queue's pending lists across `jobs.len()` schedule calls
/// (each appends its job, as `Backend::schedule` ensures), starting from
/// `states[0]`; and let a drain that took `m` jobs from the last of them and
/// left none hand out `drained` after the `staged` ones (as `Queue::drain`
/// ensures of a backend that serves in full). Then `drained` ends with exactly
/// `jobs`, in order.
pub proof fn fifo_within_queue(
    states: Seq<Seq<JobDefinitionView>>,
    jobs: Seq<JobDefinitionView>,
    staged: Seq<JobDefinitionView>,
    drained: Seq<JobDefinitionView>,
    m: int,
)
    requires
        states.len() == jobs.len() + 1,
        forall|i: int| 0 <= i < jobs.len() ==> #[trigger] states[i + 1] == states[i].push(jobs[i]),
        0 <= m <= states.last().len(),
        states.last().skip(m).len() == 0,
        drained == staged + states.last().take(m),
    ensures
        drained.len() == staged.len() + states[0].len() + jobs.len(),
        drained.skip((staged.len() + states[0].len()) as int) == jobs,
{
    if jobs.len() > 0 {
        lemma_appended(states, jobs, jobs.len() as int);
        assert(jobs.take(jobs.len() as int) =~= jobs);
        assert(states.last().take(m) =~= states.last());
        assert(drained.skip((staged.len() + states[0].len()) as int) =~= jobs);
    } else {
        assert(states.last().take(m) =~= states.last());
        assert(drained.skip((staged.len() + states[0].len()) as int) =~= jobs);
    }
}

proof fn lemma_appended(states: Seq<Seq<JobDefinitionView>>, jobs: Seq<JobDefinitionView>, i: int)
    requires
        states.len() == jobs.len() + 1,
        forall|k: int| 0 <= k < jobs.len() ==> #[trigger] states[k + 1] == states[k].push(jobs[k]),
        0 <= i <= jobs.len(),
    ensures
        states[i] == states[0] + jobs.take(i),
    decreases i,
{
    if i > 0 {
        lemma_appended(states, jobs, i - 1);
        assert(states[i] == states[i - 1].push(jobs[i - 1]));
        assert(states[0] + jobs.take(i) =~= (states[0] + jobs.take(i - 1)).push(jobs[i - 1]));
    } else {
        assert(states[0] + jobs.take(0) =~= states[0]);
    }
}

/// What a drain handed out, and the pull failure that ended it early, if any.
pub struct Drained {
    pub jobs: Vec<JobDefinition>,
    pub pull_error: Option<Error>,
}

} // verus!
