use vstd::prelude::*;
use crate::backend::{views, Backend};
use crate::error::Result;
use crate::job::{JobDefinition, JobDefinitionView, QueueName};
use crate::queue::{at_mark_step, full_step, stepped, Drained, Queue};

verus! {

/// Interval between two ticks of a periodic loop, in milliseconds.
pub const DEFAULT_TICK_MS: u64 = 1000;

/// The control state of a periodic loop.
pub struct LoopState {
    /// A loop task is active.
    pub running: bool,
    /// A stop signal waits to be seen at the top of the next iteration.
    pub stop_requested: bool,
}

/// The state after a start: an idle loop becomes active with no stop pending;
/// an active one is left as it is.
pub open spec fn started(s: LoopState) -> LoopState {
    if s.running {
        s
    } else {
        LoopState { running: true, stop_requested: false }
    }
}

/// The state after a stop signal: an active loop gets a pending stop.
pub open spec fn signalled(s: LoopState) -> LoopState {
    if s.running {
        LoopState { running: true, stop_requested: true }
    } else {
        s
    }
}

/// Starting twice in succession leaves the same single active loop as
/// starting once.
pub proof fn start_is_idempotent(s: LoopState)
    ensures
        started(started(s)) == started(s),
        started(s).running,
{
}

/// What one iteration of a loop did: it saw the stop signal and ended, or it
/// ticked and processed each queue, in configuration order.
pub enum Tick {
    Stopped,
    Ran(Vec<Result<Option<JobDefinition>>>),
}

/// Owns the queues and the control state of the loop that drives them.
pub struct Manager {
    queues: Vec<Queue>,
    running: bool,
    stop_requested: bool,
    tick_ms: u64,
}

impl Manager {
    pub closed spec fn control(&self) -> LoopState {
        LoopState { running: self.running, stop_requested: self.stop_requested }
    }

    pub closed spec fn queues(&self) -> Seq<Queue> {
        self.queues@
    }

    pub open spec fn wf(&self) -> bool {
        forall|i: int| 0 <= i < self.queues().len() ==> #[trigger] self.queues()[i].wf()
    }

    /// An idle manager with the single queue `default`.
    pub fn new(tick_ms: u64) -> (r: Self)
        ensures
            r.wf(),
            r.control() == (LoopState { running: false, stop_requested: false }),
            r.queues().len() == 1,
            r.queues()[0].name_view() == crate::job::default_queue_name(),
            r.queues()[0].buffer() == Seq::<JobDefinitionView>::empty(),
            r.queues()[0].limit() == crate::queue::DEFAULT_MAX_PENDING,
            r.tick_ms() == tick_ms,
    {
        let mut queues: Vec<Queue> = Vec::new();
        queues.push(Queue::new(QueueName::default_queue()));
        Manager { queues, running: false, stop_requested: false, tick_ms }
    }

    pub closed spec fn tick_ms(&self) -> u64 {
        self.tick_ms
    }

    /// The interval between two ticks, in milliseconds.
    pub fn interval_ms(&self) -> (r: u64)
        ensures
            r == self.tick_ms(),
    {
        self.tick_ms
    }

    pub fn is_running(&self) -> (r: bool)
        ensures
            r == self.control().running,
    {
        self.running
    }

    /// Marks the loop active; returns whether a new loop is to be spawned
    /// (false when one already runs, which is then left alone).
    pub fn start(&mut self) -> (r: bool)
        ensures
            final(self).control() == started(old(self).control()),
            r == !old(self).control().running,
            final(self).queues() == old(self).queues(),
            final(self).tick_ms() == old(self).tick_ms(),
    {
        if self.running {
            return false;
        }
        self.running = true;
        self.stop_requested = false;
        true
    }

    /// One iteration of the loop. A pending stop is seen first and ends the
    /// loop without touching the queues; otherwise every queue takes one
    /// processing step, in order, and the result of each is returned.
    pub fn tick<B: Backend>(&mut self, backend: &mut B) -> (r: Tick)
        requires
            old(self).wf(),
        ensures
            final(self).wf(),
            final(self).tick_ms() == old(self).tick_ms(),
            final(self).queues().len() == old(self).queues().len(),
            forall|i: int|
                0 <= i < old(self).queues().len() ==> {
                    &&& #[trigger] final(self).queues()[i].name_view() == old(
                        self,
                    ).queues()[i].name_view()
                    &&& final(self).queues()[i].limit() == old(self).queues()[i].limit()
                },
            old(self).control().stop_requested ==> {
                &&& r is Stopped
                &&& final(self).control() == (LoopState { running: false, stop_requested: false })
                &&& final(self).queues() == old(self).queues()
                &&& *final(backend) == *old(backend)
            },
            !old(self).control().stop_requested ==> {
                &&& final(self).control() == old(self).control()
                &&& r matches Tick::Ran(v) && v@.len() == old(self).queues().len() && forall|
                    i: int,
                |
                    0 <= i < v@.len() ==> {
                        &&& (#[trigger] v@[i]) is Err ==> old(self).queues()[i].buffer().len()
                            < old(self).queues()[i].limit()
                        &&& v@[i] matches Ok(None) ==> final(self).queues()[i].buffer().len()
                            == 0
                        &&& v@[i] matches Ok(Some(j)) ==> (old(self).queues()[i].buffer().len() > 0
                            ==> j@ == old(self).queues()[i].buffer()[0])
                        &&& at_mark_step(
                            old(self).queues()[i].buffer(),
                            final(self).queues()[i].buffer(),
                            old(self).queues()[i].limit(),
                            v@[i],
                        )
                        &&& old(backend).models_contents() && old(backend).serves_in_full()
                            && only_named(old(self).queues(), i) ==> full_step(
                            old(self).queues()[i].buffer(),
                            old(self).queues()[i].limit(),
                            old(backend).pending(old(self).queues()[i].name_view()),
                            final(backend).pending(old(self).queues()[i].name_view()),
                            v@[i],
                        )
                        &&& old(backend).models_contents() && only_named(old(self).queues(), i)
                            ==> stepped(
                            old(self).queues()[i].buffer(),
                            final(self).queues()[i].buffer(),
                            old(self).queues()[i].limit(),
                            old(backend).pending(old(self).queues()[i].name_view()),
                            final(backend).pending(old(self).queues()[i].name_view()),
                            v@[i],
                        )
                    }
            },
    {
        if self.stop_requested {
            self.running = false;
            self.stop_requested = false;
            return Tick::Stopped;
        }
        let n = self.queues.len();
        let mut results: Vec<Result<Option<JobDefinition>>> = Vec::new();
        let mut i: usize = 0;
        while i < n
            invariant
                n == self.queues@.len(),
                n == old(self).queues@.len(),
                i <= n,
                results@.len() == i,
                self.running == old(self).running,
                self.stop_requested == old(self).stop_requested,
                self.tick_ms == old(self).tick_ms,
                forall|k: int| 0 <= k < n ==> #[trigger] self.queues@[k].wf(),
                forall|k: int|
                    0 <= k < n ==> {
                        &&& #[trigger] self.queues@[k].name_view() == old(
                            self,
                        ).queues@[k].name_view()
                        &&& self.queues@[k].limit() == old(self).queues@[k].limit()
                    },
                forall|k: int| i <= k < n ==> #[trigger] self.queues@[k] == old(self).queues@[k],
                forall|k: int|
                    0 <= k < i ==> {
                        &&& (#[trigger] results@[k]) is Err ==> old(self).queues@[k].buffer().len()
                            < old(self).queues@[k].limit()
                        &&& results@[k] matches Ok(None) ==> self.queues@[k].buffer().len() == 0
                        &&& results@[k] matches Ok(Some(j)) ==> (old(self).queues@[k].buffer().len()
                            > 0 ==> j@ == old(self).queues@[k].buffer()[0])
                        &&& at_mark_step(
                            old(self).queues@[k].buffer(),
                            self.queues@[k].buffer(),
                            old(self).queues@[k].limit(),
                            results@[k],
                        )
                        &&& old(backend).models_contents() && old(backend).serves_in_full()
                            && only_named(old(self).queues@, k) ==> full_step(
                            old(self).queues@[k].buffer(),
                            old(self).queues@[k].limit(),
                            old(backend).pending(old(self).queues@[k].name_view()),
                            backend.pending(old(self).queues@[k].name_view()),
                            results@[k],
                        )
                        &&& old(backend).models_contents() && only_named(old(self).queues@, k)
                            ==> stepped(
                            old(self).queues@[k].buffer(),
                            self.queues@[k].buffer(),
                            old(self).queues@[k].limit(),
                            old(backend).pending(old(self).queues@[k].name_view()),
                            backend.pending(old(self).queues@[k].name_view()),
                            results@[k],
                        )
                    },
                backend.models_contents() == old(backend).models_contents(),
                backend.serves_in_full() == old(backend).serves_in_full(),
                backend.models_contents() ==> forall|q: Seq<char>|
                    (forall|k: int| 0 <= k < i ==> old(self).queues@[k].name_view() != q)
                        ==> #[trigger] backend.pending(q) == old(backend).pending(q),
            decreases n - i,
        {
            let ghost b_before = *backend;
            let mut q = self.queues.remove(i);
            let res = q.process(backend);
            self.queues.insert(i, q);
            results.push(res);
            proof {
                if backend.models_contents() {
                    let nm = old(self).queues@[i as int].name_view();
                    assert forall|q2: Seq<char>|
                        (forall|k: int| 0 <= k < i + 1 ==> old(self).queues@[k].name_view() != q2)
                            implies #[trigger] backend.pending(q2) == old(backend).pending(q2) by {
                        assert(old(self).queues@[i as int].name_view() != q2);
                    }
                    assert forall|k: int|
                        0 <= k < i + 1 && only_named(old(self).queues@, k) && backend.serves_in_full()
                            implies full_step(
                            old(self).queues@[k].buffer(),
                            old(self).queues@[k].limit(),
                            old(backend).pending(old(self).queues@[k].name_view()),
                            backend.pending(old(self).queues@[k].name_view()),
                            #[trigger] results@[k],
                        ) by {
                        if k < i {
                            assert(old(self).queues@[i as int].name_view() != old(self).queues@[k].name_view());
                        } else {
                            assert(forall|k2: int| 0 <= k2 < i ==> old(self).queues@[k2].name_view() != nm);
                        }
                    }
                    assert forall|k: int|
                        0 <= k < i + 1 && only_named(old(self).queues@, k) implies stepped(
                            old(self).queues@[k].buffer(),
                            self.queues@[k].buffer(),
                            old(self).queues@[k].limit(),
                            old(backend).pending(old(self).queues@[k].name_view()),
                            backend.pending(old(self).queues@[k].name_view()),
                            #[trigger] results@[k],
                        ) by {
                        if k < i {
                            assert(old(self).queues@[i as int].name_view() != old(self).queues@[k].name_view());
                        } else {
                            assert(forall|k2: int| 0 <= k2 < i ==> old(self).queues@[k2].name_view() != nm);
                        }
                    }
                }
            }
            i = i + 1;
        }
        Tick::Ran(results)
    }

    /// Signals the loop to stop, then drains every queue in order, whether or
    /// not the loop has seen the signal yet; what each queue handed out is
    /// returned in the same order. The loop itself ends at its next tick.
    pub fn drain<B: Backend>(&mut self, backend: &mut B, from_backend: bool) -> (r: Vec<Drained>)
        requires
            old(self).wf(),
        ensures
            final(self).wf(),
            final(self).control() == signalled(old(self).control()),
            final(self).tick_ms() == old(self).tick_ms(),
            final(self).queues().len() == old(self).queues().len(),
            r@.len() == old(self).queues().len(),
            final(backend).models_contents() == old(backend).models_contents(),
            final(backend).serves_in_full() == old(backend).serves_in_full(),
            !from_backend ==> *final(backend) == *old(backend),
            forall|i: int|
                0 <= i < old(self).queues().len() ==> {
                    &&& #[trigger] final(self).queues()[i].name_view() == old(
                        self,
                    ).queues()[i].name_view()
                    &&& final(self).queues()[i].limit() == old(self).queues()[i].limit()
                    &&& final(self).queues()[i].buffer() == Seq::<JobDefinitionView>::empty()
                    &&& handed_out(old(self).queues()[i].buffer(), r@[i], from_backend)
                },
            old(backend).models_contents() && old(backend).serves_in_full() && from_backend ==> {
                &&& forall|i: int|
                    0 <= i < old(self).queues().len() ==> #[trigger] final(backend).pending(
                        old(self).queues()[i].name_view(),
                    ).len() == 0
                &&& forall|i: int|
                    0 <= i < old(self).queues().len() && first_named(old(self).queues(), i)
                        ==> #[trigger] views(r@[i].jobs@) == old(self).queues()[i].buffer() + old(
                        backend,
                    ).pending(old(self).queues()[i].name_view())
            },
    {
        if self.running {
            self.stop_requested = true;
        }
        let ghost full = backend.models_contents() && backend.serves_in_full() && from_backend;
        let n = self.queues.len();
        let mut out: Vec<Drained> = Vec::new();
        let mut i: usize = 0;
        while i < n
            invariant
                n == self.queues@.len(),
                n == old(self).queues@.len(),
                i <= n,
                out@.len() == i,
                full == (old(backend).models_contents() && old(backend).serves_in_full()
                    && from_backend),
                backend.models_contents() == old(backend).models_contents(),
                backend.serves_in_full() == old(backend).serves_in_full(),
                !from_backend ==> *backend == *old(backend),
                self.running == old(self).running,
                self.stop_requested == signalled(old(self).control()).stop_requested,
                self.tick_ms == old(self).tick_ms,
                forall|k: int| 0 <= k < n ==> #[trigger] self.queues@[k].wf(),
                forall|k: int|
                    0 <= k < n ==> {
                        &&& #[trigger] self.queues@[k].name_view() == old(
                            self,
                        ).queues@[k].name_view()
                        &&& self.queues@[k].limit() == old(self).queues@[k].limit()
                    },
                forall|k: int| i <= k < n ==> #[trigger] self.queues@[k] == old(self).queues@[k],
                forall|k: int|
                    0 <= k < i ==> {
                        &&& #[trigger] self.queues@[k].buffer() == Seq::<JobDefinitionView>::empty()
                        &&& handed_out(old(self).queues@[k].buffer(), out@[k], from_backend)
                    },
                full ==> forall|k: int|
                    0 <= k < i ==> #[trigger] backend.pending(old(self).queues@[k].name_view()).len()
                        == 0,
                full ==> forall|k: int|
                    0 <= k < i && first_named(old(self).queues@, k) ==> #[trigger] views(
                        out@[k].jobs@,
                    ) == old(self).queues@[k].buffer() + old(backend).pending(
                        old(self).queues@[k].name_view(),
                    ),
                full ==> forall|q: Seq<char>|
                    (forall|k: int| 0 <= k < i ==> old(self).queues@[k].name_view() != q)
                        ==> #[trigger] backend.pending(q) == old(backend).pending(q),
            decreases n - i,
        {
            let ghost b_before = *backend;
            let mut q = self.queues.remove(i);
            let d = q.drain(backend, from_backend);
            self.queues.insert(i, q);
            out.push(d);
            proof {
                let nm = old(self).queues@[i as int].name_view();
                if full {
                    assert(b_before.pending(nm).take(b_before.pending(nm).len() as int) =~= b_before.pending(nm));
                    assert forall|q2: Seq<char>|
                        (forall|k: int| 0 <= k < i + 1 ==> old(self).queues@[k].name_view() != q2)
                            implies #[trigger] backend.pending(q2) == old(backend).pending(q2) by {
                        assert(old(self).queues@[i as int].name_view() != q2);
                    }
                    assert forall|k: int| 0 <= k < i + 1 implies #[trigger] backend.pending(
                        old(self).queues@[k].name_view(),
                    ).len() == 0 by {
                        if old(self).queues@[k].name_view() != nm {
                            assert(b_before.pending(old(self).queues@[k].name_view()).len() == 0);
                        }
                    }
                    assert forall|k: int|
                        0 <= k < i + 1 && first_named(old(self).queues@, k) implies #[trigger] views(
                            out@[k].jobs@,
                        ) == old(self).queues@[k].buffer() + old(backend).pending(
                            old(self).queues@[k].name_view(),
                        ) by {
                        if k == i {
                            assert(forall|k2: int| 0 <= k2 < i ==> old(self).queues@[k2].name_view() != nm);
                        }
                    }
                }
            }
            i = i + 1;
        }
        proof {
            assert forall|k: int| 0 <= k < n implies {
                &&& #[trigger] self.queues@[k].name_view() == old(self).queues@[k].name_view()
                &&& self.queues@[k].limit() == old(self).queues@[k].limit()
                &&& self.queues@[k].buffer() == Seq::<JobDefinitionView>::empty()
                &&& handed_out(old(self).queues@[k].buffer(), out@[k], from_backend)
            } by {}
        }
        out
    }
}

/// Whether no other queue has the name of the queue at position `i`.
pub open spec fn only_named(queues: Seq<Queue>, i: int) -> bool {
    forall|k: int| 0 <= k < queues.len() && k != i ==> queues[k].name_view() != queues[i].name_view()
}

/// Whether no queue before position `i` has the name of the queue at `i`.
pub open spec fn first_named(queues: Seq<Queue>, i: int) -> bool {
    forall|k: int| 0 <= k < i ==> queues[k].name_view() != queues[i].name_view()
}

/// What a drain of a queue whose buffer held `staged` handed out: the staged
/// jobs first, then only what it pulled, which it pulled only when asked to.
pub open spec fn handed_out(staged: Seq<JobDefinitionView>, d: Drained, from_backend: bool) -> bool {
    &&& d.jobs@.len() >= staged.len()
    &&& views(d.jobs@).take(staged.len() as int) == staged
    &&& d.pull_error is Some ==> from_backend
    &&& !from_backend ==> views(d.jobs@) == staged
}

/// A standalone periodic loop that only announces each tick.
pub struct Poller {
    running: bool,
    stop_requested: bool,
    tick_ms: u64,
}

impl Poller {
    pub closed spec fn control(&self) -> LoopState {
        LoopState { running: self.running, stop_requested: self.stop_requested }
    }

    pub closed spec fn tick_ms(&self) -> u64 {
        self.tick_ms
    }

    /// An idle poller.
    pub fn new(tick_ms: u64) -> (r: Self)
        ensures
            r.control() == (LoopState { running: false, stop_requested: false }),
            r.tick_ms() == tick_ms,
    {
        Poller { running: false, stop_requested: false, tick_ms }
    }

    /// The interval between two ticks, in milliseconds.
    pub fn interval_ms(&self) -> (r: u64)
        ensures
            r == self.tick_ms(),
    {
        self.tick_ms
    }

    pub fn is_running(&self) -> (r: bool)
        ensures
            r == self.control().running,
    {
        self.running
    }

    /// Marks the loop active; returns whether a new loop is to be spawned.
    pub fn start(&mut self) -> (r: bool)
        ensures
            final(self).control() == started(old(self).control()),
            r == !old(self).control().running,
            final(self).tick_ms() == old(self).tick_ms(),
    {
        if self.running {
            return false;
        }
        self.running = true;
        self.stop_requested = false;
        true
    }

    /// Signals the loop to stop at its next iteration.
    pub fn stop(&mut self)
        ensures
            final(self).control() == signalled(old(self).control()),
            final(self).tick_ms() == old(self).tick_ms(),
    {
        if self.running {
            self.stop_requested = true;
        }
    }

    /// One iteration: returns whether a tick is announced; false when a
    /// pending stop ends the loop.
    pub fn tick(&mut self) -> (r: bool)
        ensures
            r == !old(self).control().stop_requested,
            r ==> final(self).control() == old(self).control(),
            !r ==> final(self).control() == (LoopState { running: false, stop_requested: false }),
            final(self).tick_ms() == old(self).tick_ms(),
    {
        if self.stop_requested {
            self.running = false;
            self.stop_requested = false;
            return false;
        }
        true
    }
}

} // verus!
