use vstd::prelude::*;
use crate::backend::{views, Backend};
use crate::error::Result;
use crate::job::{
    default_queue_name, JobDefinition, JobDefinitionDebug, JobDefinitionView, JobId, QueueName,
    Timestamp,
};
use crate::manager::{
    first_named, handed_out, only_named, signalled, started, LoopState, Manager, Poller, Tick,
    DEFAULT_TICK_MS,
};
use crate::queue::{at_mark_step, full_step, stepped, Drained, DEFAULT_MAX_PENDING};

verus! {

/// What one processing step of the queue `default` did, whose buffer went
/// from `staged` to `staged2` while the backend went from `b` to `b2`.
pub open spec fn ran_default<B: Backend>(
    res: Result<Option<JobDefinition>>,
    staged: Seq<JobDefinitionView>,
    staged2: Seq<JobDefinitionView>,
    b: B,
    b2: B,
) -> bool {
    &&& res is Err ==> staged.len() < DEFAULT_MAX_PENDING
    &&& res matches Ok(None) ==> staged2.len() == 0
    &&& res matches Ok(Some(j)) ==> (staged.len() > 0 ==> j@ == staged[0])
    &&& at_mark_step(staged, staged2, DEFAULT_MAX_PENDING as nat, res)
    &&& b.models_contents() && b.serves_in_full() ==> full_step(
        staged,
        DEFAULT_MAX_PENDING as nat,
        b.pending(default_queue_name()),
        b2.pending(default_queue_name()),
        res,
    )
    &&& b.models_contents() ==> stepped(
        staged,
        staged2,
        DEFAULT_MAX_PENDING as nat,
        b.pending(default_queue_name()),
        b2.pending(default_queue_name()),
        res,
    )
}

/// The producer-facing façade: one backend, one manager and one poller.
pub struct Scheduler<B> {
    backend: B,
    poller: Poller,
    manager: Manager,
}

impl<B: Backend> Scheduler<B> {
    pub closed spec fn store(&self) -> B {
        self.backend
    }

    pub closed spec fn manager_control(&self) -> LoopState {
        self.manager.control()
    }

    pub closed spec fn poller_control(&self) -> LoopState {
        self.poller.control()
    }

    /// The interval between two ticks of the manager's loop, in milliseconds.
    pub closed spec fn manager_tick_ms(&self) -> u64 {
        self.manager.tick_ms()
    }

    /// The interval between two ticks of the poller's loop, in milliseconds.
    pub closed spec fn poller_tick_ms(&self) -> u64 {
        self.poller.tick_ms()
    }

    pub closed spec fn wf(&self) -> bool {
        &&& self.manager.wf()
        &&& self.manager.queues().len() == 1
        &&& self.manager.queues()[0].name_view() == default_queue_name()
        &&& self.manager.queues()[0].limit() == DEFAULT_MAX_PENDING
    }

    /// The manager's queues: a well-formed scheduler has the one queue
    /// `default`, refilling to `DEFAULT_MAX_PENDING` jobs.
    pub closed spec fn manager_queues(&self) -> Seq<crate::queue::Queue> {
        self.manager.queues()
    }

    /// The jobs staged in the buffer of the queue `default`, oldest first.
    pub closed spec fn staged(&self) -> Seq<JobDefinitionView> {
        self.manager.queues()[0].buffer()
    }

    /// A scheduler over `backend` whose loops are both idle.
    pub fn new(backend: B) -> (r: Result<Self>)
        ensures
            r matches Ok(s) && s.wf() && s.store() == backend && s.staged().len() == 0
                && s.manager_tick_ms() == DEFAULT_TICK_MS && s.poller_tick_ms() == DEFAULT_TICK_MS
                && s.manager_queues().len() == 1 && s.manager_queues()[0].name_view()
                == default_queue_name() && s.manager_queues()[0].limit() == DEFAULT_MAX_PENDING
                && s.manager_control() == (LoopState {
                running: false,
                stop_requested: false,
            }) && s.poller_control() == (LoopState { running: false, stop_requested: false }),
    {
        let poller = Poller::new(DEFAULT_TICK_MS);
        let manager = Manager::new(DEFAULT_TICK_MS);
        Ok(Scheduler { backend, poller, manager })
    }

    pub fn backend(&self) -> (r: &B)
        ensures
            *r == self.store(),
    {
        &self.backend
    }

    pub fn manager(&self) -> (r: &Manager)
        ensures
            r.control() == self.manager_control(),
            r.tick_ms() == self.manager_tick_ms(),
            r.queues() == self.manager_queues(),
    {
        &self.manager
    }

    pub fn poller(&self) -> (r: &Poller)
        ensures
            r.control() == self.poller_control(),
            r.tick_ms() == self.poller_tick_ms(),
    {
        &self.poller
    }

    /// Starts the manager's loop, then the poller's; a loop that already runs
    /// is left alone. Returns whether each of the two is to be spawned.
    pub fn start(&mut self) -> (r: (bool, bool))
        requires
            old(self).wf(),
        ensures
            final(self).wf(),
            final(self).store() == old(self).store(),
            final(self).staged() == old(self).staged(),
            final(self).manager_control() == started(old(self).manager_control()),
            final(self).poller_control() == started(old(self).poller_control()),
            r.0 == !old(self).manager_control().running,
            r.1 == !old(self).poller_control().running,
    {
        let m = self.manager.start();
        let p = self.poller.start();
        (m, p)
    }

    /// Stops the poller, then drains the manager's queues; what each queue
    /// handed out is returned, in configuration order.
    pub fn drain(&mut self, from_backend: bool) -> (r: Vec<Drained>)
        requires
            old(self).wf(),
        ensures
            final(self).wf(),
            final(self).staged().len() == 0,
            r@.len() == 1,
            handed_out(old(self).staged(), r@[0], from_backend),
            !from_backend ==> final(self).store() == old(self).store(),
            old(self).store().models_contents() && old(self).store().serves_in_full()
                && from_backend ==> {
                &&& views(r@[0].jobs@) == old(self).staged() + old(self).store().pending(
                    default_queue_name(),
                )
                &&& final(self).store().pending(default_queue_name()).len() == 0
            },
            final(self).manager_control() == signalled(old(self).manager_control()),
            final(self).poller_control() == signalled(old(self).poller_control()),
    {
        self.poller.stop();
        let r = self.manager.drain(&mut self.backend, from_backend);
        proof {
            assert(first_named(old(self).manager.queues(), 0));
            assert(self.manager.queues()[0].name_view() == default_queue_name());
            assert(self.manager.queues()[0].buffer() == Seq::<JobDefinitionView>::empty());
        }
        r
    }

    /// One iteration of the manager's loop.
    pub fn tick(&mut self) -> (r: Tick)
        requires
            old(self).wf(),
        ensures
            final(self).wf(),
            final(self).poller_control() == old(self).poller_control(),
            old(self).manager_control().stop_requested ==> r is Stopped && final(self).store()
                == old(self).store() && final(self).staged() == old(self).staged(),
            !old(self).manager_control().stop_requested ==> (r matches Tick::Ran(v) && v@.len()
                == 1 && ran_default(
                v@[0],
                old(self).staged(),
                final(self).staged(),
                old(self).store(),
                final(self).store(),
            )),
    {
        let r = self.manager.tick(&mut self.backend);
        proof {
            assert(self.manager.queues()[0].name_view() == default_queue_name());
            assert(only_named(old(self).manager.queues(), 0));
        }
        r
    }

    /// One iteration of the poller's loop: whether a tick is announced.
    pub fn poll(&mut self) -> (r: bool)
        ensures
            final(self).wf() == old(self).wf(),
            final(self).store() == old(self).store(),
            final(self).staged() == old(self).staged(),
            final(self).manager_control() == old(self).manager_control(),
            r == !old(self).poller_control().stop_requested,
    {
        self.poller.tick()
    }

    /// Submits a job to the queue `default` and returns its new identifier at
    /// once; the job runs later. A backend failure is returned as is.
    pub fn schedule(&mut self, job_name: String, payload: Vec<u8>, debug: JobDefinitionDebug) -> (r:
        Result<JobId>)
        requires
            old(self).wf(),
        ensures
            final(self).wf(),
            final(self).staged() == old(self).staged(),
            final(self).manager_control() == old(self).manager_control(),
            final(self).poller_control() == old(self).poller_control(),
            final(self).store().models_contents() == old(self).store().models_contents(),
            final(self).store().serves_in_full() == old(self).store().serves_in_full(),
            old(self).store().serves_in_full() ==> r is Ok,
            old(self).store().models_contents() ==> forall|q: Seq<char>|
                q != default_queue_name() ==> #[trigger] final(self).store().pending(q) == old(
                    self,
                ).store().pending(q),
            old(self).store().models_contents() ==> (r matches Ok(id) ==> {
                let before = old(self).store().pending(default_queue_name());
                let after = final(self).store().pending(default_queue_name());
                &&& after.len() == before.len() + 1
                &&& after.drop_last() == before
                &&& after.last().id == id@
                &&& after.last().job_name == job_name@
                &&& after.last().payload == payload@
                &&& after.last().queue == default_queue_name()
            }),
    {
        let queue = QueueName::default_queue();
        let def = JobDefinition::new(job_name, payload, queue.duplicate(), Timestamp::now(), debug);
        let id = def.id().duplicate();
        let ghost v = def@;
        match self.backend.schedule(&queue, def) {
            Ok(()) => {
                proof {
                    if old(self).store().models_contents() {
                        let before = old(self).store().pending(default_queue_name());
                        assert(self.backend.pending(default_queue_name()).drop_last() =~= before);
                    }
                }
                Ok(id)
            },
            Err(e) => Err(e),
        }
    }
}

} // verus!
