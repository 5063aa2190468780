use vstd::prelude::*;
use crate::error::Result;
use crate::job::{JobDefinition, JobDefinitionView, QueueName};
use std::collections::VecDeque;

verus! {

/// The views of a sequence of job definitions, in order.
pub open spec fn views(s: Seq<JobDefinition>) -> Seq<JobDefinitionView> {
    s.map_values(|j: JobDefinition| j@)
}

/// How many jobs a pull of `count` takes from `available` pending ones when
/// it is served in full.
pub open spec fn batch_len(available: nat, count: usize) -> int {
    if available < count {
        available as int
    } else {
        count as int
    }
}

/// A storage engine that holds, for each queue, an ordered list of pending jobs.
pub trait Backend {
    /// The jobs that the queue named `queue` holds, oldest first, where
    /// `models_contents` holds.
    spec fn pending(&self, queue: Seq<char>) -> Seq<JobDefinitionView>;

    /// Whether `pending` describes what the store holds. A store outside this
    /// process, which other clients may change at any time, has no such model.
    spec fn models_contents(&self) -> bool;

    /// Whether every schedule and every pull succeeds, and a pull returns as
    /// many jobs as are asked for, or all there are when fewer are pending.
    spec fn serves_in_full(&self) -> bool;

    /// Whether `pending` describes what the store holds.
    fn is_modelled(&self) -> (r: bool)
        ensures
            r == self.models_contents(),
    ;

    /// Appends `job_def` to the tail of the queue.
    fn schedule(&mut self, queue: &QueueName, job_def: JobDefinition) -> (r: Result<()>)
        ensures
            final(self).models_contents() == old(self).models_contents(),
            final(self).serves_in_full() == old(self).serves_in_full(),
            old(self).serves_in_full() ==> r is Ok,
            old(self).models_contents() && r is Ok ==> final(self).pending(queue@) == old(
                self,
            ).pending(queue@).push(job_def@),
            old(self).models_contents() ==> forall|q: Seq<char>|
                q != queue@ ==> #[trigger] final(self).pending(q) == old(self).pending(q),
    ;

    /// Removes up to `count` jobs from the head of the queue and returns them,
    /// oldest first. An empty queue gives an empty list. A failed pull may
    /// still have taken jobs from the head of the queue.
    fn pull(&mut self, queue: &QueueName, count: usize) -> (r: Result<Vec<JobDefinition>>)
        requires
            count > 0,
        ensures
            final(self).models_contents() == old(self).models_contents(),
            final(self).serves_in_full() == old(self).serves_in_full(),
            r matches Ok(v) ==> v.len() <= count,
            old(self).models_contents() ==> (r matches Ok(v) ==> {
                &&& v.len() <= old(self).pending(queue@).len()
                &&& views(v@) == old(self).pending(queue@).take(v.len() as int)
                &&& final(self).pending(queue@) == old(self).pending(queue@).skip(v.len() as int)
            }),
            old(self).models_contents() ==> (r is Err ==> {
                let k = old(self).pending(queue@).len() - final(self).pending(queue@).len();
                &&& 0 <= k
                &&& final(self).pending(queue@) == old(self).pending(queue@).skip(k)
            }),
            old(self).models_contents() ==> forall|q: Seq<char>|
                q != queue@ ==> #[trigger] final(self).pending(q) == old(self).pending(q),
            old(self).models_contents() && old(self).serves_in_full() ==> (r matches Ok(v)
                && v.len() == batch_len(old(self).pending(queue@).len(), count)),
    ;
}

/// Index of the last of the first `n` names that equals `q`, or -1.
pub open spec fn find_from(names: Seq<Seq<char>>, n: int, q: Seq<char>) -> int
    decreases n,
{
    if n <= 0 {
        -1
    } else if names[n - 1] == q {
        n - 1
    } else {
        find_from(names, n - 1, q)
    }
}

proof fn lemma_find_from_found(names: Seq<Seq<char>>, n: int, q: Seq<char>)
    requires
        0 <= n <= names.len(),
    ensures
        -1 <= find_from(names, n, q) < n,
        find_from(names, n, q) >= 0 ==> names[find_from(names, n, q)] == q,
    decreases n,
{
    if n > 0 && names[n - 1] != q {
        lemma_find_from_found(names, n - 1, q);
    }
}

proof fn lemma_find_from_prefix(a: Seq<Seq<char>>, b: Seq<Seq<char>>, n: int, q: Seq<char>)
    requires
        0 <= n <= a.len(),
        n <= b.len(),
        forall|i: int| 0 <= i < n ==> a[i] == b[i],
    ensures
        find_from(a, n, q) == find_from(b, n, q),
    decreases n,
{
    if n > 0 {
        lemma_find_from_prefix(a, b, n - 1, q);
    }
}

/// The buffer of one queue of a memory backend.
struct Entry {
    name: QueueName,
    jobs: VecDeque<JobDefinition>,
}

/// The names of the queues in order, as plain values.
spec fn entry_names(entries: Seq<Entry>) -> Seq<Seq<char>> {
    entries.map_values(|e: Entry| e.name@)
}

/// A volatile backend: for each queue, a double-ended buffer of jobs. No two
/// buffers belong to the same queue.
pub struct MemoryBackend {
    entries: Vec<Entry>,
}

proof fn lemma_find_from_absent(names: Seq<Seq<char>>, n: int, q: Seq<char>)
    requires
        0 <= n <= names.len(),
        find_from(names, n, q) == -1,
    ensures
        forall|i: int| 0 <= i < n ==> names[i] != q,
    decreases n,
{
    if n > 0 {
        lemma_find_from_absent(names, n - 1, q);
    }
}

impl MemoryBackend {
    /// No two buffers belong to the same queue.
    #[verifier::type_invariant]
    pub closed spec fn names_unique(&self) -> bool {
        entry_names(self.entries@).no_duplicates()
    }

    /// An empty backend.
    pub fn new() -> (r: Self)
        ensures
            r.models_contents(),
            r.serves_in_full(),
            forall|q: Seq<char>| #[trigger] r.pending(q) == Seq::<JobDefinitionView>::empty(),
    {
        let r = MemoryBackend { entries: Vec::new() };
        proof {
            assert(entry_names(r.entries@) =~= Seq::<Seq<char>>::empty());
        }
        r
    }

    /// Takes the buffers out, leaving none behind.
    fn take_entries(&mut self) -> (r: Vec<Entry>)
        ensures
            r@ == old(self).entries@,
            entry_names(r@).no_duplicates(),
    {
        let mut taken = MemoryBackend::new();
        core::mem::swap(self, &mut taken);
        proof {
            use_type_invariant(&taken);
        }
        let MemoryBackend { entries } = taken;
        entries
    }
}

/// Position of the buffer of the queue named `queue`, if there is one.
fn position(entries: &Vec<Entry>, queue: &QueueName) -> (r: Option<usize>)
    ensures
        match r {
            Some(i) => i == find_from(entry_names(entries@), entries@.len() as int, queue@),
            None => find_from(entry_names(entries@), entries@.len() as int, queue@) == -1,
        },
{
    let ghost ns = entry_names(entries@);
    let mut i: usize = entries.len();
    while i > 0
        invariant
            i <= entries@.len(),
            ns == entry_names(entries@),
            find_from(ns, entries@.len() as int, queue@) == find_from(ns, i as int, queue@),
        decreases i,
    {
        if entries[i - 1].name.equals(queue) {
            return Some(i - 1);
        }
        i = i - 1;
    }
    None
}

impl Backend for MemoryBackend {
    closed spec fn pending(&self, queue: Seq<char>) -> Seq<JobDefinitionView> {
        let i = find_from(entry_names(self.entries@), self.entries@.len() as int, queue);
        if 0 <= i < self.entries@.len() {
            views(self.entries@[i].jobs@)
        } else {
            Seq::empty()
        }
    }

    open spec fn models_contents(&self) -> bool {
        true
    }

    open spec fn serves_in_full(&self) -> bool {
        true
    }

    fn is_modelled(&self) -> (r: bool) {
        true
    }

    fn schedule(&mut self, queue: &QueueName, job_def: JobDefinition) -> (r: Result<()>)
        ensures
            r is Ok,
    {
        let mut entries = self.take_entries();
        let ghost old_entries = entries@;
        let ghost ns = entry_names(entries@);
        let ghost n = entries@.len() as int;
        proof {
            lemma_find_from_found(ns, n, queue@);
        }
        match position(&entries, queue) {
            Some(i) => {
                let mut e = entries.remove(i);
                e.jobs.push_back(job_def);
                entries.insert(i, e);
                proof {
                    assert(entry_names(entries@) =~= ns);
                }
                *self = MemoryBackend { entries };
                proof {
                    assert(views(self.entries@[i as int].jobs@) =~= views(old_entries[i as int].jobs@).push(job_def@));
                    assert forall|q: Seq<char>| q != queue@ implies #[trigger] self.pending(q) == old(self).pending(q) by {
                        lemma_find_from_found(ns, n, q);
                    }
                }
            },
            None => {
                let mut jobs = VecDeque::new();
                jobs.push_back(job_def);
                proof {
                    lemma_find_from_absent(ns, n, queue@);
                }
                entries.push(Entry { name: queue.duplicate(), jobs });
                proof {
                    let ns2 = entry_names(entries@);
                    assert(ns2 =~= ns.push(queue@));
                    assert forall|a: int, b: int| 0 <= a < b < ns2.len() implies ns2[a] != ns2[b] by {
                        if b < n {
                            assert(ns[a] != ns[b]);
                        }
                    }
                }
                *self = MemoryBackend { entries };
                proof {
                    let ns2 = entry_names(self.entries@);
                    assert(views(self.entries@[n].jobs@) =~= seq![job_def@]);
                    assert(old(self).pending(queue@) =~= Seq::<JobDefinitionView>::empty());
                    assert forall|q: Seq<char>| q != queue@ implies #[trigger] self.pending(q) == old(self).pending(q) by {
                        lemma_find_from_found(ns, n, q);
                        lemma_find_from_prefix(ns, ns2, n, q);
                    }
                }
            },
        }
        Ok(())
    }

    fn pull(&mut self, queue: &QueueName, count: usize) -> (r: Result<Vec<JobDefinition>>)
        ensures
            r matches Ok(v) && v.len() == batch_len(old(self).pending(queue@).len(), count),
    {
        let mut entries = self.take_entries();
        let ghost old_entries = entries@;
        let ghost ns = entry_names(entries@);
        let ghost n = entries@.len() as int;
        proof {
            lemma_find_from_found(ns, n, queue@);
        }
        match position(&entries, queue) {
            Some(i) => {
                let mut e = entries.remove(i);
                let ghost orig = e.jobs@;
                let mut out: Vec<JobDefinition> = Vec::new();
                while out.len() < count && e.jobs.len() > 0
                    invariant
                        out@ + e.jobs@ == orig,
                        e.name@ == old_entries[i as int].name@,
                        out@.len() <= count,
                    decreases e.jobs@.len(),
                {
                    let ghost before = e.jobs@;
                    match e.jobs.pop_front() {
                        Some(j) => {
                            out.push(j);
                            proof {
                                assert(before =~= seq![j] + e.jobs@);
                            }
                        },
                        None => {},
                    }
                }
                entries.insert(i, e);
                proof {
                    assert(entry_names(entries@) =~= ns);
                }
                *self = MemoryBackend { entries };
                proof {
                    let k = out@.len() as int;
                    assert(out@ =~= orig.take(k));
                    assert(e.jobs@ =~= orig.skip(k));
                    assert(views(out@) =~= views(orig).take(k));
                    assert(views(e.jobs@) =~= views(orig).skip(k));
                    assert(entry_names(self.entries@) =~= ns);
                    assert forall|q: Seq<char>| q != queue@ implies #[trigger] self.pending(q) == old(self).pending(q) by {
                        lemma_find_from_found(ns, n, q);
                    }
                }
                Ok(out)
            },
            None => {
                *self = MemoryBackend { entries };
                proof {
                    assert(views(Seq::<JobDefinition>::empty()) =~= Seq::<JobDefinitionView>::empty());
                }
                Ok(Vec::new())
            },
        }
    }
}

} // verus!
