use vstd::prelude::*;
use crate::codec::{decodes, encoded};
use crate::job::queue_key;
use crate::error::{Error, Result};
use crate::backend::Backend;
use crate::job::{JobDefinition, JobDefinitionView, QueueName};

verus! {

/// redis's client handle: parsed connection parameters, carried as an opaque
/// value.
#[verifier::external_type_specification]
#[verifier::external_body]
pub struct ExRedisClient(redis::Client);

/// Whether redis accepts `url` as connection parameters: a URL that parses,
/// with a scheme that this build of redis supports (`redis`, `redis+unix`,
/// `unix`; `rediss` only where TLS support is built in).
pub uninterp spec fn redis_url_accepted(url: Seq<char>) -> bool;

/// Relies on redis::Client::open, which parses the URL into connection
/// parameters without connecting, and fails when it does not parse.
#[verifier::external_body]
fn open_client(url: &str) -> (r: core::result::Result<redis::Client, redis::RedisError>)
    ensures
        r is Ok == redis_url_accepted(url@),
{
    redis::Client::open(url)
}

/// Connection parameters of a redis server; `DurableBackend` does the list
/// work over a connection to it.
pub struct RedisBackend {
    redis_client: redis::Client,
}

/// One reply to a pop from the right end of a queue's list.
pub enum PopReply {
    /// The stored bytes of one job.
    Item(Vec<u8>),
    /// The list is empty.
    Empty,
    /// The read failed; treated as nothing more available now.
    Failed,
}

impl RedisBackend {
    /// A backend for the server at `url`; nothing is connected yet.
    pub fn new(redis_url: &str) -> (r: Result<Self>)
        ensures
            r is Ok == redis_url_accepted(redis_url@),
            r matches Err(e) ==> e is Redis,
    {
        match open_client(redis_url) {
            Ok(redis_client) => Ok(RedisBackend { redis_client }),
            Err(e) => Err(Error::Redis(e)),
        }
    }

    pub fn client(&self) -> (r: &redis::Client) {
        &self.redis_client
    }
}

/// The list operations of a store that keeps each queue as a list of
/// encoded jobs: jobs go in at the left end and come out at the right end.
pub trait ListStore {
    /// Pushes `bytes` onto the left end of the list at `key`.
    fn push_left(&mut self, key: &str, bytes: Vec<u8>) -> Result<()>;

    /// Pops one item from the right end of the list at `key`. An error means
    /// that the store could not be reached at all.
    fn pop_right(&mut self, key: &str) -> Result<PopReply>;
}

/// What one pop from a list store gave, as plain values.
pub enum PopEvent {
    /// The stored bytes of one job.
    Item(Seq<u8>),
    /// The list was empty.
    Empty,
    /// The read failed.
    Failed,
    /// The store could not be reached.
    Unreachable,
}

pub open spec fn event_of(r: Result<PopReply>) -> PopEvent {
    match r {
        Ok(PopReply::Item(b)) => PopEvent::Item(b@),
        Ok(PopReply::Empty) => PopEvent::Empty,
        Ok(PopReply::Failed) => PopEvent::Failed,
        Err(_) => PopEvent::Unreachable,
    }
}

/// What a pull of up to `count` jobs returned, given the replies to its pops
/// in order: every pop but the last brought a job; the jobs returned are those
/// of the replies, decoded, in order; popping stopped at `count` jobs, at an
/// empty list or at a failed read, and the pull failed on an unreachable store
/// or on bytes that are no stored job.
pub open spec fn pulled_from(
    replies: Seq<PopEvent>,
    count: usize,
    r: Result<Vec<JobDefinition>>,
) -> bool {
    &&& 1 <= replies.len() <= count
    &&& forall|i: int| 0 <= i < replies.len() - 1 ==> #[trigger] replies[i] is Item
    &&& r matches Ok(v) ==> {
        &&& forall|i: int|
            0 <= i < v@.len() ==> (#[trigger] replies[i] matches PopEvent::Item(b) && decodes(
                b,
                v@[i]@,
            ))
        &&& (replies.len() == v@.len() == count) || (replies.len() == v@.len() + 1 && (
        replies.last() is Empty || replies.last() is Failed))
    }
    &&& r is Err ==> (replies.last() is Unreachable || (replies.last() matches PopEvent::Item(b)
        && forall|x: JobDefinitionView| !#[trigger] decodes(b, x)))
}

/// A durable backend over a list store: each queue is the list under the key
/// `queue:<name>`, and a pull pops one job per round trip.
pub struct DurableBackend<L> {
    store: L,
    replies: Ghost<Seq<PopEvent>>,
    pushed: Ghost<Option<(Seq<char>, Seq<u8>)>>,
}

impl<L: ListStore> DurableBackend<L> {
    pub closed spec fn lists(&self) -> L {
        self.store
    }

    /// The replies to the pops of the latest pull, in order.
    pub closed spec fn last_replies(&self) -> Seq<PopEvent> {
        self.replies@
    }

    /// The key and bytes of the latest push, if any.
    pub closed spec fn last_push(&self) -> Option<(Seq<char>, Seq<u8>)> {
        self.pushed@
    }

    pub fn new(store: L) -> (r: Self)
        ensures
            r.lists() == store,
            r.last_replies() == Seq::<PopEvent>::empty(),
            r.last_push() is None,
    {
        DurableBackend { store, replies: Ghost(Seq::empty()), pushed: Ghost(None) }
    }

    pub fn store(&self) -> (r: &L)
        ensures
            *r == self.lists(),
    {
        &self.store
    }

    /// Takes one reply to a pop during a pull of up to `count` jobs into
    /// `collected`, and returns whether to pop again. Bytes that do not decode
    /// fail the pull; an empty list or a failed read ends it with what has
    /// been collected.
    pub fn on_pop_reply(collected: &mut Vec<JobDefinition>, count: usize, reply: PopReply) -> (r:
        Result<bool>)
        requires
            old(collected)@.len() < count,
        ensures
            match reply {
                PopReply::Item(b) => {
                    &&& r matches Ok(more) ==> {
                        &&& final(collected)@.len() == old(collected)@.len() + 1
                        &&& final(collected)@.drop_last() == old(collected)@
                        &&& more == (final(collected)@.len() < count)
                    }
                    &&& r is Err ==> final(collected)@ == old(collected)@
                    &&& r is Err ==> forall|v: JobDefinitionView| !#[trigger] decodes(b@, v)
                    &&& r is Ok ==> decodes(b@, final(collected)@.last()@)
                    &&& forall|v: JobDefinitionView|
                        b@ == #[trigger] encoded(v) ==> r is Ok && final(collected)@.last()@ == v
                },
                _ => r == Ok::<bool, Error>(false) && final(collected)@ == old(collected)@,
            },
    {
        match reply {
            PopReply::Item(b) => {
                match JobDefinition::from_bytes(b.as_slice()) {
                    Ok(d) => {
                        collected.push(d);
                        proof {
                            assert(collected@.drop_last() =~= old(collected)@);
                        }
                        Ok(collected.len() < count)
                    },
                    Err(e) => Err(e),
                }
            },
            PopReply::Empty => Ok(false),
            PopReply::Failed => Ok(false),
        }
    }
}

impl<L: ListStore> Backend for DurableBackend<L> {
    closed spec fn pending(&self, queue: Seq<char>) -> Seq<JobDefinitionView> {
        Seq::empty()
    }

    closed spec fn models_contents(&self) -> bool {
        false
    }

    closed spec fn serves_in_full(&self) -> bool {
        false
    }

    fn is_modelled(&self) -> (r: bool) {
        false
    }

    fn schedule(&mut self, queue: &QueueName, job_def: JobDefinition) -> (r: Result<()>)
        ensures
            final(self).last_push() == Some((queue_key(queue@), encoded(job_def@))),
            final(self).last_replies() == old(self).last_replies(),
    {
        let bytes = match job_def.to_bytes() {
            Ok(b) => b,
            Err(e) => {
                return Err(e);
            },
        };
        let key = queue.to_string();
        self.pushed = Ghost(Some((key@, bytes@)));
        self.store.push_left(key.as_str(), bytes)
    }

    fn pull(&mut self, queue: &QueueName, count: usize) -> (r: Result<Vec<JobDefinition>>)
        ensures
            pulled_from(final(self).last_replies(), count, r),
            final(self).last_push() == old(self).last_push(),
    {
        let key = queue.to_string();
        let mut collected: Vec<JobDefinition> = Vec::new();
        let ghost mut log: Seq<PopEvent> = Seq::empty();
        while collected.len() < count
            invariant
                collected@.len() <= count,
                log.len() == collected@.len(),
                self.pushed == old(self).pushed,
                forall|i: int|
                    0 <= i < log.len() ==> (#[trigger] log[i] matches PopEvent::Item(b) && decodes(
                        b,
                        collected@[i]@,
                    )),
            decreases count - collected@.len(),
        {
            let popped = self.store.pop_right(key.as_str());
            proof {
                log = log.push(event_of(popped));
            }
            let reply = match popped {
                Ok(reply) => reply,
                Err(e) => {
                    self.replies = Ghost(log);
                    return Err(e);
                },
            };
            let ghost before = collected@;
            match Self::on_pop_reply(&mut collected, count, reply) {
                Ok(true) => {},
                Ok(false) => {
                    self.replies = Ghost(log);
                    return Ok(collected);
                },
                Err(e) => {
                    self.replies = Ghost(log);
                    return Err(e);
                },
            }
        }
        self.replies = Ghost(log);
        Ok(collected)
    }
}

} // verus!
