use vstd::prelude::*;

verus! {

/// A job type without state of its own.
#[derive(Debug)]
pub struct Job {}

/// Number of characters in a job identifier.
pub const JOB_ID_LEN: usize = 21;

/// Whether `c` belongs to the URL-safe alphabet that identifiers are drawn from.
pub open spec fn is_id_char(c: char) -> bool {
    ('a' <= c && c <= 'z') || ('A' <= c && c <= 'Z') || ('0' <= c && c <= '9') || c == '_' || c
        == '-'
}

/// Relies on nanoid::format with nanoid's default random source and its SAFE
/// alphabet (what the `nanoid!()` macro expands to): 21 characters, each drawn
/// from that alphabet.
#[verifier::external_body]
fn random_id_string() -> (r: String)
    ensures
        r@.len() == JOB_ID_LEN,
        forall|i: int| 0 <= i < r@.len() ==> is_id_char(#[trigger] r@[i]),
{
    nanoid::format(nanoid::rngs::default, &nanoid::alphabet::SAFE, JOB_ID_LEN)
}

/// Opaque identifier assigned to a job when it is submitted.
#[derive(Debug)]
pub struct JobId(String);

impl View for JobId {
    type V = Seq<char>;

    closed spec fn view(&self) -> Seq<char> {
        self.0@
    }
}

impl JobId {
    /// A fresh random identifier.
    pub(crate) fn random() -> (r: Self)
        ensures
            r@.len() == JOB_ID_LEN,
            forall|i: int| 0 <= i < r@.len() ==> is_id_char(#[trigger] r@[i]),
    {
        JobId(random_id_string())
    }

    /// An identifier with the given text, as read back from storage.
    pub fn from_string(s: String) -> (r: Self)
        ensures
            r@ == s@,
    {
        JobId(s)
    }

    pub fn as_str(&self) -> (r: &str)
        ensures
            r@ == self@,
    {
        self.0.as_str()
    }

    pub fn duplicate(&self) -> (r: Self)
        ensures
            r@ == self@,
    {
        JobId(self.0.clone())
    }
}

/// Name of a logical queue; the partition key of a backend.
#[derive(Debug)]
pub struct QueueName(String);

impl View for QueueName {
    type V = Seq<char>;

    closed spec fn view(&self) -> Seq<char> {
        self.0@
    }
}

/// The storage key of a queue with the given name.
pub open spec fn queue_key(name: Seq<char>) -> Seq<char> {
    seq!['q', 'u', 'e', 'u', 'e', ':'] + name
}

impl QueueName {
    pub fn new(name: String) -> (r: Self)
        ensures
            r@ == name@,
    {
        QueueName(name)
    }

    pub fn from_str(name: &str) -> (r: Self)
        ensures
            r@ == name@,
    {
        QueueName(name.to_owned())
    }

    /// The queue every job goes to unless another is named.
    pub fn default_queue() -> (r: Self)
        ensures
            r@ == default_queue_name(),
    {
        let r = QueueName::from_str("default");
        proof {
            reveal_strlit("default");
        }
        r
    }

    pub fn as_str(&self) -> (r: &str)
        ensures
            r@ == self@,
    {
        self.0.as_str()
    }

    pub fn duplicate(&self) -> (r: Self)
        ensures
            r@ == self@,
    {
        QueueName(self.0.clone())
    }

    pub fn equals(&self, other: &QueueName) -> (r: bool)
        ensures
            r == (self@ == other@),
    {
        self.0 == other.0
    }

    /// The display form of the name, which is also its storage key:
    /// `queue:` followed by the name.
    pub fn to_string(&self) -> (r: String)
        ensures
            r@ == queue_key(self@),
    {
        let prefix = String::from_str("queue:");
        proof {
            reveal_strlit("queue:");
        }
        let r = prefix.concat(self.0.as_str());
        proof {
            assert(r@ =~= queue_key(self@));
        }
        r
    }
}

pub open spec fn default_queue_name() -> Seq<char> {
    seq!['d', 'e', 'f', 'a', 'u', 'l', 't']
}

/// A point in time: whole seconds since the Unix epoch and the nanoseconds
/// past that second.
#[derive(Debug, Clone, Copy, PartialEq, Eq)]
pub struct Timestamp {
    pub secs: i64,
    pub nanos: u32,
}

/// Relies on chrono::Utc::now, read through `DateTime::timestamp` and
/// `DateTime::timestamp_subsec_nanos`: the current wall-clock time. The
/// sub-second part is the time's `nanosecond`, which chrono documents as below
/// 2,000,000,000 (the range from 1,000,000,000 up represents a leap second).
#[verifier::external_body]
fn utc_now() -> (r: Timestamp)
    ensures
        r.nanos < 2_000_000_000,
{
    let now = chrono::Utc::now();
    Timestamp { secs: now.timestamp(), nanos: now.timestamp_subsec_nanos() }
}

impl Timestamp {
    /// The current wall-clock time.
    pub fn now() -> (r: Timestamp)
        ensures
            r.nanos < 2_000_000_000,
    {
        utc_now()
    }
}

/// Diagnostic information kept beside a job definition: the name of the Rust
/// type that the job was submitted as. It is not stored with the job.
#[derive(Debug)]
pub struct JobDefinitionDebug {
    job_type_name: &'static str,
}

impl JobDefinitionDebug {
    pub closed spec fn name_of(&self) -> &'static str {
        self.job_type_name
    }

    pub fn new(job_type_name: &'static str) -> (r: Self)
        ensures
            r.name_of() == job_type_name,
    {
        JobDefinitionDebug { job_type_name }
    }

    pub fn job_type_name(&self) -> (r: &'static str)
        ensures
            r == self.name_of(),
    {
        self.job_type_name
    }
}

/// The unit of transport and storage: identity, type tag, encoded argument,
/// submission time and queue.
#[derive(Debug)]
pub struct JobDefinition {
    id: JobId,
    job_name: String,
    serialized_job_data: Vec<u8>,
    enqueued_at: Timestamp,
    queue: QueueName,
    debug: Option<JobDefinitionDebug>,
}

/// What a job definition holds, as plain values.
pub struct JobDefinitionView {
    pub id: Seq<char>,
    pub job_name: Seq<char>,
    pub payload: Seq<u8>,
    pub enqueued_at: Timestamp,
    pub queue: Seq<char>,
}

impl View for JobDefinition {
    type V = JobDefinitionView;

    closed spec fn view(&self) -> JobDefinitionView {
        JobDefinitionView {
            id: self.id@,
            job_name: self.job_name@,
            payload: self.serialized_job_data@,
            enqueued_at: self.enqueued_at,
            queue: self.queue@,
        }
    }
}

impl JobDefinition {
    /// A new definition with a fresh random identifier.
    pub fn new(
        job_name: String,
        payload: Vec<u8>,
        queue: QueueName,
        enqueued_at: Timestamp,
        debug: JobDefinitionDebug,
    ) -> (r: Self)
        ensures
            r.debug() == Some(debug),
            r@.job_name == job_name@,
            r@.payload == payload@,
            r@.queue == queue@,
            r@.enqueued_at == enqueued_at,
            r@.id.len() == JOB_ID_LEN,
    {
        let id = JobId::random();
        JobDefinition {
            id,
            job_name,
            serialized_job_data: payload,
            enqueued_at,
            queue,
            debug: Some(debug),
        }
    }

    /// A definition made of the given parts, as read back from storage.
    pub fn from_parts(
        id: JobId,
        job_name: String,
        payload: Vec<u8>,
        queue: QueueName,
        enqueued_at: Timestamp,
    ) -> (r: Self)
        ensures
            r.debug() is None,
            r@ == (JobDefinitionView {
                id: id@,
                job_name: job_name@,
                payload: payload@,
                enqueued_at,
                queue: queue@,
            }),
    {
        JobDefinition { id, job_name, serialized_job_data: payload, enqueued_at, queue, debug: None }
    }

    pub closed spec fn debug(&self) -> Option<JobDefinitionDebug> {
        self.debug
    }

    /// The diagnostic information, which only a definition made by `new` has.
    pub fn debug_info(&self) -> (r: Option<&JobDefinitionDebug>)
        ensures
            r == match self.debug() {
                Some(d) => Some(&d),
                None => None,
            },
    {
        match &self.debug {
            Some(d) => Some(d),
            None => None,
        }
    }

    pub fn id(&self) -> (r: &JobId)
        ensures
            r@ == self@.id,
    {
        &self.id
    }

    pub fn job_name(&self) -> (r: &str)
        ensures
            r@ == self@.job_name,
    {
        self.job_name.as_str()
    }

    pub fn payload(&self) -> (r: &[u8])
        ensures
            r@ == self@.payload,
    {
        self.serialized_job_data.as_slice()
    }

    pub fn enqueued_at(&self) -> (r: Timestamp)
        ensures
            r == self@.enqueued_at,
    {
        self.enqueued_at
    }

    pub fn queue(&self) -> (r: &QueueName)
        ensures
            r@ == self@.queue,
    {
        &self.queue
    }
}

} // verus!
