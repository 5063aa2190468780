use vstd::prelude::*;
use crate::error::{Error, Result};
use crate::job::{JobDefinition, JobDefinitionView, JobId, QueueName, Timestamp};

verus! {

/// The bytes that bincode writes for a job definition's fields, taken as the
/// tuple (id, job name, payload, seconds, nanoseconds, queue).
pub uninterp spec fn bincode_fields(f: FieldsView) -> Seq<u8>;

/// The fields of a job definition as plain values: id, job name, payload,
/// seconds, nanoseconds, queue.
pub type FieldsView = (Seq<char>, Seq<char>, Seq<u8>, i64, u32, Seq<char>);

/// The fields of a job definition as bincode reads them.
pub type Fields = (String, String, Vec<u8>, i64, u32, String);

pub open spec fn fields_view(t: Fields) -> FieldsView {
    (t.0@, t.1@, t.2@, t.3, t.4, t.5@)
}

/// The stored form of a job definition.
pub open spec fn encoded(v: JobDefinitionView) -> Seq<u8> {
    bincode_fields((v.id, v.job_name, v.payload, v.enqueued_at.secs, v.enqueued_at.nanos, v.queue))
}

/// Relies on bincode::serialize: the bytes it writes for a tuple depend on the
/// tuple's values alone, and writing strings, byte sequences and integers with
/// no size limit does not fail.
#[verifier::external_body]
fn serialize_fields(
    id: &str,
    job_name: &str,
    payload: &[u8],
    secs: i64,
    nanos: u32,
    queue: &str,
) -> (r: core::result::Result<Vec<u8>, bincode::Error>)
    ensures
        r is Ok,
        r matches Ok(b) ==> b@ == bincode_fields((id@, job_name@, payload@, secs, nanos, queue@)),
{
    bincode::serialize(&(id, job_name, payload, secs, nanos, queue))
}

/// Whether `bytes` begins with `prefix`.
pub open spec fn starts_with(bytes: Seq<u8>, prefix: Seq<u8>) -> bool {
    prefix.len() <= bytes.len() && bytes.take(prefix.len() as int) == prefix
}

/// Whether `r` is what reading `bytes` gives: bytes that begin with what
/// bincode writes for some fields read back as those fields, and whatever is
/// read back is fields whose encoding the bytes begin with.
pub open spec fn reads_back(bytes: Seq<u8>, r: core::result::Result<Fields, bincode::Error>) -> bool {
    &&& forall|f: FieldsView|
        starts_with(bytes, #[trigger] bincode_fields(f)) ==> (r matches Ok(t) && fields_view(t)
            == f)
    &&& r matches Ok(t) ==> starts_with(bytes, bincode_fields(fields_view(t)))
}

/// Whether `bytes` begin with the stored form of `v`, and so read back as `v`.
pub open spec fn decodes(bytes: Seq<u8>, v: JobDefinitionView) -> bool {
    starts_with(bytes, encoded(v))
}

/// Relies on bincode::deserialize (fixed-width integers, trailing bytes
/// allowed): bytes that begin with what bincode::serialize wrote for a tuple
/// read back as that tuple, and a tuple that is read back was read from such
/// a beginning.
#[verifier::external_body]
fn deserialize_fields(bytes: &[u8]) -> (r: core::result::Result<Fields, bincode::Error>)
    ensures
        reads_back(bytes@, r),
{
    bincode::deserialize::<Fields>(bytes)
}

impl JobDefinition {
    /// The stored form of this definition.
    pub fn to_bytes(&self) -> (r: Result<Vec<u8>>)
        ensures
            r matches Ok(b) && b@ == encoded(self@),
    {
        let at = self.enqueued_at();
        match serialize_fields(
            self.id().as_str(),
            self.job_name(),
            self.payload(),
            at.secs,
            at.nanos,
            self.queue().as_str(),
        ) {
            Ok(b) => Ok(b),
            Err(e) => Err(Error::Serialization(e)),
        }
    }

    /// Reads a definition back from its stored form: the bytes that
    /// `to_bytes` wrote for a definition give back that same definition, with
    /// no diagnostic information. Bytes that begin with no stored form fail.
    pub fn from_bytes(bytes: &[u8]) -> (r: Result<JobDefinition>)
        ensures
            forall|v: JobDefinitionView| bytes@ == #[trigger] encoded(v) ==> (r matches Ok(d) && d@
                == v),
            forall|v: JobDefinitionView| #[trigger] decodes(bytes@, v) ==> (r matches Ok(d) && d@
                == v),
            r matches Ok(d) ==> decodes(bytes@, d@) && d.debug() is None,
            r matches Err(e) ==> e is Serialization && forall|v: JobDefinitionView|
                !#[trigger] decodes(bytes@, v),
    {
        proof {
            assert forall|v: JobDefinitionView| bytes@ == #[trigger] encoded(v) implies decodes(
                bytes@,
                v,
            ) by {
                assert(bytes@.take(bytes@.len() as int) =~= bytes@);
            }
        }
        match deserialize_fields(bytes) {
            Ok(t) => {
                let (id, job_name, payload, secs, nanos, queue) = t;
                let d = JobDefinition::from_parts(
                    JobId::from_string(id),
                    job_name,
                    payload,
                    QueueName::new(queue),
                    Timestamp { secs, nanos },
                );
                proof {
                    assert(encoded(d@) == bincode_fields(fields_view(t)));
                }
                Ok(d)
            },
            Err(e) => Err(Error::Serialization(e)),
        }
    }
}

} // verus!
