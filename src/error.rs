use vstd::prelude::*;

verus! {

/// redis's error type, carried as an opaque value.
#[verifier::external_type_specification]
#[verifier::external_body]
pub struct ExRedisError(redis::RedisError);

/// bincode's error kind (`bincode::Error` boxes it), carried as an opaque value.
#[verifier::external_type_specification]
#[verifier::external_body]
pub struct ExBincodeErrorKind(bincode::ErrorKind);

/// Failures surfaced by a backend or by the job codec.
#[derive(Debug)]
pub enum Error {
    /// The storage engine failed.
    Redis(redis::RedisError),
    /// A job definition could not be encoded or decoded.
    Serialization(bincode::Error),
}

pub type Result<T> = core::result::Result<T, Error>;

} // verus!
