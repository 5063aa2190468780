//! A background job scheduling library: jobs are staged per named queue,
//! pulled from a pluggable backend and handed out in FIFO order.
pub mod backend;
pub mod codec;
pub mod durable;
pub mod error;
pub mod job;
pub mod manager;
pub mod queue;
pub mod scheduler;

pub use backend::{Backend, MemoryBackend};
pub use durable::{DurableBackend, ListStore, PopReply, RedisBackend};
pub use error::{Error, Result};
pub use job::{Job, JobDefinition, JobDefinitionDebug, JobDefinitionView, JobId, QueueName, Timestamp};
pub use manager::{Manager, Poller, Tick};
pub use queue::{Drained, Queue};
pub use scheduler::Scheduler;
