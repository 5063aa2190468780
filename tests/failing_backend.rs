use rjobs::{
    Backend, DurableBackend, Error, JobDefinition, JobDefinitionDebug, ListStore, PopReply, Queue,
    QueueName, RedisBackend, Scheduler, Timestamp,
};
use std::collections::{HashMap, VecDeque};

fn storage_error() -> Error {
    match RedisBackend::new("not a url") {
        Err(e) => e,
        Ok(_) => panic!("url parsed"),
    }
}

fn job(name: &str) -> JobDefinition {
    JobDefinition::new(
        name.to_string(),
        name.as_bytes().to_vec(),
        QueueName::from_str("default"),
        Timestamp { secs: 7, nanos: 0 },
        JobDefinitionDebug::new("tests::Job"),
    )
}

/// Lists kept in memory, each pushed at the front and popped at the back.
#[derive(Default)]
struct Lists {
    lists: HashMap<String, VecDeque<Vec<u8>>>,
    pops: usize,
}

impl ListStore for Lists {
    fn push_left(&mut self, key: &str, bytes: Vec<u8>) -> rjobs::Result<()> {
        self.lists.entry(key.to_string()).or_default().push_front(bytes);
        Ok(())
    }

    fn pop_right(&mut self, key: &str) -> rjobs::Result<PopReply> {
        self.pops += 1;
        Ok(match self.lists.get_mut(key).and_then(|l| l.pop_back()) {
            Some(bytes) => PopReply::Item(bytes),
            None => PopReply::Empty,
        })
    }
}

/// A store that cannot be reached.
struct Unreachable {
    pops: usize,
}

impl ListStore for Unreachable {
    fn push_left(&mut self, _key: &str, _bytes: Vec<u8>) -> rjobs::Result<()> {
        Err(storage_error())
    }

    fn pop_right(&mut self, _key: &str) -> rjobs::Result<PopReply> {
        self.pops += 1;
        Err(storage_error())
    }
}

/// A store whose every read fails after connecting.
struct FlakyReads;

impl ListStore for FlakyReads {
    fn push_left(&mut self, _key: &str, _bytes: Vec<u8>) -> rjobs::Result<()> {
        Ok(())
    }

    fn pop_right(&mut self, _key: &str) -> rjobs::Result<PopReply> {
        Ok(PopReply::Failed)
    }
}

fn names(jobs: &[JobDefinition]) -> Vec<String> {
    jobs.iter().map(|j| j.job_name().to_string()).collect()
}

#[test]
fn drain_ends_on_a_backend_whose_pulls_always_fail() {
    let mut backend = DurableBackend::new(Unreachable { pops: 0 });
    let mut queue = Queue::new(QueueName::from_str("default"));
    let drained = queue.drain(&mut backend, true);
    assert!(drained.jobs.is_empty());
    assert!(matches!(drained.pull_error, Some(Error::Redis(_))));
    assert_eq!(backend.store().pops, 1);
}

#[test]
fn failed_refill_hands_out_nothing() {
    let mut backend = DurableBackend::new(Unreachable { pops: 0 });
    let mut queue = Queue::new(QueueName::from_str("default"));
    assert!(queue.process(&mut backend).is_err());
    assert_eq!(queue.len(), 0);
}

#[test]
fn schedule_error_reaches_the_producer() {
    let mut scheduler = Scheduler::new(DurableBackend::new(Unreachable { pops: 0 })).ok().unwrap();
    let r = scheduler.schedule("x".to_string(), vec![], JobDefinitionDebug::new("x"));
    assert!(matches!(r, Err(Error::Redis(_))));
}

#[test]
fn transient_read_failure_ends_pull_without_error() {
    let mut backend = DurableBackend::new(FlakyReads);
    let r = backend.pull(&QueueName::from_str("default"), 4);
    assert!(r.ok().unwrap().is_empty());
}

#[test]
fn durable_lists_keep_fifo_order_under_prefixed_key() {
    let mut backend = DurableBackend::new(Lists::default());
    let q = QueueName::from_str("default");
    for n in ["A", "B", "C"] {
        backend.schedule(&q, job(n)).ok().unwrap();
    }
    assert_eq!(backend.store().lists["queue:default"].len(), 3);
    assert_eq!(names(&backend.pull(&q, 2).ok().unwrap()), vec!["A", "B"]);
    assert_eq!(names(&backend.pull(&q, 5).ok().unwrap()), vec!["C"]);
    assert!(backend.pull(&q, 5).ok().unwrap().is_empty());
}

#[test]
fn durable_pull_stops_at_count() {
    let mut backend = DurableBackend::new(Lists::default());
    let q = QueueName::from_str("default");
    for n in ["A", "B", "C"] {
        backend.schedule(&q, job(n)).ok().unwrap();
    }
    let before = backend.store().pops;
    assert_eq!(backend.pull(&q, 2).ok().unwrap().len(), 2);
    assert_eq!(backend.store().pops - before, 2);
}

#[test]
fn undecodable_item_fails_the_pull() {
    let mut lists = Lists::default();
    lists.push_left("queue:default", vec![1, 2, 3]).ok().unwrap();
    let mut backend = DurableBackend::new(lists);
    let r = backend.pull(&QueueName::from_str("default"), 3);
    assert!(matches!(r, Err(Error::Serialization(_))));
}

#[test]
fn pop_replies_collect_until_count_or_empty() {
    let mut collected = Vec::new();
    let first = job("one").to_bytes().ok().unwrap();
    let more = DurableBackend::<Lists>::on_pop_reply(&mut collected, 2, PopReply::Item(first));
    assert!(more.ok().unwrap());
    let second = job("two").to_bytes().ok().unwrap();
    let more = DurableBackend::<Lists>::on_pop_reply(&mut collected, 2, PopReply::Item(second));
    assert!(!more.ok().unwrap());
    assert_eq!(names(&collected), vec!["one", "two"]);

    let mut collected = Vec::new();
    assert!(!DurableBackend::<Lists>::on_pop_reply(&mut collected, 2, PopReply::Empty).ok().unwrap());
    assert!(!DurableBackend::<Lists>::on_pop_reply(&mut collected, 2, PopReply::Failed).ok().unwrap());
    assert!(DurableBackend::<Lists>::on_pop_reply(&mut collected, 2, PopReply::Item(vec![9])).is_err());
    assert!(collected.is_empty());
}
