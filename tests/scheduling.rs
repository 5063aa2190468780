use rjobs::{
    Backend, JobDefinition, JobDefinitionDebug, MemoryBackend, Queue, QueueName, RedisBackend,
    Scheduler, Tick, Timestamp,
};

fn job(name: &str, payload: &[u8]) -> JobDefinition {
    JobDefinition::new(
        name.to_string(),
        payload.to_vec(),
        QueueName::from_str("default"),
        Timestamp { secs: 1_600_000_000, nanos: 5 },
        JobDefinitionDebug::new("tests::Log"),
    )
}

fn names(jobs: &[JobDefinition]) -> Vec<String> {
    jobs.iter().map(|j| j.job_name().to_string()).collect()
}

fn ran(t: Tick) -> Vec<String> {
    match t {
        Tick::Stopped => panic!("loop stopped"),
        Tick::Ran(results) => results
            .into_iter()
            .filter_map(|r| r.ok().flatten())
            .map(|j| j.job_name().to_string())
            .collect(),
    }
}

#[test]
fn it_works() {
    assert_eq!(2 + 2, 4);
}

#[test]
fn three_jobs_run_in_order_over_three_ticks() {
    let mut backend = MemoryBackend::new();
    let default = QueueName::from_str("default");
    for n in ["A", "B", "C"] {
        assert!(backend.schedule(&default, job(n, b"x")).is_ok());
    }
    let mut scheduler = Scheduler::new(backend).ok().unwrap();
    assert_eq!(scheduler.start(), (true, true));
    let mut log = Vec::new();
    for _ in 0..3 {
        log.extend(ran(scheduler.tick()));
    }
    assert_eq!(log, vec!["A", "B", "C"]);
}

#[test]
fn pull_five_from_two_returns_both_in_order() {
    let mut backend = MemoryBackend::new();
    let q = QueueName::from_str("default");
    backend.schedule(&q, job("first", b"1")).ok().unwrap();
    backend.schedule(&q, job("second", b"2")).ok().unwrap();
    let pulled = backend.pull(&q, 5).ok().unwrap();
    assert_eq!(names(&pulled), vec!["first", "second"]);
    assert_eq!(backend.pull(&q, 5).ok().unwrap().len(), 0);
}

#[test]
fn pull_on_empty_queue_is_empty_and_ok() {
    let mut backend = MemoryBackend::new();
    let r = backend.pull(&QueueName::from_str("nothing"), 3);
    assert!(r.is_ok());
    assert!(r.ok().unwrap().is_empty());
}

#[test]
fn queues_are_independent() {
    let mut backend = MemoryBackend::new();
    let a = QueueName::from_str("a");
    let b = QueueName::from_str("b");
    backend.schedule(&a, job("in_a", b"")).ok().unwrap();
    backend.schedule(&b, job("in_b", b"")).ok().unwrap();
    assert_eq!(names(&backend.pull(&b, 10).ok().unwrap()), vec!["in_b"]);
    assert_eq!(names(&backend.pull(&a, 10).ok().unwrap()), vec!["in_a"]);
}

#[test]
fn drain_without_start_runs_scheduled_job_once() {
    let mut scheduler = Scheduler::new(MemoryBackend::new()).ok().unwrap();
    let id = scheduler
        .schedule("D".to_string(), b"d".to_vec(), JobDefinitionDebug::new("tests::D"))
        .ok()
        .unwrap();
    let drained = scheduler.drain(true);
    assert_eq!(drained.len(), 1);
    assert!(drained[0].pull_error.is_none());
    assert_eq!(names(&drained[0].jobs), vec!["D"]);
    assert_eq!(drained[0].jobs[0].id().as_str(), id.as_str());
    assert!(scheduler.drain(true)[0].jobs.is_empty());
}

#[test]
fn drain_from_memory_only_when_asked() {
    let mut scheduler = Scheduler::new(MemoryBackend::new()).ok().unwrap();
    scheduler.schedule("E".to_string(), vec![], JobDefinitionDebug::new("E")).ok().unwrap();
    assert!(scheduler.drain(false)[0].jobs.is_empty());
    assert_eq!(names(&scheduler.drain(true)[0].jobs), vec!["E"]);
}

#[test]
fn start_twice_is_a_no_op() {
    let mut scheduler = Scheduler::new(MemoryBackend::new()).ok().unwrap();
    assert_eq!(scheduler.start(), (true, true));
    assert_eq!(scheduler.start(), (false, false));
    assert!(scheduler.manager().is_running());
    assert!(scheduler.poller().is_running());
}

#[test]
fn stop_signal_is_seen_at_next_tick() {
    let mut scheduler = Scheduler::new(MemoryBackend::new()).ok().unwrap();
    scheduler.start();
    assert!(scheduler.poll());
    scheduler.drain(false);
    assert!(matches!(scheduler.tick(), Tick::Stopped));
    assert!(!scheduler.poll());
    assert!(!scheduler.manager().is_running());
    assert!(!scheduler.poller().is_running());
}

#[test]
fn refill_never_exceeds_low_water_mark() {
    let mut backend = MemoryBackend::new();
    let q = QueueName::from_str("default");
    for i in 0..10u8 {
        backend.schedule(&q, job(&format!("j{}", i), &[i])).ok().unwrap();
    }
    let mut queue = Queue::new(QueueName::from_str("default"));
    let mut seen = Vec::new();
    for _ in 0..10 {
        let next = queue.process(&mut backend).ok().unwrap().unwrap();
        assert!(queue.len() <= 3);
        seen.push(next.payload()[0]);
    }
    assert_eq!(seen, (0..10u8).collect::<Vec<_>>());
    assert!(queue.process(&mut backend).ok().unwrap().is_none());
}

#[test]
fn first_refill_asks_for_the_low_water_mark() {
    let mut backend = MemoryBackend::new();
    let q = QueueName::from_str("default");
    for i in 0..5u8 {
        backend.schedule(&q, job("j", &[i])).ok().unwrap();
    }
    let mut queue = Queue::with_max_pending(QueueName::from_str("default"), 3);
    let first = queue.process(&mut backend).ok().unwrap().unwrap();
    assert_eq!(first.payload(), &[0u8]);
    assert_eq!(queue.len(), 2);
    assert_eq!(backend.pull(&q, 10).ok().unwrap().len(), 2);
}

#[test]
fn job_definition_round_trips_through_bytes() {
    let first = job("round", &[1, 2, 3, 255]);
    let bytes = first.to_bytes().ok().unwrap();
    let back = JobDefinition::from_bytes(&bytes).ok().unwrap();
    assert_eq!(back.id().as_str(), first.id().as_str());
    assert_eq!(back.job_name(), "round");
    assert_eq!(back.payload(), &[1, 2, 3, 255]);
    assert_eq!(back.queue().as_str(), "default");
    assert_eq!(back.enqueued_at(), Timestamp { secs: 1_600_000_000, nanos: 5 });
    assert!(back.debug_info().is_none());
}

#[test]
fn garbage_bytes_do_not_decode() {
    assert!(JobDefinition::from_bytes(&[1, 2, 3]).is_err());
}

#[test]
fn job_ids_are_random_and_url_safe() {
    let a = job("a", b"");
    let b = job("b", b"");
    assert_eq!(a.id().as_str().chars().count(), 21);
    assert!(a.id().as_str().chars().all(|c| c.is_ascii_alphanumeric() || c == '_' || c == '-'));
    assert_ne!(a.id().as_str(), b.id().as_str());
}

#[test]
fn queue_name_displays_as_storage_key() {
    assert_eq!(QueueName::from_str("mail").to_string(), "queue:mail");
}

#[test]
fn redis_backend_parses_url_without_connecting() {
    assert!(RedisBackend::new("redis://127.0.0.1").is_ok());
    assert!(RedisBackend::new("http://127.0.0.1").is_err());
    assert!(RedisBackend::new("not a url").is_err());
}

#[test]
fn scheduled_job_carries_name_payload_and_queue() {
    let mut scheduler = Scheduler::new(MemoryBackend::new()).ok().unwrap();
    let id = scheduler
        .schedule("mail".to_string(), vec![7, 8], JobDefinitionDebug::new("tests::Mail"))
        .ok()
        .unwrap();
    let drained = scheduler.drain(true);
    let j = &drained[0].jobs[0];
    assert_eq!(j.id().as_str(), id.as_str());
    assert_eq!(j.payload(), &[7, 8]);
    assert_eq!(j.queue().as_str(), "default");
    assert_eq!(j.debug_info().unwrap().job_type_name(), "tests::Mail");
    assert!(j.enqueued_at().nanos < 2_000_000_000);
}

#[test]
fn queue_at_its_mark_does_not_pull() {
    let mut backend = MemoryBackend::new();
    let q = QueueName::from_str("default");
    for i in 0..4u8 {
        backend.schedule(&q, job("j", &[i])).ok().unwrap();
    }
    let mut queue = Queue::with_max_pending(QueueName::from_str("default"), 1);
    assert_eq!(queue.process(&mut backend).ok().unwrap().unwrap().payload(), &[0u8]);
    assert_eq!(queue.len(), 0);
    assert_eq!(backend.pull(&q, 10).ok().unwrap().len(), 3);
}

#[test]
fn equal_fields_encode_to_equal_bytes() {
    let a = job("same", b"p");
    let back = JobDefinition::from_bytes(&a.to_bytes().ok().unwrap()).ok().unwrap();
    assert_eq!(a.to_bytes().ok().unwrap(), back.to_bytes().ok().unwrap());
}
