use apalis_core::error::StorageError;
use apalis_core::job::{Heartbeat, JobState};
use apalis_core::memory::MemoryStorage;
use apalis_core::storage::{Storage, StorageJobExt};

const LEASE_MS: u64 = 1_000;
const MAX_ATTEMPTS: u64 = 3;
const PAGE_SIZE: u64 = 2;

fn fresh() -> MemoryStorage {
    MemoryStorage::new(LEASE_MS, MAX_ATTEMPTS, PAGE_SIZE)
}

#[test]
fn push_starts_pending() {
    let mut st = fresh();
    let id = st.push(String::from("a"), 0, 0).unwrap();
    let job = st.find_by_id(id).unwrap();
    assert_eq!(job.state, JobState::Pending);
    assert_eq!(job.attempts, 0);
    assert_eq!(job.payload, "a");
    assert_eq!(st.len().unwrap(), 1);
}

#[test]
fn push_respects_delay() {
    let mut st = fresh();
    let id = st.push(String::from("later"), 100, 50).unwrap();
    assert!(st.consume(100).unwrap().is_none());
    assert!(st.consume(149).unwrap().is_none());
    let job = st.consume(150).unwrap().unwrap();
    assert_eq!(job.id, id);
    assert_eq!(job.run_at, 150);
}

#[test]
fn consume_ack_find_done() {
    let mut st = fresh();
    let id = st.push(String::from("{\"x\":1}"), 0, 0).unwrap();
    let job = st.consume(0).unwrap().unwrap();
    assert_eq!(job.id, id);
    assert_eq!(job.attempts, 1);
    assert_eq!(job.state, JobState::Running);
    assert_eq!(job.payload, "{\"x\":1}");
    st.ack(id).unwrap();
    let seen = st.find_by_id(id).unwrap();
    assert_eq!(seen.state, JobState::Done);
}

#[test]
fn lease_lapse_redelivers_with_second_attempt() {
    let mut st = fresh();
    let id = st.push(String::from("b"), 0, 0).unwrap();
    let first = st.consume(0).unwrap().unwrap();
    assert_eq!(first.attempts, 1);
    // no heartbeat: the lease (until 1_000) lapses silently
    assert!(st.consume(500).unwrap().is_none());
    st.reclaim(1_001);
    let again = st.consume(1_001).unwrap().unwrap();
    assert_eq!(again.id, id);
    assert_eq!(again.attempts, 2);
}

#[test]
fn heartbeat_renews_live_lease() {
    let mut st = fresh();
    let id = st.push(String::from("c"), 0, 0).unwrap();
    let job = st.consume(0).unwrap().unwrap();
    let renewed = st
        .heartbeat(Heartbeat { job_id: id, worker_id: 7, timestamp: 900, token: job.lease_token })
        .unwrap();
    assert!(renewed);
    // the renewal moved the lease to 900 + 1_000: still live at 1_500
    st.reclaim(1_500);
    assert!(st.consume(1_500).unwrap().is_none());
}

#[test]
fn heartbeat_after_reclaim_returns_false() {
    let mut st = fresh();
    let id = st.push(String::from("d"), 0, 0).unwrap();
    let job = st.consume(0).unwrap().unwrap();
    st.reclaim(2_000);
    let renewed = st
        .heartbeat(Heartbeat { job_id: id, worker_id: 7, timestamp: 2_000, token: job.lease_token })
        .unwrap();
    assert!(!renewed);
}

#[test]
fn heartbeat_with_stale_token_returns_false() {
    let mut st = fresh();
    let id = st.push(String::from("e"), 0, 0).unwrap();
    let first = st.consume(0).unwrap().unwrap();
    st.reclaim(2_000);
    let second = st.consume(2_000).unwrap().unwrap();
    assert_ne!(first.lease_token, second.lease_token);
    // the first worker's token no longer holds the lease
    let stale = st
        .heartbeat(Heartbeat {
            job_id: id,
            worker_id: 1,
            timestamp: 2_100,
            token: first.lease_token,
        })
        .unwrap();
    assert!(!stale);
    // the reclaiming worker's token does
    let live = st
        .heartbeat(Heartbeat {
            job_id: id,
            worker_id: 2,
            timestamp: 2_100,
            token: second.lease_token,
        })
        .unwrap();
    assert!(live);
}

#[test]
fn ack_twice_is_a_no_op() {
    let mut st = fresh();
    let id = st.push(String::from("f"), 0, 0).unwrap();
    st.consume(0).unwrap().unwrap();
    st.ack(id).unwrap();
    // second acknowledgement: no-op success, state is untouched
    assert_eq!(st.ack(id), Ok(()));
    assert_eq!(st.find_by_id(id).unwrap().state, JobState::Done);
}

#[test]
fn reschedule_defers_then_redelivers() {
    let mut st = fresh();
    let id = st.push(String::from("g"), 0, 0).unwrap();
    let job = st.consume(0).unwrap().unwrap();
    assert_eq!(job.attempts, 1);
    st.reschedule(id, 5_000, 0).unwrap();
    let seen = st.find_by_id(id).unwrap();
    assert_eq!(seen.run_at, 5_000);
    assert_eq!(seen.state, JobState::Pending);
    assert!(st.consume(4_999).unwrap().is_none());
    let again = st.consume(5_000).unwrap().unwrap();
    assert_eq!(again.id, id);
    assert_eq!(again.attempts, 2);
}

#[test]
fn retry_makes_job_deliverable_again() {
    let mut st = fresh();
    let id = st.push(String::from("h"), 0, 0).unwrap();
    st.consume(0).unwrap().unwrap();
    st.retry(id).unwrap();
    assert_eq!(st.find_by_id(id).unwrap().state, JobState::Retry);
    let again = st.consume(0).unwrap().unwrap();
    assert_eq!(again.attempts, 2);
}

#[test]
fn kill_excludes_from_delivery_and_reclaim() {
    let mut st = fresh();
    let id = st.push(String::from("i"), 0, 0).unwrap();
    st.consume(0).unwrap().unwrap();
    st.kill(id).unwrap();
    assert_eq!(st.find_by_id(id).unwrap().state, JobState::Killed);
    st.reclaim(10_000);
    assert!(st.consume(10_000).unwrap().is_none());
    assert_eq!(st.find_by_id(id).unwrap().state, JobState::Killed);
}

#[test]
fn reclaim_kills_once_attempts_reach_the_limit() {
    let mut st = MemoryStorage::new(LEASE_MS, 1, PAGE_SIZE);
    let id = st.push(String::from("j"), 0, 0).unwrap();
    let job = st.consume(0).unwrap().unwrap();
    assert_eq!(job.attempts, 1);
    st.reclaim(2_000);
    assert_eq!(st.find_by_id(id).unwrap().state, JobState::Killed);
    assert!(st.consume(2_000).unwrap().is_none());
}

#[test]
fn len_counts_pending_and_retry() {
    let mut st = fresh();
    st.push(String::from("a"), 0, 0).unwrap();
    let b = st.push(String::from("b"), 0, 0).unwrap();
    st.push(String::from("c"), 0, 0).unwrap();
    assert_eq!(st.len().unwrap(), 3);
    st.consume(0).unwrap().unwrap();
    assert_eq!(st.len().unwrap(), 2);
    st.consume(0).unwrap().unwrap();
    assert_eq!(st.len().unwrap(), 1);
    st.retry(b).unwrap();
    // a Retry job is part of the backlog again
    assert_eq!(st.len().unwrap(), 2);
}

#[test]
fn delivery_is_fifo_by_push_order() {
    let mut st = fresh();
    let a = st.push(String::from("a"), 0, 0).unwrap();
    let b = st.push(String::from("b"), 0, 0).unwrap();
    assert_eq!(st.consume(0).unwrap().unwrap().id, a);
    assert_eq!(st.consume(0).unwrap().unwrap().id, b);
    assert!(st.consume(0).unwrap().is_none());
}

#[test]
fn unknown_ids_are_not_found() {
    let mut st = fresh();
    assert_eq!(st.ack(42), Err(StorageError::NotFound));
    assert_eq!(st.retry(42), Err(StorageError::NotFound));
    assert_eq!(st.kill(42), Err(StorageError::NotFound));
    assert_eq!(st.reschedule(42, 10, 0), Err(StorageError::NotFound));
    assert!(st.find_by_id(42).is_err());
    assert_eq!(
        st.heartbeat(Heartbeat { job_id: 42, worker_id: 1, timestamp: 0, token: 0 }),
        Err(StorageError::NotFound)
    );
}

#[test]
fn error_labels() {
    assert_eq!(StorageError::NotFound.describe(), "job id not found");
    assert_eq!(StorageError::LeaseExpired.describe(), "lease no longer held");
    assert_eq!(StorageError::BackendUnavailable.describe(), "backend unavailable");
    assert_eq!(
        StorageError::SerializationFailure.describe(),
        "payload serialization failed"
    );
    assert_eq!(StorageError::InvalidArgument.describe(), "invalid argument");
}
