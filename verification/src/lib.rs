//! Durable-storage contract for a background job-processing framework.
//!
//! The crate defines the job entity and its state machine, the error
//! taxonomy every backend reports from, the `Storage` capability contract
//! (push, consume, ack, retry, heartbeat, kill, reschedule, len), the
//! extended query contract (find-by-id, paginate-by-state), and a fully
//! specified in-memory backend together with the lease-reclaim protocol
//! that recovers jobs abandoned by crashed workers.

pub mod error;
pub mod job;
pub mod laws;
pub mod memory;
pub mod storage;
