use vstd::prelude::*;

verus! {

/// The lifecycle states of a job.
///
/// `Pending` and `Retry` are the only states from which delivery may
/// happen; `Done` and `Killed` are terminal; `Failed` is a terminal
/// state reserved for backends that distinguish permanent failure from
/// an operator kill.
#[derive(Clone, Copy, Debug, PartialEq, Eq, Structural)]
pub enum JobState {
    Pending,
    Running,
    Done,
    Retry,
    Killed,
    Failed,
}

/// The unit of work owned by a backend.
///
/// Timestamps (`run_at`, `lease_until`) are milliseconds on the caller's
/// clock; the contract never reads a clock itself. `lease_token` is the
/// fencing token minted when the job is delivered: a heartbeat renews
/// the lease only if it presents the token of the current delivery.
pub struct JobRequest {
    /// Unique identifier, assigned at push time, never reused.
    pub id: u64,
    /// The producer-supplied payload in its serialized form; opaque here.
    pub payload: String,
    /// Current lifecycle state.
    pub state: JobState,
    /// Number of delivery attempts so far; grows by one per delivery.
    pub attempts: u64,
    /// Optional human-readable failure context.
    pub last_error: Option<String>,
    /// The job must not be delivered before this instant.
    pub run_at: u64,
    /// While `Running`: the instant the current lease expires.
    pub lease_until: u64,
    /// While `Running`: the fencing token of the current delivery.
    pub lease_token: u64,
}

/// The mathematical value of a [`JobRequest`].
pub ghost struct JobView {
    pub id: int,
    pub payload: Seq<char>,
    pub state: JobState,
    pub attempts: int,
    pub last_error: Option<Seq<char>>,
    pub run_at: int,
    pub lease_until: int,
    pub lease_token: int,
}

impl View for JobRequest {
    type V = JobView;

    open spec fn view(&self) -> JobView {
        JobView {
            id: self.id as int,
            payload: self.payload@,
            state: self.state,
            attempts: self.attempts as int,
            last_error: match self.last_error {
                Some(e) => Some(e@),
                None => None,
            },
            run_at: self.run_at as int,
            lease_until: self.lease_until as int,
            lease_token: self.lease_token as int,
        }
    }
}

impl Clone for JobRequest {
    fn clone(&self) -> (r: Self)
        ensures
            r@ == self@,
    {
        JobRequest {
            id: self.id,
            payload: self.payload.clone(),
            state: self.state,
            attempts: self.attempts,
            last_error: match &self.last_error {
                Some(e) => Some(e.clone()),
                None => None,
            },
            run_at: self.run_at,
            lease_until: self.lease_until,
            lease_token: self.lease_token,
        }
    }
}

/// A liveness assertion for one in-flight job: the worker named
/// `worker_id` claims, at instant `timestamp`, to still be processing
/// the job it was delivered under fencing token `token`.
#[derive(Clone, Copy, Debug, PartialEq, Eq, Structural)]
pub struct Heartbeat {
    pub job_id: u64,
    pub worker_id: u64,
    pub timestamp: u64,
    pub token: u64,
}

/// Terminal states: no operation ever moves a job out of them.
pub open spec fn is_terminal(s: JobState) -> bool {
    s == JobState::Done || s == JobState::Killed || s == JobState::Failed
}

/// A job may be delivered at `now` exactly when it is `Pending` or
/// `Retry` and its scheduled time has come.
pub open spec fn deliverable(j: JobView, now: int) -> bool {
    (j.state == JobState::Pending || j.state == JobState::Retry) && j.run_at <= now
}

/// The value of a job freshly created by `push`.
pub open spec fn pending_job(id: int, payload: Seq<char>, run_at: int) -> JobView {
    JobView {
        id: id,
        payload: payload,
        state: JobState::Pending,
        attempts: 0,
        last_error: None,
        run_at: run_at,
        lease_until: 0,
        lease_token: 0,
    }
}

/// Delivery: `Pending`/`Retry` becomes `Running`, the attempt counter
/// grows by one, and a lease opens until `now + lease` under `token`.
pub open spec fn start_step(j: JobView, now: int, lease: int, token: int) -> JobView {
    JobView {
        state: JobState::Running,
        attempts: j.attempts + 1,
        lease_until: now + lease,
        lease_token: token,
        ..j
    }
}

/// Acknowledgement: a `Running` job becomes `Done`; any other state is
/// left untouched (a no-op success).
pub open spec fn ack_step(j: JobView) -> JobView {
    if j.state == JobState::Running {
        JobView { state: JobState::Done, ..j }
    } else {
        j
    }
}

/// Worker-requested retry: a `Running` job becomes `Retry`, deliverable
/// again at once; any other state is left untouched.
pub open spec fn retry_step(j: JobView) -> JobView {
    if j.state == JobState::Running {
        JobView { state: JobState::Retry, ..j }
    } else {
        j
    }
}

/// Kill: a `Running` job becomes `Killed`, excluded from delivery and
/// from reclaim; any other state is left untouched.
pub open spec fn kill_step(j: JobView) -> JobView {
    if j.state == JobState::Running {
        JobView { state: JobState::Killed, ..j }
    } else {
        j
    }
}

/// Reschedule: a non-terminal job returns to `Pending` and must not be
/// delivered before `now + wait`; terminal jobs are left untouched.
pub open spec fn reschedule_step(j: JobView, now: int, wait: int) -> JobView {
    if !is_terminal(j.state) {
        JobView { state: JobState::Pending, run_at: now + wait, ..j }
    } else {
        j
    }
}

/// A lease has silently expired: the job is still `Running` but no
/// heartbeat renewed it before `now`.
pub open spec fn lease_expired(j: JobView, now: int) -> bool {
    j.state == JobState::Running && j.lease_until < now
}

/// Reclaim of one job at `now`: an expired job is re-enqueued as
/// `Retry` while its attempts stay under `max_attempts`, else `Killed`;
/// everything else is left untouched.
pub open spec fn reclaim_step(j: JobView, now: int, max_attempts: int) -> JobView {
    if lease_expired(j, now) {
        if j.attempts < max_attempts {
            JobView { state: JobState::Retry, ..j }
        } else {
            JobView { state: JobState::Killed, ..j }
        }
    } else {
        j
    }
}

/// The caller presenting `token` at instant `now` still holds the
/// job's lease.
pub open spec fn lease_live(j: JobView, token: int, now: int) -> bool {
    j.state == JobState::Running && j.lease_token == token && now <= j.lease_until
}

/// Heartbeat: while the lease is live under `token`, it is extended to
/// `now + lease`; otherwise the job is left untouched.
pub open spec fn heartbeat_step(j: JobView, token: int, now: int, lease: int) -> JobView {
    if lease_live(j, token, now) {
        JobView { lease_until: now + lease, ..j }
    } else {
        j
    }
}

} // verus!
