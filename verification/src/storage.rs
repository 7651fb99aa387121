use vstd::prelude::*;

use crate::error::StorageError;
use crate::job::{
    deliverable, pending_job, start_step, ack_step, retry_step, kill_step, reschedule_step,
    heartbeat_step, Heartbeat, JobRequest, JobState, JobView,
};

verus! {

/// `id` is not the id of any job in `jobs`.
pub open spec fn fresh_id(jobs: Seq<JobView>, id: int) -> bool {
    forall|i: int| 0 <= i < jobs.len() ==> (#[trigger] jobs[i]).id != id
}

/// Some job in `jobs` carries `id`.
pub open spec fn has_id(jobs: Seq<JobView>, id: int) -> bool {
    exists|i: int| 0 <= i < jobs.len() && (#[trigger] jobs[i]).id == id
}

/// A job of `jobs` carrying `id` (the job, when ids are unique).
pub open spec fn job_with(jobs: Seq<JobView>, id: int) -> JobView {
    jobs[choose|i: int| 0 <= i < jobs.len() && (#[trigger] jobs[i]).id == id]
}

/// `after` is `before` with `f` applied to every job carrying `id` and
/// all other jobs left untouched.
pub open spec fn updated_by(
    before: Seq<JobView>,
    after: Seq<JobView>,
    id: int,
    f: spec_fn(JobView) -> JobView,
) -> bool {
    &&& after.len() == before.len()
    &&& forall|i: int|
        0 <= i < before.len() ==> (#[trigger] after[i]) == (if before[i].id == id {
            f(before[i])
        } else {
            before[i]
        })
}

/// How many jobs of `jobs` are waiting for delivery (`Pending` or
/// `Retry`).
pub open spec fn count_backlog(jobs: Seq<JobView>) -> int
    decreases jobs.len(),
{
    if jobs.len() == 0 {
        0
    } else {
        count_backlog(jobs.drop_last()) + (if jobs.last().state == JobState::Pending
            || jobs.last().state == JobState::Retry {
            1int
        } else {
            0int
        })
    }
}

/// The jobs of `jobs` whose state is `st`, in order.
pub open spec fn filter_state(jobs: Seq<JobView>, st: JobState) -> Seq<JobView>
    decreases jobs.len(),
{
    if jobs.len() == 0 {
        Seq::empty()
    } else {
        let rest = filter_state(jobs.drop_last(), st);
        if jobs.last().state == st {
            rest.push(jobs.last())
        } else {
            rest
        }
    }
}

/// The window of `jobs` that skips the first `skip` entries and holds
/// at most `size` of the rest; empty past the end, never an error.
pub open spec fn page_of(jobs: Seq<JobView>, skip: int, size: int) -> Seq<JobView> {
    let lo = if skip <= jobs.len() {
        skip
    } else {
        jobs.len() as int
    };
    let hi = if skip + size <= jobs.len() {
        skip + size
    } else {
        jobs.len() as int
    };
    if 0 <= lo <= hi {
        jobs.subrange(lo, hi)
    } else {
        Seq::empty()
    }
}

/// The views of a sequence of jobs.
pub open spec fn views_of(jobs: Seq<JobRequest>) -> Seq<JobView> {
    jobs.map_values(|j: JobRequest| j@)
}

/// The capability set every backend must provide.
///
/// A backend models its authoritative job set as a sequence of job
/// values, `jobs()`; each operation's contract states how that model
/// moves. Optional operations default to the documented no-op bodies,
/// so a minimal backend (an in-memory channel with no durability) is
/// trivially implementable; a backend that overrides them must still
/// respect the state machine: each mutation either leaves the model
/// untouched or applies exactly the step the state machine prescribes
/// to the addressed job.
pub trait Storage: Sized {
    /// The authoritative job set, in backend order.
    spec fn jobs(&self) -> Seq<JobView>;

    /// Backend well-formedness, established by construction and kept by
    /// every operation.
    spec fn wf(&self) -> bool;

    /// The lease window (milliseconds) granted on delivery and renewed
    /// by an accepted heartbeat.
    spec fn lease_timeout(&self) -> nat;

    /// Enqueues a new job, `Pending`, with no attempts, not deliverable
    /// before `now + delay`; on success the assigned id is fresh.
    fn push(&mut self, payload: String, now: u64, delay: u64) -> (r: Result<u64, StorageError>)
        requires
            old(self).wf(),
            now + delay <= u64::MAX,
        ensures
            final(self).wf(),
            final(self).lease_timeout() == old(self).lease_timeout(),
            r matches Ok(id) ==> final(self).jobs() == old(self).jobs().push(
                pending_job(id as int, payload@, now + delay),
            ) && fresh_id(old(self).jobs(), id as int),
            r is Err ==> final(self).jobs() == old(self).jobs(),
    ;

    /// Pulls at most one ready job at instant `now`. `Ok(Some(job))`
    /// delivers a job that was deliverable: it becomes `Running`, its
    /// attempts grow by one, and a lease opens until `now +
    /// lease_timeout()`. `Ok(None)` means nothing was ready — not an
    /// error, the caller should poll again after its own delay.
    fn consume(&mut self, now: u64) -> (r: Result<Option<JobRequest>, StorageError>)
        requires
            old(self).wf(),
            now + old(self).lease_timeout() <= u64::MAX,
        ensures
            final(self).wf(),
            final(self).lease_timeout() == old(self).lease_timeout(),
            r matches Ok(Some(job)) ==> exists|i: int|
                0 <= i < old(self).jobs().len() && deliverable(
                    #[trigger] old(self).jobs()[i],
                    now as int,
                ) && job@ == start_step(
                    old(self).jobs()[i],
                    now as int,
                    old(self).lease_timeout() as int,
                    job@.lease_token,
                ) && final(self).jobs() == old(self).jobs().update(i, job@),
            r matches Ok(None) ==> final(self).jobs() == old(self).jobs() && forall|i: int|
                0 <= i < old(self).jobs().len() ==> !deliverable(
                    #[trigger] old(self).jobs()[i],
                    now as int,
                ),
            r is Err ==> final(self).jobs() == old(self).jobs(),
    ;

    /// Best-effort count of the backlog (`Pending` + `Retry` jobs). A
    /// backend that cannot compute it cheaply reports 0: callers must
    /// treat 0 as "unknown or empty", not as a guarantee.
    fn len(&self) -> (r: Result<i64, StorageError>)
        requires
            self.wf(),
        ensures
            r matches Ok(n) ==> n == 0 || n == count_backlog(self.jobs()),
        default_ensures
            r == Ok::<i64, StorageError>(0),
    {
        Ok(0)
    }

    /// Marks success: the addressed `Running` job becomes `Done`. A
    /// backend without persistence may leave its model untouched.
    fn ack(&mut self, job_id: u64) -> (r: Result<(), StorageError>)
        requires
            old(self).wf(),
        ensures
            final(self).wf(),
            final(self).lease_timeout() == old(self).lease_timeout(),
            r is Ok ==> final(self).jobs() == old(self).jobs() || updated_by(
                old(self).jobs(),
                final(self).jobs(),
                job_id as int,
                |j: JobView| ack_step(j),
            ),
            r is Err ==> final(self).jobs() == old(self).jobs(),
        default_ensures
            *final(self) == *old(self) && r is Ok,
    {
        Ok(())
    }

    /// Marks the addressed `Running` job for re-delivery (`Retry`). A
    /// backend without retry tracking may leave its model untouched.
    fn retry(&mut self, job_id: u64) -> (r: Result<(), StorageError>)
        requires
            old(self).wf(),
        ensures
            final(self).wf(),
            final(self).lease_timeout() == old(self).lease_timeout(),
            r is Ok ==> final(self).jobs() == old(self).jobs() || updated_by(
                old(self).jobs(),
                final(self).jobs(),
                job_id as int,
                |j: JobView| retry_step(j),
            ),
            r is Err ==> final(self).jobs() == old(self).jobs(),
        default_ensures
            *final(self) == *old(self) && r is Ok,
    {
        Ok(())
    }

    /// Renews the lease asserted by `beat`. `Ok(false)` tells the
    /// calling worker it has lost ownership and must abort processing.
    /// The default (no liveness tracking) always accepts.
    fn heartbeat(&mut self, beat: Heartbeat) -> (r: Result<bool, StorageError>)
        requires
            old(self).wf(),
            beat.timestamp + old(self).lease_timeout() <= u64::MAX,
        ensures
            final(self).wf(),
            final(self).lease_timeout() == old(self).lease_timeout(),
            r is Ok ==> final(self).jobs() == old(self).jobs() || updated_by(
                old(self).jobs(),
                final(self).jobs(),
                beat.job_id as int,
                |j: JobView| heartbeat_step(
                    j,
                    beat.token as int,
                    beat.timestamp as int,
                    old(self).lease_timeout() as int,
                ),
            ),
            r is Err ==> final(self).jobs() == old(self).jobs(),
        default_ensures
            *final(self) == *old(self) && r == Ok::<bool, StorageError>(true),
    {
        Ok(true)
    }

    /// Marks the addressed `Running` job terminal-failed (`Killed`),
    /// excluded from delivery and from reclaim. A backend without
    /// persistence may leave its model untouched.
    fn kill(&mut self, job_id: u64) -> (r: Result<(), StorageError>)
        requires
            old(self).wf(),
        ensures
            final(self).wf(),
            final(self).lease_timeout() == old(self).lease_timeout(),
            r is Ok ==> final(self).jobs() == old(self).jobs() || updated_by(
                old(self).jobs(),
                final(self).jobs(),
                job_id as int,
                |j: JobView| kill_step(j),
            ),
            r is Err ==> final(self).jobs() == old(self).jobs(),
        default_ensures
            *final(self) == *old(self) && r is Ok,
    {
        Ok(())
    }

    /// Defers the addressed non-terminal job: it returns to `Pending`
    /// and must not be delivered before `now + wait` (milliseconds). A
    /// backend without persistence may leave its model untouched.
    fn reschedule(&mut self, job_id: u64, wait: u64, now: u64) -> (r: Result<(), StorageError>)
        requires
            old(self).wf(),
            now + wait <= u64::MAX,
        ensures
            final(self).wf(),
            final(self).lease_timeout() == old(self).lease_timeout(),
            r is Ok ==> final(self).jobs() == old(self).jobs() || updated_by(
                old(self).jobs(),
                final(self).jobs(),
                job_id as int,
                |j: JobView| reschedule_step(j, now as int, wait as int),
            ),
            r is Err ==> final(self).jobs() == old(self).jobs(),
        default_ensures
            *final(self) == *old(self) && r is Ok,
    {
        Ok(())
    }
}

/// Read-side capability layered on [`Storage`] for operational
/// tooling; not required for job execution. Lookups never alter the
/// job set.
pub trait StorageJobExt: Storage {
    /// The backend-defined page length of `list_by_page`.
    spec fn page_size(&self) -> nat;

    /// Point lookup of one job by id; fails with `NotFound` if absent.
    fn find_by_id(&mut self, job_id: u64) -> (r: Result<JobRequest, StorageError>)
        requires
            old(self).wf(),
        ensures
            final(self).wf(),
            final(self).jobs() == old(self).jobs(),
            final(self).lease_timeout() == old(self).lease_timeout(),
            final(self).page_size() == old(self).page_size(),
            r matches Ok(job) ==> has_id(old(self).jobs(), job_id as int) && job@ == job_with(
                old(self).jobs(),
                job_id as int,
            ),
            r == Err::<JobRequest, StorageError>(StorageError::NotFound) ==> !has_id(
                old(self).jobs(),
                job_id as int,
            ),
    ;

    /// Paginated listing of the jobs in state `status`, in backend
    /// order. Pages are 1-based; a page past the end is an empty
    /// sequence, never an error; a page below 1 is `InvalidArgument`.
    fn list_by_page(&mut self, status: JobState, page: i32) -> (r: Result<
        Vec<JobRequest>,
        StorageError,
    >)
        requires
            old(self).wf(),
        ensures
            final(self).wf(),
            final(self).jobs() == old(self).jobs(),
            final(self).lease_timeout() == old(self).lease_timeout(),
            final(self).page_size() == old(self).page_size(),
            page < 1 ==> r == Err::<Vec<JobRequest>, StorageError>(StorageError::InvalidArgument),
            r matches Ok(v) ==> page >= 1 && views_of(v@) == page_of(
                filter_state(old(self).jobs(), status),
                (page - 1) * old(self).page_size(),
                old(self).page_size() as int,
            ),
    ;
}

} // verus!
