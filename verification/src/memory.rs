use vstd::prelude::*;

use crate::error::StorageError;
use crate::job::{
    deliverable, pending_job, start_step, ack_step, retry_step, kill_step, reschedule_step,
    heartbeat_step, reclaim_step, lease_live, Heartbeat, JobRequest, JobState, JobView,
};
use crate::storage::{
    count_backlog, filter_state, has_id, job_with, page_of, updated_by, views_of, Storage,
    StorageJobExt,
};

verus! {

/// A fully specified backend holding its jobs in memory.
///
/// It is the reference implementation of the storage contract: strict
/// (unknown ids are `NotFound`), FIFO by push order, with full lease
/// tracking — a delivered job carries a fencing token, heartbeats renew
/// only a live lease, and [`MemoryStorage::reclaim`] recovers jobs
/// whose lease expired without renewal.
pub struct MemoryStorage {
    entries: Vec<JobRequest>,
    next_id: u64,
    next_token: u64,
    lease_ms: u64,
    attempt_cap: u64,
    page_cap: u64,
}

impl MemoryStorage {
    /// The id the next pushed job will receive.
    pub closed spec fn ids_used(&self) -> int {
        self.next_id as int
    }

    /// The fencing token the next delivery will mint.
    pub closed spec fn tokens_used(&self) -> int {
        self.next_token as int
    }

    /// How many delivery attempts reclaim allows before it kills a job.
    pub closed spec fn retry_limit(&self) -> int {
        self.attempt_cap as int
    }

    /// Room is left for one more id, one more token and one more entry.
    pub open spec fn has_capacity(&self) -> bool {
        &&& self.ids_used() < u64::MAX
        &&& self.tokens_used() < u64::MAX
        &&& self.jobs().len() < i64::MAX
    }

    /// Creates an empty backend.
    ///
    /// `lease_ms` is the lease window granted on delivery; `max_attempts`
    /// bounds how often reclaim re-enqueues a job before killing it;
    /// `page_size` is the page length of `list_by_page`, at least 1 and
    /// small enough that a page offset fits the machine.
    pub fn new(lease_ms: u64, max_attempts: u64, page_size: u64) -> (r: MemoryStorage)
        requires
            1 <= page_size <= u32::MAX,
        ensures
            r.wf(),
            r.jobs() == Seq::<JobView>::empty(),
            r.lease_timeout() == lease_ms as nat,
            r.retry_limit() == max_attempts as int,
            r.page_size() == page_size as nat,
            r.ids_used() == 0,
            r.tokens_used() == 0,
    {
        let r = MemoryStorage {
            entries: Vec::new(),
            next_id: 0,
            next_token: 0,
            lease_ms: lease_ms,
            attempt_cap: max_attempts,
            page_cap: page_size,
        };
        proof {
            assert(r.jobs() =~= Seq::<JobView>::empty());
        }
        r
    }

    /// Reclaims every job whose lease has expired at `now`: each
    /// `Running` job not heartbeaten past `now` returns to `Retry`
    /// while its attempts stay under the retry limit, and is `Killed`
    /// once they reach it. Every other job is left untouched.
    #[verifier::loop_isolation(false)]
    pub fn reclaim(&mut self, now: u64)
        requires
            old(self).wf(),
        ensures
            final(self).wf(),
            final(self).lease_timeout() == old(self).lease_timeout(),
            final(self).retry_limit() == old(self).retry_limit(),
            final(self).page_size() == old(self).page_size(),
            final(self).ids_used() == old(self).ids_used(),
            final(self).tokens_used() == old(self).tokens_used(),
            final(self).jobs().len() == old(self).jobs().len(),
            forall|i: int|
                0 <= i < old(self).jobs().len() ==> (#[trigger] final(self).jobs()[i])
                    == reclaim_step(old(self).jobs()[i], now as int, old(self).retry_limit()),
    {
        let n = self.entries.len();
        let mut i: usize = 0;
        while i < n
            invariant
                n == self.entries@.len(),
                0 <= i <= n,
                self.next_id == old(self).next_id,
                self.next_token == old(self).next_token,
                self.lease_ms == old(self).lease_ms,
                self.attempt_cap == old(self).attempt_cap,
                self.page_cap == old(self).page_cap,
                forall|k: int|
                    i <= k < n ==> (#[trigger] self.jobs()[k]) == old(self).jobs()[k],
                forall|k: int|
                    0 <= k < i ==> (#[trigger] self.jobs()[k]) == reclaim_step(
                        old(self).jobs()[k],
                        now as int,
                        old(self).retry_limit(),
                    ),
            decreases n - i,
        {
            let expired = self.entries[i].state == JobState::Running && self.entries[i].lease_until
                < now;
            if expired {
                let mut job = self.entries[i].clone();
                proof {
                    assert(job@ == self.jobs()[i as int]);
                }
                if job.attempts < self.attempt_cap {
                    job.state = JobState::Retry;
                } else {
                    job.state = JobState::Killed;
                }
                proof {
                    assert(job@ == reclaim_step(
                        old(self).jobs()[i as int],
                        now as int,
                        old(self).retry_limit(),
                    ));
                }
                let ghost prev = self.jobs();
                self.entries[i] = job;
                proof {
                    assert(self.jobs() =~= prev.update(i as int, job@));
                }
            } else {
                proof {
                    assert(self.jobs()[i as int] == reclaim_step(
                        old(self).jobs()[i as int],
                        now as int,
                        old(self).retry_limit(),
                    ));
                }
            }
            i = i + 1;
        }
        proof {
            assert forall|k: int| 0 <= k < n implies (#[trigger] self.entries@[k])@ == reclaim_step(
                old(self).entries@[k]@,
                now as int,
                old(self).retry_limit(),
            ) by {
                assert(self.jobs()[k] == self.entries@[k]@);
                assert(old(self).jobs()[k] == old(self).entries@[k]@);
            }
        }
    }
}

impl Storage for MemoryStorage {
    closed spec fn jobs(&self) -> Seq<JobView> {
        views_of(self.entries@)
    }

    closed spec fn wf(&self) -> bool {
        &&& forall|i: int|
            0 <= i < self.entries@.len() ==> (#[trigger] self.entries@[i])@.id < self.next_id
        &&& forall|i: int, k: int|
            0 <= i < k < self.entries@.len() ==> self.entries@[i]@.id != self.entries@[k]@.id
        &&& forall|i: int|
            0 <= i < self.entries@.len() ==> (#[trigger] self.entries@[i])@.state
                == JobState::Running ==> self.entries@[i]@.lease_token < self.next_token
        &&& forall|i: int|
            0 <= i < self.entries@.len() ==> (#[trigger] self.entries@[i])@.attempts
                <= self.next_token
        &&& 1 <= self.page_cap <= u32::MAX
        &&& self.entries@.len() <= i64::MAX
    }

    closed spec fn lease_timeout(&self) -> nat {
        self.lease_ms as nat
    }

    fn push(&mut self, payload: String, now: u64, delay: u64) -> (r: Result<u64, StorageError>)
        ensures
            final(self).retry_limit() == old(self).retry_limit(),
            final(self).page_size() == old(self).page_size(),
            final(self).tokens_used() == old(self).tokens_used(),
            old(self).has_capacity() ==> r == Ok::<u64, StorageError>(old(self).ids_used() as u64)
                && final(self).ids_used() == old(self).ids_used() + 1,
            !old(self).has_capacity() ==> r == Err::<u64, StorageError>(
                StorageError::BackendUnavailable,
            ) && *final(self) == *old(self),
    {
        if self.next_id == u64::MAX || self.next_token == u64::MAX || self.entries.len() as u64
            >= 0x7fff_ffff_ffff_ffffu64 {
            return Err(StorageError::BackendUnavailable);
        }
        let id = self.next_id;
        let job = JobRequest {
            id: id,
            payload: payload,
            state: JobState::Pending,
            attempts: 0,
            last_error: None,
            run_at: now + delay,
            lease_until: 0,
            lease_token: 0,
        };
        let ghost pre = self.entries@;
        self.entries.push(job);
        self.next_id = id + 1;
        proof {
            assert(self.jobs() =~= views_of(pre).push(
                pending_job(id as int, payload@, now + delay),
            ));
        }
        Ok(id)
    }

    #[verifier::loop_isolation(false)]
    fn consume(&mut self, now: u64) -> (r: Result<Option<JobRequest>, StorageError>)
        ensures
            final(self).retry_limit() == old(self).retry_limit(),
            final(self).page_size() == old(self).page_size(),
            final(self).ids_used() == old(self).ids_used(),
            old(self).tokens_used() < u64::MAX ==> r is Ok,
            r matches Ok(Some(job)) ==> final(self).tokens_used() == old(self).tokens_used() + 1
                && job@.lease_token == old(self).tokens_used(),
            r matches Ok(Some(job)) ==> exists|i: int|
                0 <= i < old(self).jobs().len() && deliverable(
                    #[trigger] old(self).jobs()[i],
                    now as int,
                ) && (forall|k: int|
                    0 <= k < i ==> !deliverable(#[trigger] old(self).jobs()[k], now as int))
                    && job@ == start_step(
                    old(self).jobs()[i],
                    now as int,
                    old(self).lease_timeout() as int,
                    old(self).tokens_used(),
                ) && final(self).jobs() == old(self).jobs().update(i, job@),
            r matches Ok(None) ==> *final(self) == *old(self),
            r is Err ==> r == Err::<Option<JobRequest>, StorageError>(
                StorageError::BackendUnavailable,
            ) && *final(self) == *old(self) && old(self).tokens_used() == u64::MAX,
    {
        if self.next_token == u64::MAX {
            return Err(StorageError::BackendUnavailable);
        }
        let ghost pre = *self;
        let n = self.entries.len();
        let mut i: usize = 0;
        while i < n
            invariant
                *self == pre,
                n == self.entries@.len(),
                0 <= i <= n,
                forall|k: int| 0 <= k < i ==> !deliverable(#[trigger] self.jobs()[k], now as int),
            decreases n - i,
        {
            let st = self.entries[i].state;
            if (st == JobState::Pending || st == JobState::Retry) && self.entries[i].run_at <= now {
                let token = self.next_token;
                let mut job = self.entries[i].clone();
                proof {
                    assert(job@ == self.jobs()[i as int]);
                    assert(deliverable(pre.jobs()[i as int], now as int));
                }
                job.state = JobState::Running;
                job.attempts = job.attempts + 1;
                job.lease_until = now + self.lease_ms;
                job.lease_token = token;
                let delivered = job.clone();
                self.entries[i] = job;
                self.next_token = token + 1;
                proof {
                    assert(delivered@ == start_step(
                        pre.jobs()[i as int],
                        now as int,
                        pre.lease_timeout() as int,
                        token as int,
                    ));
                    assert(self.jobs() =~= pre.jobs().update(i as int, delivered@));
                }
                return Ok(Some(delivered));
            }
            proof {
                assert(!deliverable(self.jobs()[i as int], now as int));
            }
            i = i + 1;
        }
        Ok(None)
    }

    #[verifier::loop_isolation(false)]
    fn len(&self) -> (r: Result<i64, StorageError>)
        ensures
            r == Ok::<i64, StorageError>(count_backlog(self.jobs()) as i64),
    {
        let n = self.entries.len();
        let mut count: u64 = 0;
        let mut i: usize = 0;
        while i < n
            invariant
                n == self.entries@.len(),
                0 <= i <= n,
                n <= i64::MAX,
                count == count_backlog(self.jobs().take(i as int)),
                count <= i,
            decreases n - i,
        {
            let st = self.entries[i].state;
            proof {
                assert(self.jobs().take(i as int + 1).drop_last() =~= self.jobs().take(i as int));
                assert(self.jobs().take(i as int + 1).last() == self.jobs()[i as int]);
            }
            if st == JobState::Pending || st == JobState::Retry {
                count = count + 1;
            }
            i = i + 1;
        }
        proof {
            assert(self.jobs().take(n as int) =~= self.jobs());
        }
        Ok(count as i64)
    }

    #[verifier::loop_isolation(false)]
    fn ack(&mut self, job_id: u64) -> (r: Result<(), StorageError>)
        ensures
            final(self).retry_limit() == old(self).retry_limit(),
            final(self).page_size() == old(self).page_size(),
            final(self).ids_used() == old(self).ids_used(),
            final(self).tokens_used() == old(self).tokens_used(),
            has_id(old(self).jobs(), job_id as int) ==> r == Ok::<(), StorageError>(())
                && updated_by(
                old(self).jobs(),
                final(self).jobs(),
                job_id as int,
                |j: JobView| ack_step(j),
            ),
            !has_id(old(self).jobs(), job_id as int) ==> r == Err::<(), StorageError>(
                StorageError::NotFound,
            ) && *final(self) == *old(self),
    {
        let ghost pre = *self;
        let n = self.entries.len();
        let mut i: usize = 0;
        while i < n
            invariant
                *self == pre,
                n == self.entries@.len(),
                0 <= i <= n,
                forall|k: int| 0 <= k < i ==> (#[trigger] self.jobs()[k]).id != job_id as int,
            decreases n - i,
        {
            if self.entries[i].id == job_id {
                let mut job = self.entries[i].clone();
                if job.state == JobState::Running {
                    job.state = JobState::Done;
                }
                proof {
                    assert(job@ == ack_step(pre.jobs()[i as int]));
                }
                self.entries[i] = job;
                proof {
                    assert(pre.wf());
                    assert forall|k: int| 0 <= k < pre.jobs().len() implies (#[trigger] self.jobs()[k])
                        == (if pre.jobs()[k].id == job_id as int {
                        ack_step(pre.jobs()[k])
                    } else {
                        pre.jobs()[k]
                    }) by {
                        if k != i as int {
                            assert(pre.entries@[k]@.id != pre.entries@[i as int]@.id);
                        }
                    }
                }
                return Ok(());
            }
            i = i + 1;
        }
        Err(StorageError::NotFound)
    }

    #[verifier::loop_isolation(false)]
    fn retry(&mut self, job_id: u64) -> (r: Result<(), StorageError>)
        ensures
            final(self).retry_limit() == old(self).retry_limit(),
            final(self).page_size() == old(self).page_size(),
            final(self).ids_used() == old(self).ids_used(),
            final(self).tokens_used() == old(self).tokens_used(),
            has_id(old(self).jobs(), job_id as int) ==> r == Ok::<(), StorageError>(())
                && updated_by(
                old(self).jobs(),
                final(self).jobs(),
                job_id as int,
                |j: JobView| retry_step(j),
            ),
            !has_id(old(self).jobs(), job_id as int) ==> r == Err::<(), StorageError>(
                StorageError::NotFound,
            ) && *final(self) == *old(self),
    {
        let ghost pre = *self;
        let n = self.entries.len();
        let mut i: usize = 0;
        while i < n
            invariant
                *self == pre,
                n == self.entries@.len(),
                0 <= i <= n,
                forall|k: int| 0 <= k < i ==> (#[trigger] self.jobs()[k]).id != job_id as int,
            decreases n - i,
        {
            if self.entries[i].id == job_id {
                let mut job = self.entries[i].clone();
                if job.state == JobState::Running {
                    job.state = JobState::Retry;
                }
                proof {
                    assert(job@ == retry_step(pre.jobs()[i as int]));
                }
                self.entries[i] = job;
                proof {
                    assert forall|k: int| 0 <= k < pre.jobs().len() implies (#[trigger] self.jobs()[k])
                        == (if pre.jobs()[k].id == job_id as int {
                        retry_step(pre.jobs()[k])
                    } else {
                        pre.jobs()[k]
                    }) by {
                        if k != i as int {
                            assert(pre.entries@[k]@.id != pre.entries@[i as int]@.id);
                        }
                    }
                }
                return Ok(());
            }
            i = i + 1;
        }
        Err(StorageError::NotFound)
    }

    #[verifier::loop_isolation(false)]
    fn heartbeat(&mut self, beat: Heartbeat) -> (r: Result<bool, StorageError>)
        ensures
            final(self).retry_limit() == old(self).retry_limit(),
            final(self).page_size() == old(self).page_size(),
            final(self).ids_used() == old(self).ids_used(),
            final(self).tokens_used() == old(self).tokens_used(),
            has_id(old(self).jobs(), beat.job_id as int) ==> r == Ok::<bool, StorageError>(
                lease_live(
                    job_with(old(self).jobs(), beat.job_id as int),
                    beat.token as int,
                    beat.timestamp as int,
                ),
            ) && updated_by(
                old(self).jobs(),
                final(self).jobs(),
                beat.job_id as int,
                |j: JobView| heartbeat_step(
                    j,
                    beat.token as int,
                    beat.timestamp as int,
                    old(self).lease_timeout() as int,
                ),
            ),
            !has_id(old(self).jobs(), beat.job_id as int) ==> r == Err::<bool, StorageError>(
                StorageError::NotFound,
            ) && *final(self) == *old(self),
    {
        let ghost pre = *self;
        let n = self.entries.len();
        let mut i: usize = 0;
        while i < n
            invariant
                *self == pre,
                n == self.entries@.len(),
                0 <= i <= n,
                forall|k: int| 0 <= k < i ==> (#[trigger] self.jobs()[k]).id != beat.job_id as int,
            decreases n - i,
        {
            if self.entries[i].id == beat.job_id {
                proof {
                    assert(has_id(pre.jobs(), beat.job_id as int));
                    assert forall|k: int|
                        0 <= k < pre.jobs().len() && (#[trigger] pre.jobs()[k]).id
                            == beat.job_id as int implies k == i as int by {
                        if k != i as int {
                            assert(pre.entries@[k]@.id != pre.entries@[i as int]@.id);
                        }
                    }
                    assert(job_with(pre.jobs(), beat.job_id as int) == pre.jobs()[i as int]);
                }
                let live = self.entries[i].state == JobState::Running && self.entries[i].lease_token
                    == beat.token && beat.timestamp <= self.entries[i].lease_until;
                if live {
                    let mut job = self.entries[i].clone();
                    job.lease_until = beat.timestamp + self.lease_ms;
                    proof {
                        assert(job@ == heartbeat_step(
                            pre.jobs()[i as int],
                            beat.token as int,
                            beat.timestamp as int,
                            pre.lease_timeout() as int,
                        ));
                    }
                    self.entries[i] = job;
                }
                proof {
                    assert forall|k: int| 0 <= k < pre.jobs().len() implies (#[trigger] self.jobs()[k])
                        == (if pre.jobs()[k].id == beat.job_id as int {
                        heartbeat_step(
                            pre.jobs()[k],
                            beat.token as int,
                            beat.timestamp as int,
                            pre.lease_timeout() as int,
                        )
                    } else {
                        pre.jobs()[k]
                    }) by {
                        if k != i as int {
                            assert(pre.entries@[k]@.id != pre.entries@[i as int]@.id);
                        }
                    }
                }
                return Ok(live);
            }
            i = i + 1;
        }
        Err(StorageError::NotFound)
    }

    #[verifier::loop_isolation(false)]
    fn kill(&mut self, job_id: u64) -> (r: Result<(), StorageError>)
        ensures
            final(self).retry_limit() == old(self).retry_limit(),
            final(self).page_size() == old(self).page_size(),
            final(self).ids_used() == old(self).ids_used(),
            final(self).tokens_used() == old(self).tokens_used(),
            has_id(old(self).jobs(), job_id as int) ==> r == Ok::<(), StorageError>(())
                && updated_by(
                old(self).jobs(),
                final(self).jobs(),
                job_id as int,
                |j: JobView| kill_step(j),
            ),
            !has_id(old(self).jobs(), job_id as int) ==> r == Err::<(), StorageError>(
                StorageError::NotFound,
            ) && *final(self) == *old(self),
    {
        let ghost pre = *self;
        let n = self.entries.len();
        let mut i: usize = 0;
        while i < n
            invariant
                *self == pre,
                n == self.entries@.len(),
                0 <= i <= n,
                forall|k: int| 0 <= k < i ==> (#[trigger] self.jobs()[k]).id != job_id as int,
            decreases n - i,
        {
            if self.entries[i].id == job_id {
                let mut job = self.entries[i].clone();
                if job.state == JobState::Running {
                    job.state = JobState::Killed;
                }
                proof {
                    assert(job@ == kill_step(pre.jobs()[i as int]));
                }
                self.entries[i] = job;
                proof {
                    assert forall|k: int| 0 <= k < pre.jobs().len() implies (#[trigger] self.jobs()[k])
                        == (if pre.jobs()[k].id == job_id as int {
                        kill_step(pre.jobs()[k])
                    } else {
                        pre.jobs()[k]
                    }) by {
                        if k != i as int {
                            assert(pre.entries@[k]@.id != pre.entries@[i as int]@.id);
                        }
                    }
                }
                return Ok(());
            }
            i = i + 1;
        }
        Err(StorageError::NotFound)
    }

    #[verifier::loop_isolation(false)]
    fn reschedule(&mut self, job_id: u64, wait: u64, now: u64) -> (r: Result<(), StorageError>)
        ensures
            final(self).retry_limit() == old(self).retry_limit(),
            final(self).page_size() == old(self).page_size(),
            final(self).ids_used() == old(self).ids_used(),
            final(self).tokens_used() == old(self).tokens_used(),
            has_id(old(self).jobs(), job_id as int) ==> r == Ok::<(), StorageError>(())
                && updated_by(
                old(self).jobs(),
                final(self).jobs(),
                job_id as int,
                |j: JobView| reschedule_step(j, now as int, wait as int),
            ),
            !has_id(old(self).jobs(), job_id as int) ==> r == Err::<(), StorageError>(
                StorageError::NotFound,
            ) && *final(self) == *old(self),
    {
        let ghost pre = *self;
        let n = self.entries.len();
        let mut i: usize = 0;
        while i < n
            invariant
                *self == pre,
                n == self.entries@.len(),
                0 <= i <= n,
                forall|k: int| 0 <= k < i ==> (#[trigger] self.jobs()[k]).id != job_id as int,
            decreases n - i,
        {
            if self.entries[i].id == job_id {
                let mut job = self.entries[i].clone();
                let st = job.state;
                if st == JobState::Pending || st == JobState::Retry || st == JobState::Running {
                    job.state = JobState::Pending;
                    job.run_at = now + wait;
                }
                proof {
                    assert(job@ == reschedule_step(pre.jobs()[i as int], now as int, wait as int));
                }
                self.entries[i] = job;
                proof {
                    assert forall|k: int| 0 <= k < pre.jobs().len() implies (#[trigger] self.jobs()[k])
                        == (if pre.jobs()[k].id == job_id as int {
                        reschedule_step(pre.jobs()[k], now as int, wait as int)
                    } else {
                        pre.jobs()[k]
                    }) by {
                        if k != i as int {
                            assert(pre.entries@[k]@.id != pre.entries@[i as int]@.id);
                        }
                    }
                }
                return Ok(());
            }
            i = i + 1;
        }
        Err(StorageError::NotFound)
    }
}

impl StorageJobExt for MemoryStorage {
    closed spec fn page_size(&self) -> nat {
        self.page_cap as nat
    }

    #[verifier::loop_isolation(false)]
    fn find_by_id(&mut self, job_id: u64) -> (r: Result<JobRequest, StorageError>)
        ensures
            *final(self) == *old(self),
            has_id(old(self).jobs(), job_id as int) <==> r is Ok,
            !has_id(old(self).jobs(), job_id as int) ==> r == Err::<JobRequest, StorageError>(
                StorageError::NotFound,
            ),
    {
        let ghost pre = *self;
        let n = self.entries.len();
        let mut i: usize = 0;
        while i < n
            invariant
                *self == pre,
                n == self.entries@.len(),
                0 <= i <= n,
                forall|k: int| 0 <= k < i ==> (#[trigger] self.jobs()[k]).id != job_id as int,
            decreases n - i,
        {
            if self.entries[i].id == job_id {
                proof {
                    assert(has_id(pre.jobs(), job_id as int));
                    assert forall|k: int|
                        0 <= k < pre.jobs().len() && (#[trigger] pre.jobs()[k]).id
                            == job_id as int implies k == i as int by {
                        if k != i as int {
                            assert(pre.entries@[k]@.id != pre.entries@[i as int]@.id);
                        }
                    }
                    assert(job_with(pre.jobs(), job_id as int) == pre.jobs()[i as int]);
                }
                return Ok(self.entries[i].clone());
            }
            i = i + 1;
        }
        Err(StorageError::NotFound)
    }

    #[verifier::loop_isolation(false)]
    fn list_by_page(&mut self, status: JobState, page: i32) -> (r: Result<
        Vec<JobRequest>,
        StorageError,
    >)
        ensures
            *final(self) == *old(self),
            page >= 1 ==> r is Ok,
    {
        if page < 1 {
            return Err(StorageError::InvalidArgument);
        }
        let ghost pre = *self;
        let size = self.page_cap;
        let pm1: u64 = (page - 1) as u64;
        proof {
            assert(pm1 as int * size as int <= 0x7fff_ffffint * 0xffff_ffffint)
                by (nonlinear_arith)
                requires
                    0 <= pm1 as int <= 0x7fff_ffffint,
                    0 <= size as int <= 0xffff_ffffint,
            ;
        }
        let skip: u64 = pm1 * size;
        proof {
            assert(skip == ((page - 1) as int) * (pre.page_size() as int));
        }
        let n = self.entries.len();
        let mut matched: Vec<JobRequest> = Vec::new();
        let mut i: usize = 0;
        while i < n
            invariant
                *self == pre,
                n == self.entries@.len(),
                0 <= i <= n,
                views_of(matched@) == filter_state(self.jobs().take(i as int), status),
            decreases n - i,
        {
            proof {
                assert(self.jobs().take(i as int + 1).drop_last() =~= self.jobs().take(i as int));
                assert(self.jobs().take(i as int + 1).last() == self.jobs()[i as int]);
            }
            if self.entries[i].state == status {
                let ghost before = matched@;
                matched.push(self.entries[i].clone());
                proof {
                    assert(views_of(matched@) =~= views_of(before).push(self.jobs()[i as int]));
                }
            }
            i = i + 1;
        }
        proof {
            assert(self.jobs().take(n as int) =~= self.jobs());
        }
        let total = matched.len();
        let lo: usize = if skip >= total as u64 {
            total
        } else {
            skip as usize
        };
        let room: u64 = total as u64 - lo as u64;
        let width: usize = if size >= room {
            room as usize
        } else {
            size as usize
        };
        let mut out: Vec<JobRequest> = Vec::new();
        let mut k: usize = lo;
        while k < lo + width
            invariant
                lo <= k <= lo + width,
                lo + width <= matched@.len(),
                views_of(out@) == views_of(matched@).subrange(lo as int, k as int),
            decreases lo + width - k,
        {
            let ghost before = out@;
            out.push(matched[k].clone());
            proof {
                assert(views_of(out@) =~= views_of(before).push(matched@[k as int]@));
                assert(views_of(matched@)[k as int] == matched@[k as int]@);
                assert(views_of(out@) =~= views_of(matched@).subrange(lo as int, k as int + 1));
            }
            k = k + 1;
        }
        proof {
            assert(views_of(matched@) == filter_state(pre.jobs(), status));
            assert(views_of(out@) =~= page_of(
                filter_state(pre.jobs(), status),
                skip as int,
                pre.page_size() as int,
            ));
        }
        Ok(out)
    }
}

} // verus!
