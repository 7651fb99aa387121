use vstd::prelude::*;

use crate::job::{
    ack_step, deliverable, heartbeat_step, is_terminal, kill_step, lease_expired, lease_live,
    pending_job, reclaim_step, reschedule_step, retry_step, start_step, JobState, JobView,
};
use crate::storage::page_of;

verus! {

/// A freshly pushed job is `Pending` with no attempts recorded, and it
/// is not deliverable at any instant before its scheduled time: until
/// `run_at` is due, `consume` cannot return it.
pub proof fn lemma_pushed_job_pending(id: int, payload: Seq<char>, run_at: int, now: int)
    ensures
        pending_job(id, payload, run_at).state == JobState::Pending,
        pending_job(id, payload, run_at).attempts == 0,
        now < run_at ==> !deliverable(pending_job(id, payload, run_at), now),
{
}

/// A delivered job is never stuck: each of the three worker verdicts
/// moves a `Running` job to its outcome (`Done`, `Retry`, `Killed`),
/// and a job whose lease has lapsed is moved out of `Running` by
/// reclaim — re-enqueued while attempts stay under the limit, killed
/// once they reach it. So a job stays `Running` only while its lease
/// is live.
pub proof fn lemma_running_job_resolves(j: JobView, now: int, limit: int)
    requires
        j.state == JobState::Running,
    ensures
        ack_step(j).state == JobState::Done,
        retry_step(j).state == JobState::Retry,
        kill_step(j).state == JobState::Killed,
        lease_expired(j, now) ==> reclaim_step(j, now, limit).state != JobState::Running,
        lease_expired(j, now) && j.attempts < limit ==> reclaim_step(j, now, limit).state
            == JobState::Retry,
        lease_expired(j, now) && j.attempts >= limit ==> reclaim_step(j, now, limit).state
            == JobState::Killed,
        !lease_expired(j, now) ==> now <= j.lease_until,
{
}

/// Per-job exclusivity: a `Running` job is never deliverable, so while
/// one worker holds a live lease no second delivery of the same job
/// can happen; only a verdict, a reschedule or a reclaim makes the job
/// deliverable again.
pub proof fn lemma_running_excluded_from_delivery(j: JobView, now: int)
    requires
        j.state == JobState::Running,
    ensures
        !deliverable(j, now),
{
}

/// Once a timed-out lease has been reclaimed, no heartbeat for that
/// job can succeed: whatever token it presents and at whatever later
/// instant it arrives, the lease is reported lost and the job is left
/// untouched — never a silent renewal.
pub proof fn lemma_heartbeat_after_reclaim(
    j: JobView,
    reclaimed_at: int,
    limit: int,
    token: int,
    later: int,
    lease: int,
)
    requires
        lease_expired(j, reclaimed_at),
    ensures
        !lease_live(reclaim_step(j, reclaimed_at, limit), token, later),
        heartbeat_step(reclaim_step(j, reclaimed_at, limit), token, later, lease) == reclaim_step(
            j,
            reclaimed_at,
            limit,
        ),
{
}

/// A heartbeat renews exactly a live lease, and renewal is idempotent
/// per job: a second heartbeat under the same token within the renewed
/// window leaves the job as the first left it.
pub proof fn lemma_heartbeat_renews(j: JobView, token: int, now: int, lease: int)
    requires
        lease_live(j, token, now),
        lease >= 0,
    ensures
        heartbeat_step(j, token, now, lease).lease_until == now + lease,
        heartbeat_step(j, token, now, lease).state == JobState::Running,
        heartbeat_step(heartbeat_step(j, token, now, lease), token, now, lease) == heartbeat_step(
            j,
            token,
            now,
            lease,
        ),
{
}

/// A rescheduled job waits out its deferral: its scheduled time
/// becomes exactly `now + wait`, so at no instant before that is it
/// deliverable, and from `now + wait` on it is `Pending` and
/// deliverable again.
pub proof fn lemma_reschedule_defers(j: JobView, now: int, wait: int, t: int)
    requires
        !is_terminal(j.state),
    ensures
        reschedule_step(j, now, wait).run_at == now + wait,
        reschedule_step(j, now, wait).state == JobState::Pending,
        t < now + wait ==> !deliverable(reschedule_step(j, now, wait), t),
        t >= now + wait ==> deliverable(reschedule_step(j, now, wait), t),
{
}

/// Acknowledging twice is safe: the second acknowledgement finds the
/// job already `Done` and leaves it exactly as the first left it —
/// the same holds for a repeated retry, kill or reclaim verdict.
pub proof fn lemma_verdicts_idempotent(j: JobView, now: int, limit: int)
    ensures
        ack_step(ack_step(j)) == ack_step(j),
        retry_step(retry_step(j)) == retry_step(j),
        kill_step(kill_step(j)) == kill_step(j),
        reclaim_step(reclaim_step(j, now, limit), now, limit) == reclaim_step(j, now, limit),
{
}

/// Terminal states are stable: no verdict, reclaim, heartbeat or
/// reschedule moves a job out of `Done`, `Killed` or `Failed`.
pub proof fn lemma_terminal_stable(j: JobView, now: int, wait: int, limit: int, token: int, lease: int)
    requires
        is_terminal(j.state),
    ensures
        ack_step(j) == j,
        retry_step(j) == j,
        kill_step(j) == j,
        reschedule_step(j, now, wait) == j,
        reclaim_step(j, now, limit) == j,
        heartbeat_step(j, token, now, lease) == j,
{
}

/// A page that starts at or past the end of the filtered listing is
/// the empty sequence — an out-of-range page is never an error and
/// never wraps around.
pub proof fn lemma_page_past_end_empty(jobs: Seq<JobView>, skip: int, size: int)
    requires
        skip >= jobs.len(),
        size >= 0,
    ensures
        page_of(jobs, skip, size).len() == 0,
{
}

/// No step of the state machine forges or drops a job: its identity
/// and its payload survive delivery, every verdict, a reschedule, a
/// reclaim and a heartbeat — a job can change fate, never owner or
/// content.
pub proof fn lemma_steps_preserve_identity(
    j: JobView,
    now: int,
    lease: int,
    token: int,
    wait: int,
    limit: int,
)
    ensures
        start_step(j, now, lease, token).id == j.id && start_step(
            j,
            now,
            lease,
            token,
        ).payload == j.payload,
        ack_step(j).id == j.id && ack_step(j).payload == j.payload,
        retry_step(j).id == j.id && retry_step(j).payload == j.payload,
        kill_step(j).id == j.id && kill_step(j).payload == j.payload,
        reschedule_step(j, now, wait).id == j.id && reschedule_step(j, now, wait).payload
            == j.payload,
        reclaim_step(j, now, limit).id == j.id && reclaim_step(j, now, limit).payload == j.payload,
        heartbeat_step(j, token, now, lease).id == j.id && heartbeat_step(
            j,
            token,
            now,
            lease,
        ).payload == j.payload,
{
}

/// Delivery counts the attempt: the delivered copy runs under a fresh
/// lease, with one more attempt than the stored job had, and attempts
/// never decrease under any step of the state machine.
pub proof fn lemma_attempts_monotone(j: JobView, now: int, lease: int, token: int, wait: int, limit: int)
    ensures
        start_step(j, now, lease, token).attempts == j.attempts + 1,
        ack_step(j).attempts == j.attempts,
        retry_step(j).attempts == j.attempts,
        kill_step(j).attempts == j.attempts,
        reschedule_step(j, now, wait).attempts == j.attempts,
        reclaim_step(j, now, limit).attempts == j.attempts,
        heartbeat_step(j, token, now, lease).attempts == j.attempts,
{
}

} // verus!
