//! Laws of the memory jobs: who may claim, renew, finish and fail them, told in the fields of the
//! jobs and outputs before and after.

use super::stage1::other_live_jobs;
use super::stage1::OtherLiveJobs;
use super::MemoryJob;
use super::MemoryJobStatus;
use super::MemoryJobView;
use super::MemoryStore;
use super::MemoryStoreError;
use super::MemoryStoreView;
use super::Phase2JobClaimOutcome;
use super::Stage1Job;
use super::Stage1JobClaimOutcome;
use crate::table::selected;
use crate::thread_id::ThreadId;
use vstd::prelude::*;

verus! {

/// At `now` the job runs for the holder of `token`.
pub open spec fn runs_for(job: MemoryJobView, token: Seq<char>, now: i64) -> bool {
    &&& job.status == MemoryJobStatus::Running
    &&& job.ownership_token == Some(token)
    &&& job.lease_until is Some
    &&& job.lease_until->0 > now
}

/// `seconds` after `now`; negative seconds count as none.
pub open spec fn seconds_after(now: i64, seconds: i64) -> int {
    now + if seconds > 0 {
        seconds as int
    } else {
        0
    }
}

/// The threads other than `thread_id` whose jobs run at `now`.
pub open spec fn running_elsewhere(state: MemoryStoreView, thread_id: ThreadId, now: i64) -> Set<ThreadId> {
    state.jobs.dom().filter(
        |other: ThreadId|
            {
                &&& other != thread_id
                &&& state.jobs[other].job.status == MemoryJobStatus::Running
                &&& state.jobs[other].job.lease_until is Some
                &&& state.jobs[other].job.lease_until->0 > now
            },
    )
}

pub(super) proof fn lemma_running_elsewhere(state: MemoryStoreView, thread_id: ThreadId, now: i64)
    requires
        state.keyed(),
    ensures
        other_live_jobs(state, thread_id, now) == running_elsewhere(state, thread_id, now).len(),
{
    assert(selected::<Stage1Job, OtherLiveJobs>(state.jobs, OtherLiveJobs { thread_id, now }).dom() =~= running_elsewhere(state, thread_id, now));
}

/// The job of a thread is claimed unless one of these holds, which are asked in this order: an output
/// or a success covers the source; the job runs; the source is not newer than the last attempt and
/// its attempts are used up, or the next one has to wait; too many other jobs run.
pub proof fn law_claim_of_a_threads_job(
    store: &mut MemoryStore,
    thread_id: ThreadId,
    worker_id: ThreadId,
    token: String,
    source_updated_at: i64,
    lease_seconds: i64,
    max_running_jobs: usize,
    now: i64,
    outcome: Stage1JobClaimOutcome,
)
    requires
        call_ensures(
            MemoryStore::try_claim_stage1_job_as,
            (store, thread_id, worker_id, token, source_updated_at, lease_seconds, max_running_jobs, now),
            Ok::<Stage1JobClaimOutcome, MemoryStoreError>(outcome),
        ),
        old(store)@.keyed(),
    ensures
        ({
            let before = old(store)@;
            let known = before.jobs.contains_key(thread_id);
            let job = before.jobs[thread_id].job;
            let covered = {
                ||| before.outputs.contains_key(thread_id) && before.outputs[thread_id].source_updated_at >= source_updated_at
                ||| known && job.last_success_watermark is Some && job.last_success_watermark->0 >= source_updated_at
            };
            let running = known && job.status == MemoryJobStatus::Running && job.lease_until is Some && job.lease_until->0 > now;
            let tried = known && job.input_watermark is Some && job.input_watermark->0 >= source_updated_at;
            let exhausted = tried && job.retry_remaining <= 0;
            let waiting = tried && job.retry_at is Some && job.retry_at->0 > now;
            let crowded = running_elsewhere(before, thread_id, now).len() >= max_running_jobs;
            &&& outcome is SkippedUpToDate <==> covered
            &&& outcome is SkippedRunning <==> !covered && (running || !exhausted && !waiting && crowded)
            &&& outcome is SkippedRetryExhausted <==> !covered && !running && exhausted
            &&& outcome is SkippedRetryBackoff <==> !covered && !running && !exhausted && waiting
            &&& outcome is Claimed <==> !covered && !running && !exhausted && !waiting && !crowded
            &&& !(outcome is Claimed) ==> final(store)@ == before
        }),
{
    lemma_running_elsewhere(old(store)@, thread_id, now);
}

/// A claimed job runs for the claimant under its token, for as long as was asked. A source newer
/// than the last attempt has three attempts; another one has what was left of them.
pub proof fn law_claimed_job_runs_for_the_claimant(
    store: &mut MemoryStore,
    thread_id: ThreadId,
    worker_id: ThreadId,
    token: String,
    source_updated_at: i64,
    lease_seconds: i64,
    max_running_jobs: usize,
    now: i64,
    outcome: Stage1JobClaimOutcome,
)
    requires
        call_ensures(
            MemoryStore::try_claim_stage1_job_as,
            (store, thread_id, worker_id, token, source_updated_at, lease_seconds, max_running_jobs, now),
            Ok::<Stage1JobClaimOutcome, MemoryStoreError>(outcome),
        ),
        outcome is Claimed,
    ensures
        outcome->Claimed_ownership_token@ == token@,
        final(store)@.jobs.contains_key(thread_id),
        ({
            let before = old(store)@;
            let after = final(store)@.jobs[thread_id].job;
            &&& final(store)@.jobs[thread_id].thread_id == thread_id
            &&& after.status == MemoryJobStatus::Running
            &&& after.worker_id == Some(worker_id)
            &&& after.ownership_token == Some(token@)
            &&& after.started_at == Some(now)
            &&& after.finished_at is None
            &&& after.retry_at is None
            &&& after.last_error is None
            &&& after.input_watermark == Some(source_updated_at)
            &&& after.lease_until is Some
            &&& seconds_after(now, lease_seconds) <= i64::MAX ==> after.lease_until->0 == seconds_after(now, lease_seconds)
            &&& seconds_after(now, lease_seconds) > i64::MAX ==> after.lease_until->0 == i64::MAX
            &&& !before.jobs.contains_key(thread_id) ==> after.retry_remaining == 3 && after.last_success_watermark is None
            &&& before.jobs.contains_key(thread_id) ==> after.last_success_watermark == before.jobs[thread_id].job.last_success_watermark
            &&& before.jobs.contains_key(thread_id) && before.jobs[thread_id].job.input_watermark is Some ==> after.retry_remaining == (if source_updated_at
                > before.jobs[thread_id].job.input_watermark->0 {
                3
            } else {
                before.jobs[thread_id].job.retry_remaining
            })
            &&& before.jobs.contains_key(thread_id) && before.jobs[thread_id].job.input_watermark is None && source_updated_at >= 0 ==> after.retry_remaining == 3
            &&& before.jobs.contains_key(thread_id) && before.jobs[thread_id].job.input_watermark is None && source_updated_at < 0 ==> after.retry_remaining
                == before.jobs[thread_id].job.retry_remaining
        }),
        forall|other: ThreadId| other != thread_id && #[trigger] old(store)@.jobs.contains_key(other) ==> final(store)@.jobs.contains_key(other) && final(store)@.jobs[other]
            == old(store)@.jobs[other],
        final(store)@.outputs == old(store)@.outputs,
        final(store)@.global_job == old(store)@.global_job,
        final(store)@.generations == old(store)@.generations,
{
}

/// Under a fresh token a job is claimed as under a given one, and an unclaimed job stays as it was.
pub proof fn law_claim_under_a_fresh_token(
    store: &mut MemoryStore,
    thread_id: ThreadId,
    worker_id: ThreadId,
    source_updated_at: i64,
    lease_seconds: i64,
    max_running_jobs: usize,
    now: i64,
    result: Result<Stage1JobClaimOutcome, MemoryStoreError>,
)
    requires
        call_ensures(MemoryStore::try_claim_stage1_job, (store, thread_id, worker_id, source_updated_at, lease_seconds, max_running_jobs, now), result),
    ensures
        result is Err <==> old(store)@.closed,
        result is Ok && result->Ok_0 is Claimed ==> {
            let after = final(store)@.jobs[thread_id].job;
            &&& after.status == MemoryJobStatus::Running
            &&& after.worker_id == Some(worker_id)
            &&& after.ownership_token == Some(result->Ok_0->Claimed_ownership_token@)
            &&& after.input_watermark == Some(source_updated_at)
            &&& after.started_at == Some(now)
            &&& old(store)@.jobs.contains_key(thread_id) && old(store)@.jobs[thread_id].job.status == MemoryJobStatus::Running ==> old(store)@.jobs[thread_id].job.lease_until is None || old(store)@.jobs[thread_id].job.lease_until->0 <= now
        },
        !(result is Ok && result->Ok_0 is Claimed) ==> final(store)@ == old(store)@,
{
}

/// A success with an output that is not older than the stored one, or where none is stored, leaves
/// exactly what was given as the output of the thread. How often the stored one was used, and
/// whether it was selected, stays known. An older one leaves the stored one as it is.
pub proof fn law_success_stores_what_was_given(
    store: &mut MemoryStore,
    thread_id: ThreadId,
    token: &str,
    source_updated_at: i64,
    raw_memory: &str,
    rollout_summary: &str,
    rollout_slug: Option<&str>,
    now: i64,
    result: Result<bool, MemoryStoreError>,
)
    requires
        call_ensures(
            MemoryStore::mark_stage1_job_succeeded,
            (store, thread_id, token, source_updated_at, raw_memory, rollout_summary, rollout_slug, now),
            result,
        ),
        old(store)@.keyed(),
        result == Ok::<bool, MemoryStoreError>(true),
    ensures
        final(store)@.outputs.contains_key(thread_id),
        !old(store)@.outputs.contains_key(thread_id) || source_updated_at >= old(store)@.outputs[thread_id].source_updated_at ==> {
            let output = final(store)@.outputs[thread_id];
            &&& output.thread_id == thread_id
            &&& output.source_updated_at == source_updated_at
            &&& output.raw_memory == raw_memory@
            &&& output.rollout_summary == rollout_summary@
            &&& output.rollout_slug is Some <==> rollout_slug is Some
            &&& rollout_slug is Some ==> output.rollout_slug->0 == rollout_slug->0@
            &&& output.generated_at == now
        },
        old(store)@.outputs.contains_key(thread_id) ==> {
            let stored = old(store)@.outputs[thread_id];
            let output = final(store)@.outputs[thread_id];
            &&& output.usage_count == stored.usage_count
            &&& output.last_usage == stored.last_usage
            &&& output.selected_for_phase2 == stored.selected_for_phase2
            &&& output.selected_for_phase2_source_updated_at == stored.selected_for_phase2_source_updated_at
            &&& source_updated_at < stored.source_updated_at ==> output == stored
        },
        !old(store)@.outputs.contains_key(thread_id) ==> {
            let output = final(store)@.outputs[thread_id];
            &&& output.usage_count is None
            &&& output.last_usage is None
            &&& !output.selected_for_phase2
            &&& output.selected_for_phase2_source_updated_at is None
        },
        forall|other: ThreadId| other != thread_id ==> (#[trigger] final(store)@.outputs.contains_key(other) <==> old(store)@.outputs.contains_key(other)),
        forall|other: ThreadId| other != thread_id && #[trigger] old(store)@.outputs.contains_key(other) ==> final(store)@.outputs[other] == old(store)@.outputs[other],
{
}

/// Only the holder of a running lease can record a success. The job is done then, up to the source
/// that it was claimed for, and a consolidation is asked for.
pub proof fn law_success_finishes_the_job(
    store: &mut MemoryStore,
    thread_id: ThreadId,
    token: &str,
    source_updated_at: i64,
    raw_memory: &str,
    rollout_summary: &str,
    rollout_slug: Option<&str>,
    now: i64,
    result: Result<bool, MemoryStoreError>,
)
    requires
        call_ensures(
            MemoryStore::mark_stage1_job_succeeded,
            (store, thread_id, token, source_updated_at, raw_memory, rollout_summary, rollout_slug, now),
            result,
        ),
    ensures
        ({
            let before = old(store)@;
            let after = final(store)@;
            let held = before.jobs.contains_key(thread_id) && runs_for(before.jobs[thread_id].job, token@, now);
            &&& before.closed ==> result == Err::<bool, MemoryStoreError>(MemoryStoreError::Closed)
            &&& !before.closed && !held ==> result == Ok::<bool, MemoryStoreError>(false)
            &&& !before.closed && held && before.jobs[thread_id].job.input_watermark is None ==> result == Err::<bool, MemoryStoreError>(MemoryStoreError::MissingWatermark)
            &&& !before.closed && held && before.jobs[thread_id].job.input_watermark is Some && (before.global_job is None || before.global_job->0.input_watermark is None
                || before.global_job->0.input_watermark->0 < i64::MAX) ==> result == Ok::<bool, MemoryStoreError>(true)
            &&& result != Ok::<bool, MemoryStoreError>(true) ==> after == before
            &&& result == Ok::<bool, MemoryStoreError>(true) ==> {
                let job = after.jobs[thread_id].job;
                &&& held
                &&& after.jobs.contains_key(thread_id)
                &&& job.status == MemoryJobStatus::Done
                &&& job.finished_at == Some(now)
                &&& job.lease_until is None
                &&& job.last_error is None
                &&& job.last_success_watermark == before.jobs[thread_id].job.input_watermark
                &&& job.ownership_token == before.jobs[thread_id].job.ownership_token
                &&& job.worker_id == before.jobs[thread_id].job.worker_id
                &&& job.started_at == before.jobs[thread_id].job.started_at
                &&& job.retry_at == before.jobs[thread_id].job.retry_at
                &&& job.input_watermark == before.jobs[thread_id].job.input_watermark
                &&& job.retry_remaining == before.jobs[thread_id].job.retry_remaining
                &&& after.global_job is Some
                &&& after.global_job->0.input_watermark is Some
                &&& after.global_job->0.input_watermark->0 >= source_updated_at
                &&& before.global_job is Some && before.global_job->0.input_watermark is Some ==> after.global_job->0.input_watermark->0
                    > before.global_job->0.input_watermark->0
                &&& after.generations == before.generations
                &&& forall|other: ThreadId| other != thread_id && #[trigger] before.jobs.contains_key(other) ==> after.jobs[other] == before.jobs[other]
            }
        }),
{
}

/// A success without an output takes a stored output away, and asks for a consolidation only where
/// there was one. The job is done as with an output.
pub proof fn law_success_without_output_clears_the_output(
    store: &mut MemoryStore,
    thread_id: ThreadId,
    token: &str,
    now: i64,
    result: Result<bool, MemoryStoreError>,
)
    requires
        call_ensures(MemoryStore::mark_stage1_job_succeeded_no_output, (store, thread_id, token, now), result),
    ensures
        ({
            let before = old(store)@;
            let after = final(store)@;
            let held = before.jobs.contains_key(thread_id) && runs_for(before.jobs[thread_id].job, token@, now);
            &&& before.closed ==> result == Err::<bool, MemoryStoreError>(MemoryStoreError::Closed)
            &&& !before.closed && !held ==> result == Ok::<bool, MemoryStoreError>(false)
            &&& !before.closed && held && before.jobs[thread_id].job.input_watermark is None ==> result == Err::<bool, MemoryStoreError>(MemoryStoreError::MissingWatermark)
            &&& !before.closed && held && before.jobs[thread_id].job.input_watermark is Some && !before.outputs.contains_key(thread_id) ==> result == Ok::<
                bool,
                MemoryStoreError,
            >(true)
            &&& result != Ok::<bool, MemoryStoreError>(true) ==> after == before
            &&& result == Ok::<bool, MemoryStoreError>(true) ==> {
                let job = after.jobs[thread_id].job;
                &&& held
                &&& job.status == MemoryJobStatus::Done
                &&& job.finished_at == Some(now)
                &&& job.lease_until is None
                &&& job.last_error is None
                &&& job.last_success_watermark == before.jobs[thread_id].job.input_watermark
                &&& job.ownership_token == before.jobs[thread_id].job.ownership_token
                &&& job.worker_id == before.jobs[thread_id].job.worker_id
                &&& job.started_at == before.jobs[thread_id].job.started_at
                &&& job.retry_at == before.jobs[thread_id].job.retry_at
                &&& !after.outputs.contains_key(thread_id)
                &&& forall|other: ThreadId| other != thread_id && #[trigger] before.outputs.contains_key(other) ==> after.outputs.contains_key(other) && after.outputs[other]
                    == before.outputs[other]
                &&& !before.outputs.contains_key(thread_id) ==> after.global_job == before.global_job
                &&& before.outputs.contains_key(thread_id) ==> {
                    &&& after.global_job is Some
                    &&& after.global_job->0.input_watermark is Some
                    &&& after.global_job->0.input_watermark->0 >= before.jobs[thread_id].job.input_watermark->0
                }
                &&& after.generations == before.generations
            }
        }),
{
    let before = old(store)@;
    if !before.outputs.contains_key(thread_id) {
        assert(before.outputs.remove(thread_id) =~= before.outputs);
    }
}

/// Only the holder of a running lease can renew it. It then lasts for as long as was asked, counted
/// from now, and nothing else changes.
pub proof fn law_heartbeat_extends_the_lease(
    store: &mut MemoryStore,
    thread_id: ThreadId,
    token: &str,
    lease_seconds: i64,
    now: i64,
    result: Result<bool, MemoryStoreError>,
)
    requires
        call_ensures(MemoryStore::heartbeat_stage1_job, (store, thread_id, token, lease_seconds, now), result),
        old(store)@.keyed(),
        !old(store)@.closed,
        seconds_after(now, lease_seconds) <= i64::MAX,
    ensures
        ({
            let before = old(store)@;
            let after = final(store)@;
            let held = before.jobs.contains_key(thread_id) && runs_for(before.jobs[thread_id].job, token@, now);
            &&& result == Ok::<bool, MemoryStoreError>(held)
            &&& !held ==> after == before
            &&& held ==> {
                &&& after.jobs[thread_id].job.lease_until == Some(seconds_after(now, lease_seconds) as i64)
                &&& after.jobs[thread_id].job.status == MemoryJobStatus::Running
                &&& after.jobs[thread_id].job.ownership_token == Some(token@)
                &&& after.jobs[thread_id].job.worker_id == before.jobs[thread_id].job.worker_id
                &&& after.jobs[thread_id].job.started_at == before.jobs[thread_id].job.started_at
                &&& after.jobs[thread_id].job.retry_remaining == before.jobs[thread_id].job.retry_remaining
                &&& after.jobs[thread_id].job.input_watermark == before.jobs[thread_id].job.input_watermark
                &&& after.outputs == before.outputs
                &&& after.global_job == before.global_job
            }
        }),
{
}

/// Only the holder of a running lease can record a failure. It takes one attempt away, says why, and
/// lets the next one wait for as long as was asked.
pub proof fn law_failure_takes_one_attempt(
    store: &mut MemoryStore,
    thread_id: ThreadId,
    token: &str,
    reason: &str,
    retry_delay_seconds: i64,
    now: i64,
    result: Result<bool, MemoryStoreError>,
)
    requires
        call_ensures(MemoryStore::mark_stage1_job_failed, (store, thread_id, token, reason, retry_delay_seconds, now), result),
        !old(store)@.closed,
        old(store)@.jobs.contains_key(thread_id) ==> old(store)@.jobs[thread_id].job.retry_remaining > i64::MIN,
        seconds_after(now, retry_delay_seconds) <= i64::MAX,
    ensures
        ({
            let before = old(store)@;
            let after = final(store)@;
            let held = before.jobs.contains_key(thread_id) && runs_for(before.jobs[thread_id].job, token@, now);
            &&& result == Ok::<bool, MemoryStoreError>(held)
            &&& !held ==> after == before
            &&& held ==> {
                &&& after.jobs[thread_id].job.status == MemoryJobStatus::Error
                &&& after.jobs[thread_id].job.finished_at == Some(now)
                &&& after.jobs[thread_id].job.lease_until is None
                &&& after.jobs[thread_id].job.retry_at == Some(seconds_after(now, retry_delay_seconds) as i64)
                &&& after.jobs[thread_id].job.retry_remaining == before.jobs[thread_id].job.retry_remaining - 1
                &&& after.jobs[thread_id].job.last_error == Some(reason@)
                &&& after.jobs[thread_id].job.input_watermark == before.jobs[thread_id].job.input_watermark
                &&& after.jobs[thread_id].job.last_success_watermark == before.jobs[thread_id].job.last_success_watermark
                &&& after.jobs[thread_id].job.ownership_token == before.jobs[thread_id].job.ownership_token
                &&& after.jobs[thread_id].job.worker_id == before.jobs[thread_id].job.worker_id
                &&& after.jobs[thread_id].job.started_at == before.jobs[thread_id].job.started_at
                &&& after.outputs == before.outputs
                &&& after.global_job == before.global_job
            }
        }),
{
}

/// Asking for a consolidation raises the watermark of the global job to the one that was given, or
/// by one where it was not below it. A job that does not run becomes pending at once, and has at
/// least three attempts.
pub proof fn law_enqueueing_raises_the_watermark(store: &mut MemoryStore, input_watermark: i64, result: Result<(), MemoryStoreError>)
    requires
        call_ensures(MemoryStore::enqueue_global_consolidation, (store, input_watermark), result),
        !old(store)@.closed,
    ensures
        result is Err ==> final(store)@ == old(store)@,
        result is Err <==> old(store)@.global_job is Some && old(store)@.global_job->0.input_watermark == Some(i64::MAX),
        result is Ok ==> {
            &&& final(store)@.global_job is Some
            &&& final(store)@.jobs == old(store)@.jobs
            &&& final(store)@.outputs == old(store)@.outputs
            &&& final(store)@.generations == old(store)@.generations
        },
        result is Ok && old(store)@.global_job is None ==> {
            let job = final(store)@.global_job->0;
            &&& job.status == MemoryJobStatus::Pending
            &&& job.input_watermark == Some(input_watermark)
            &&& job.last_success_watermark == Some(0i64)
            &&& job.retry_remaining == 3
            &&& job.retry_at is None
            &&& job.lease_until is None
            &&& job.ownership_token is None
            &&& job.worker_id is None
            &&& job.finished_at is None
            &&& job.started_at is None
            &&& job.last_error is None
        },
        result is Ok && old(store)@.global_job is Some ==> {
            let before = old(store)@.global_job->0;
            let job = final(store)@.global_job->0;
            let known = if before.input_watermark is Some {
                before.input_watermark->0 as int
            } else {
                0
            };
            &&& job.input_watermark is Some
            &&& job.input_watermark->0 == (if input_watermark > known {
                input_watermark as int
            } else {
                known + 1
            })
            &&& job.retry_remaining == (if before.retry_remaining > 3 {
                before.retry_remaining
            } else {
                3
            })
            &&& before.status == MemoryJobStatus::Running ==> job.status == MemoryJobStatus::Running && job.retry_at == before.retry_at
            &&& before.status != MemoryJobStatus::Running ==> job.status == MemoryJobStatus::Pending && job.retry_at is None
            &&& job.ownership_token == before.ownership_token
            &&& job.lease_until == before.lease_until
            &&& job.last_success_watermark == before.last_success_watermark
            &&& job.finished_at == before.finished_at
            &&& job.last_error == before.last_error
        },
{
}

/// The global job is claimed unless one of these holds, which are asked in this order: its next
/// attempt has to wait; it runs; it succeeded less than six hours ago.
pub proof fn law_claim_of_the_global_job(
    store: &mut MemoryStore,
    worker_id: ThreadId,
    token: String,
    lease_seconds: i64,
    now: i64,
    outcome: Phase2JobClaimOutcome,
)
    requires
        call_ensures(
            MemoryStore::try_claim_global_phase2_job_as,
            (store, worker_id, token, lease_seconds, now),
            Ok::<Phase2JobClaimOutcome, MemoryStoreError>(outcome),
        ),
        now >= 0,
    ensures
        old(store)@.global_job is None ==> outcome is Claimed && outcome->Claimed_input_watermark == 0,
        old(store)@.global_job is Some ==> {
            let job = old(store)@.global_job->0;
            let waiting = job.retry_at is Some && job.retry_at->0 > now;
            let running = job.status == MemoryJobStatus::Running && job.lease_until is Some && job.lease_until->0 > now;
            let resting = job.last_error is None && job.finished_at is Some && now - job.finished_at->0 < 6 * 60 * 60;
            &&& outcome is SkippedRetryUnavailable <==> waiting
            &&& outcome is SkippedRunning <==> !waiting && running
            &&& outcome is SkippedCooldown <==> !waiting && !running && resting
            &&& outcome is Claimed <==> !waiting && !running && !resting
            &&& !(outcome is Claimed) ==> final(store)@ == old(store)@
        },
        final(store)@.jobs == old(store)@.jobs,
        final(store)@.outputs == old(store)@.outputs,
        final(store)@.generations == old(store)@.generations,
        outcome is Claimed ==> {
            &&& outcome->Claimed_ownership_token@ == token@
            &&& final(store)@.global_job is Some
            &&& ({
                let job = final(store)@.global_job->0;
                &&& job.status == MemoryJobStatus::Running
                &&& job.worker_id == Some(worker_id)
                &&& job.ownership_token == Some(token@)
                &&& job.started_at == Some(now)
                &&& job.finished_at is None
                &&& job.retry_at is None
                &&& job.last_error is None
                &&& job.lease_until is Some
                &&& seconds_after(now, lease_seconds) <= i64::MAX ==> job.lease_until->0 == seconds_after(now, lease_seconds)
                &&& seconds_after(now, lease_seconds) > i64::MAX ==> job.lease_until->0 == i64::MAX
                &&& old(store)@.global_job is Some ==> {
                    &&& job.retry_remaining == old(store)@.global_job->0.retry_remaining
                    &&& job.input_watermark == old(store)@.global_job->0.input_watermark
                    &&& job.last_success_watermark == old(store)@.global_job->0.last_success_watermark
                    &&& job.input_watermark is Some ==> outcome->Claimed_input_watermark == job.input_watermark->0
                    &&& job.input_watermark is None ==> outcome->Claimed_input_watermark == 0
                }
            })
        },
{
}

/// Under a fresh token the global job is claimed as under a given one.
pub proof fn law_global_claim_under_a_fresh_token(
    store: &mut MemoryStore,
    worker_id: ThreadId,
    lease_seconds: i64,
    now: i64,
    result: Result<Phase2JobClaimOutcome, MemoryStoreError>,
)
    requires
        call_ensures(MemoryStore::try_claim_global_phase2_job, (store, worker_id, lease_seconds, now), result),
    ensures
        result is Err <==> old(store)@.closed,
        result is Ok && result->Ok_0 is Claimed ==> {
            &&& final(store)@.global_job is Some
            &&& final(store)@.global_job->0.status == MemoryJobStatus::Running
            &&& final(store)@.global_job->0.worker_id == Some(worker_id)
            &&& final(store)@.global_job->0.ownership_token == Some(result->Ok_0->Claimed_ownership_token@)
            &&& final(store)@.global_job->0.started_at == Some(now)
        },
{
}

/// Only the holder of a running lease on the global job can renew it. It then lasts for as long as
/// was asked, and nothing else changes.
pub proof fn law_global_heartbeat_extends_the_lease(
    store: &mut MemoryStore,
    token: &str,
    lease_seconds: i64,
    now: i64,
    result: Result<bool, MemoryStoreError>,
)
    requires
        call_ensures(MemoryStore::heartbeat_global_phase2_job, (store, token, lease_seconds, now), result),
        !old(store)@.closed,
        seconds_after(now, lease_seconds) <= i64::MAX,
    ensures
        ({
            let before = old(store)@;
            let after = final(store)@;
            let held = before.global_job is Some && runs_for(before.global_job->0, token@, now);
            &&& result == Ok::<bool, MemoryStoreError>(held)
            &&& !held ==> after == before
            &&& held ==> {
                &&& after.global_job is Some
                &&& after.global_job->0.lease_until == Some(seconds_after(now, lease_seconds) as i64)
                &&& after.global_job->0.status == MemoryJobStatus::Running
                &&& after.global_job->0.ownership_token == Some(token@)
                &&& after.global_job->0.input_watermark == before.global_job->0.input_watermark
                &&& after.global_job->0.retry_remaining == before.global_job->0.retry_remaining
                &&& after.jobs == before.jobs
                &&& after.outputs == before.outputs
            }
        }),
{
}

/// A failure of the global job is recorded by the holder of its running lease. It takes one attempt
/// away while there is one, says why, and lets the next one wait for as long as was asked.
pub proof fn law_global_failure_takes_one_attempt(
    store: &mut MemoryStore,
    token: &str,
    reason: &str,
    retry_delay_seconds: i64,
    now: i64,
    result: Result<bool, MemoryStoreError>,
)
    requires
        call_ensures(MemoryStore::mark_global_phase2_job_failed, (store, token, reason, retry_delay_seconds, now), result),
        !old(store)@.closed,
        old(store)@.global_job is Some ==> old(store)@.global_job->0.retry_remaining >= 0,
        seconds_after(now, retry_delay_seconds) <= i64::MAX,
    ensures
        ({
            let before = old(store)@;
            let after = final(store)@;
            let held = before.global_job is Some && runs_for(before.global_job->0, token@, now);
            &&& result == Ok::<bool, MemoryStoreError>(held)
            &&& !held ==> after == before
            &&& held ==> {
                &&& after.global_job is Some
                &&& after.global_job->0.status == MemoryJobStatus::Error
                &&& after.global_job->0.finished_at == Some(now)
                &&& after.global_job->0.lease_until is None
                &&& after.global_job->0.retry_at == Some(seconds_after(now, retry_delay_seconds) as i64)
                &&& after.global_job->0.last_error == Some(reason@)
                &&& before.global_job->0.retry_remaining > 0 ==> after.global_job->0.retry_remaining == before.global_job->0.retry_remaining - 1
                &&& before.global_job->0.retry_remaining == 0 ==> after.global_job->0.retry_remaining == 0
                &&& after.global_job->0.input_watermark == before.global_job->0.input_watermark
                &&& after.global_job->0.last_success_watermark == before.global_job->0.last_success_watermark
                &&& after.global_job->0.ownership_token == before.global_job->0.ownership_token
                &&& after.global_job->0.worker_id == before.global_job->0.worker_id
                &&& after.global_job->0.started_at == before.global_job->0.started_at
                &&& after.jobs == before.jobs
                &&& after.outputs == before.outputs
            }
        }),
{
}

/// A failure of the global job can also be recorded where it runs for nobody: it has no token, or the
/// lease under the given token has expired. Another holder's job is never failed that way.
pub proof fn law_global_failure_of_an_unowned_job(
    store: &mut MemoryStore,
    token: &str,
    reason: &str,
    retry_delay_seconds: i64,
    now: i64,
    result: Result<bool, MemoryStoreError>,
)
    requires
        call_ensures(MemoryStore::mark_global_phase2_job_failed_if_unowned, (store, token, reason, retry_delay_seconds, now), result),
        !old(store)@.closed,
        old(store)@.global_job is Some ==> old(store)@.global_job->0.retry_remaining >= 0,
        seconds_after(now, retry_delay_seconds) <= i64::MAX,
    ensures
        ({
            let before = old(store)@;
            let after = final(store)@;
            let orphaned = {
                &&& before.global_job is Some
                &&& before.global_job->0.status == MemoryJobStatus::Running
                &&& before.global_job->0.ownership_token is None || before.global_job->0.ownership_token->0 == token@ && !runs_for(before.global_job->0, token@, now)
            };
            &&& result == Ok::<bool, MemoryStoreError>(orphaned)
            &&& !orphaned ==> after == before
            &&& orphaned ==> {
                &&& after.global_job is Some
                &&& after.global_job->0.status == MemoryJobStatus::Error
                &&& after.global_job->0.finished_at == Some(now)
                &&& after.global_job->0.retry_at == Some(seconds_after(now, retry_delay_seconds) as i64)
                &&& after.global_job->0.last_error == Some(reason@)
                &&& after.global_job->0.lease_until is None
                &&& after.jobs == before.jobs
                &&& after.outputs == before.outputs
            }
        }),
{
}

/// Times that lie a number of seconds ahead, negative ones counting as none, or back; neither leaves its range.
pub proof fn law_times_ahead_and_back(now: i64, seconds: i64, counted: i64, ahead: i64, back: i64)
    requires
        call_ensures(super::job::duration_of, (seconds,), counted),
        call_ensures(super::job::later_time, (now, seconds), ahead),
        seconds >= 0 ==> call_ensures(super::job::earlier_time, (now, seconds), back),
    ensures
        counted == seconds_after(0, seconds),
        seconds_after(now, seconds) <= i64::MAX ==> ahead == seconds_after(now, seconds),
        seconds_after(now, seconds) > i64::MAX ==> ahead == i64::MAX,
        seconds >= 0 && now - seconds >= i64::MIN ==> back == now - seconds,
        seconds >= 0 && now - seconds < i64::MIN ==> back == i64::MIN,
{
}

/// The stored names of the states of a job, each read back from its own.
pub proof fn law_job_status_names(status: MemoryJobStatus, name: &'static str, text: &str, read: Option<MemoryJobStatus>)
    requires
        call_ensures(MemoryJobStatus::as_str, (status,), name),
        call_ensures(MemoryJobStatus::from_stored, (text,), read),
    ensures
        status == MemoryJobStatus::Pending <==> name@ == "pending"@,
        status == MemoryJobStatus::Running <==> name@ == "running"@,
        status == MemoryJobStatus::Done <==> name@ == "done"@,
        status == MemoryJobStatus::Error <==> name@ == "error"@,
        read == Some(status) <==> text@ == name@,
{
    reveal_strlit("pending");
    reveal_strlit("running");
    reveal_strlit("done");
    reveal_strlit("error");
    assert("pending"@.len() == 7 && "running"@.len() == 7 && "done"@.len() == 4 && "error"@.len() == 5);
    assert("pending"@[0] == 'p' && "running"@[0] == 'r');
    assert(name@ == super::job::job_status_text(status));
}

/// A job is live while it runs under a lease that has not ended, is owned by the token it then runs for, and is
/// orphaned where it runs for no token, or for the given one beyond the end of its lease.
pub proof fn law_states_of_a_job(job: &MemoryJob, token: &str, now: i64, live: bool, owned: bool, orphaned: bool)
    requires
        call_ensures(MemoryJob::is_live, (job, now), live),
        call_ensures(MemoryJob::is_owned, (job, token, now), owned),
        call_ensures(MemoryJob::is_orphaned, (job, token, now), orphaned),
    ensures
        live <==> job.status == MemoryJobStatus::Running && job.lease_until is Some && job.lease_until->0 > now,
        owned <==> live && job.ownership_token is Some && job.ownership_token->0@ == token@,
        orphaned <==> job.status == MemoryJobStatus::Running && (job.ownership_token is None || job.ownership_token->0@ == token@ && !live),
{
}

/// A finished job is done now and rests without an error; a failed one says why, and when and how often it may
/// be tried again; a renewed one runs on until the new end. Nothing else of them changes.
pub proof fn law_changes_of_a_job(
    job: &MemoryJob,
    watermark: Option<i64>,
    reason: &str,
    retry_at: i64,
    retry_remaining: i64,
    lease_until: i64,
    now: i64,
    finished: MemoryJob,
    failed: MemoryJob,
    renewed: MemoryJob,
)
    requires
        call_ensures(MemoryJob::finished, (job, watermark, now), finished),
        call_ensures(MemoryJob::failed, (job, reason, retry_at, retry_remaining, now), failed),
        call_ensures(MemoryJob::renewed, (job, lease_until), renewed),
    ensures
        finished@.status == MemoryJobStatus::Done && finished@.finished_at == Some(now) && finished@.lease_until is None && finished@.last_error is None,
        finished@.last_success_watermark == watermark,
        finished@.input_watermark == job.input_watermark && finished@.retry_remaining == job.retry_remaining && finished@.worker_id == job.worker_id,
        failed@.status == MemoryJobStatus::Error && failed@.finished_at == Some(now) && failed@.lease_until is None && failed@.last_error == Some(reason@),
        failed@.retry_at == Some(retry_at) && failed@.retry_remaining == retry_remaining,
        failed@.input_watermark == job.input_watermark && failed@.last_success_watermark == job.last_success_watermark && failed@.worker_id == job.worker_id,
        renewed@.lease_until == Some(lease_until) && renewed@.status == job.status && renewed@.input_watermark == job.input_watermark,
        renewed@.retry_remaining == job.retry_remaining && renewed@.started_at == job.started_at && renewed@.worker_id == job.worker_id,
{
}

} // verus!
