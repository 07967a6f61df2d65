//! Stage one: at most one live lease per thread, and a bounded number of them.

use super::job::duration;
use super::job::duration_of;
use super::job::later;
use super::job::later_time;
use super::job::DEFAULT_RETRY_REMAINING;
use super::phase2::enqueue_job;
use super::phase2::enqueued;
use super::unless_closed;
use super::MemoryJob;
use super::MemoryJobStatus;
use super::MemoryJobView;
use super::MemoryStore;
use super::MemoryStoreError;
use super::MemoryStoreView;
use super::Stage1Job;
use super::Stage1JobView;
use super::Stage1OutputRow;
use super::Stage1OutputRowView;
use crate::outside::new_identifier;
use crate::table::selected;
use crate::table::Condition;
use crate::table::Row;
use crate::thread_id::opt_view;
use crate::thread_id::ThreadId;
use vstd::prelude::*;

verus! {

/// What became of an attempt to claim the job of a thread.
#[derive(Debug, PartialEq, Eq)]
pub enum Stage1JobClaimOutcome {
    Claimed { ownership_token: String },
    SkippedUpToDate,
    SkippedRunning,
    SkippedRetryBackoff,
    SkippedRetryExhausted,
}

/// What to do about a claim.
#[derive(Clone, Copy, PartialEq, Eq, Structural)]
pub enum Stage1Decision {
    Claim,
    UpToDate,
    Running,
    RetryBackoff,
    RetryExhausted,
}

/// The outcome that goes with a decision.
pub open spec fn outcome_matches(outcome: Stage1JobClaimOutcome, decision: Stage1Decision, token: Seq<char>) -> bool {
    match outcome {
        Stage1JobClaimOutcome::Claimed { ownership_token } => decision == Stage1Decision::Claim && ownership_token@ == token,
        Stage1JobClaimOutcome::SkippedUpToDate => decision == Stage1Decision::UpToDate,
        Stage1JobClaimOutcome::SkippedRunning => decision == Stage1Decision::Running,
        Stage1JobClaimOutcome::SkippedRetryBackoff => decision == Stage1Decision::RetryBackoff,
        Stage1JobClaimOutcome::SkippedRetryExhausted => decision == Stage1Decision::RetryExhausted,
    }
}

/// Live jobs of other threads.
pub struct OtherLiveJobs {
    pub thread_id: ThreadId,
    pub now: i64,
}

impl Condition<Stage1Job> for OtherLiveJobs {
    open spec fn holds(&self, row: Stage1JobView) -> bool {
        row.thread_id != self.thread_id && row.job.is_live(self.now)
    }

    fn test(&self, row: &Stage1Job) -> (held: bool) {
        row.thread_id != self.thread_id && row.job.is_live(self.now)
    }
}

/// How many threads other than `thread_id` have a live job.
pub open spec fn other_live_jobs(state: MemoryStoreView, thread_id: ThreadId, now: i64) -> nat {
    selected::<Stage1Job, OtherLiveJobs>(state.jobs, OtherLiveJobs { thread_id, now }).dom().len()
}

/// What the job of a thread alone says about a claim for the given source.
pub open spec fn job_decision(job: MemoryJobView, source_updated_at: i64, now: i64) -> Stage1Decision {
    if job.last_success_watermark is Some && job.last_success_watermark->0 >= source_updated_at {
        Stage1Decision::UpToDate
    } else if job.is_live(now) {
        Stage1Decision::Running
    } else if job.input_watermark is Some && source_updated_at <= job.input_watermark->0 && job.retry_remaining <= 0 {
        Stage1Decision::RetryExhausted
    } else if job.input_watermark is Some && source_updated_at <= job.input_watermark->0 && job.retry_at is Some && job.retry_at->0 > now {
        Stage1Decision::RetryBackoff
    } else {
        Stage1Decision::Claim
    }
}

/// Whether the job of a thread may be claimed, and if not, why.
pub open spec fn stage1_decision(
    state: MemoryStoreView,
    thread_id: ThreadId,
    source_updated_at: i64,
    max_running_jobs: nat,
    now: i64,
) -> Stage1Decision {
    let output = state.output(thread_id);
    let by_job = match state.job(thread_id) {
        Some(job) => job_decision(job, source_updated_at, now),
        None => Stage1Decision::Claim,
    };
    if output is Some && output->0.source_updated_at >= source_updated_at {
        Stage1Decision::UpToDate
    } else if by_job != Stage1Decision::Claim {
        by_job
    } else if other_live_jobs(state, thread_id, now) >= max_running_jobs {
        Stage1Decision::Running
    } else {
        Stage1Decision::Claim
    }
}

/// The job of a thread once it is claimed. A source that advanced gets all its attempts.
pub open spec fn claimed_job(
    job: Option<MemoryJobView>,
    worker_id: ThreadId,
    token: Seq<char>,
    source_updated_at: i64,
    lease_seconds: i64,
    now: i64,
) -> MemoryJobView {
    MemoryJobView {
        status: MemoryJobStatus::Running,
        worker_id: Some(worker_id),
        ownership_token: Some(token),
        started_at: Some(now),
        finished_at: None,
        lease_until: Some(later(now, lease_seconds)),
        retry_at: None,
        retry_remaining: match job {
            Some(job) if source_updated_at <= (if job.input_watermark is Some { job.input_watermark->0 as int } else { -1 }) => job.retry_remaining,
            _ => DEFAULT_RETRY_REMAINING,
        },
        last_error: None,
        input_watermark: Some(source_updated_at),
        last_success_watermark: match job {
            Some(job) => job.last_success_watermark,
            None => None,
        },
    }
}

/// What claiming decides, and the state it leaves.
pub open spec fn claiming(
    state: MemoryStoreView,
    thread_id: ThreadId,
    worker_id: ThreadId,
    token: Seq<char>,
    source_updated_at: i64,
    lease_seconds: i64,
    max_running_jobs: nat,
    now: i64,
) -> (MemoryStoreView, Stage1Decision) {
    let decision = stage1_decision(state, thread_id, source_updated_at, max_running_jobs, now);
    if decision == Stage1Decision::Claim {
        (
            state.with_job(thread_id, claimed_job(state.job(thread_id), worker_id, token, source_updated_at, lease_seconds, now)),
            decision,
        )
    } else {
        (state, decision)
    }
}

/// The output of a thread once a newer one is stored; an older one is not.
pub open spec fn stored_output(
    output: Option<Stage1OutputRowView>,
    thread_id: ThreadId,
    source_updated_at: i64,
    raw_memory: Seq<char>,
    rollout_summary: Seq<char>,
    rollout_slug: Option<Seq<char>>,
    now: i64,
) -> Stage1OutputRowView {
    match output {
        Some(existing) if source_updated_at < existing.source_updated_at => existing,
        Some(existing) => Stage1OutputRowView {
            source_updated_at,
            raw_memory,
            rollout_summary,
            rollout_slug,
            generated_at: now,
            ..existing
        },
        None => Stage1OutputRowView {
            thread_id,
            source_updated_at,
            raw_memory,
            rollout_summary,
            rollout_slug,
            generated_at: now,
            usage_count: None,
            last_usage: None,
            selected_for_phase2: false,
            selected_for_phase2_source_updated_at: None,
        },
    }
}

/// The holder of the token owns the stage-one job of the thread.
pub open spec fn owns_stage1(state: MemoryStoreView, thread_id: ThreadId, token: Seq<char>, now: i64) -> bool {
    state.job(thread_id) is Some && state.job(thread_id)->0.is_owned(token, now)
}

/// What completing a job with an output returns, and the state it leaves.
pub open spec fn succeeding(
    state: MemoryStoreView,
    thread_id: ThreadId,
    token: Seq<char>,
    source_updated_at: i64,
    raw_memory: Seq<char>,
    rollout_summary: Seq<char>,
    rollout_slug: Option<Seq<char>>,
    now: i64,
) -> (MemoryStoreView, Result<bool, MemoryStoreError>) {
    if !owns_stage1(state, thread_id, token, now) {
        (state, Ok(false))
    } else {
        let job = state.job(thread_id)->0;
        if job.input_watermark is None {
            (state, Err(MemoryStoreError::MissingWatermark))
        } else if enqueued(state.global_job, source_updated_at) is None {
            (state, Err(MemoryStoreError::OutOfRange))
        } else {
            (
                MemoryStoreView {
                    outputs: state.outputs.insert(
                        thread_id,
                        stored_output(state.output(thread_id), thread_id, source_updated_at, raw_memory, rollout_summary, rollout_slug, now),
                    ),
                    ..state.with_job(thread_id, job.finished(job.input_watermark, now)).with_global_job(enqueued(state.global_job, source_updated_at)->0)
                },
                Ok(true),
            )
        }
    }
}

/// What completing a job without an output returns, and the state it leaves.
pub open spec fn succeeding_without_output(
    state: MemoryStoreView,
    thread_id: ThreadId,
    token: Seq<char>,
    now: i64,
) -> (MemoryStoreView, Result<bool, MemoryStoreError>) {
    if !owns_stage1(state, thread_id, token, now) {
        (state, Ok(false))
    } else {
        let job = state.job(thread_id)->0;
        let done = state.with_job(thread_id, job.finished(job.input_watermark, now));
        if job.input_watermark is None {
            (state, Err(MemoryStoreError::MissingWatermark))
        } else if !state.outputs.contains_key(thread_id) {
            (done, Ok(true))
        } else if enqueued(state.global_job, job.input_watermark->0) is None {
            (state, Err(MemoryStoreError::OutOfRange))
        } else {
            (
                MemoryStoreView {
                    outputs: state.outputs.remove(thread_id),
                    ..done.with_global_job(enqueued(state.global_job, job.input_watermark->0)->0)
                },
                Ok(true),
            )
        }
    }
}

/// What renewing a lease returns, and the state it leaves.
pub open spec fn renewing_stage1(
    state: MemoryStoreView,
    thread_id: ThreadId,
    token: Seq<char>,
    lease_seconds: i64,
    now: i64,
) -> (MemoryStoreView, Result<bool, MemoryStoreError>) {
    if !owns_stage1(state, thread_id, token, now) {
        (state, Ok(false))
    } else if now + duration(lease_seconds) > i64::MAX {
        (state, Err(MemoryStoreError::OutOfRange))
    } else {
        (
            state.with_job(thread_id, MemoryJobView { lease_until: Some(later(now, lease_seconds)), ..state.job(thread_id)->0 }),
            Ok(true),
        )
    }
}

/// What failing a job returns, and the state it leaves.
pub open spec fn failing_stage1(
    state: MemoryStoreView,
    thread_id: ThreadId,
    token: Seq<char>,
    reason: Seq<char>,
    retry_delay_seconds: i64,
    now: i64,
) -> (MemoryStoreView, Result<bool, MemoryStoreError>) {
    if !owns_stage1(state, thread_id, token, now) {
        (state, Ok(false))
    } else {
        let job = state.job(thread_id)->0;
        if now + duration(retry_delay_seconds) > i64::MAX || job.retry_remaining == i64::MIN {
            (state, Err(MemoryStoreError::OutOfRange))
        } else {
            (
                state.with_job(thread_id, job.failed(reason, later(now, retry_delay_seconds), (job.retry_remaining - 1) as i64, now)),
                Ok(true),
            )
        }
    }
}

/// What came of a claim: on a closed store an error and no change, else what was decided.
pub open spec fn claim_follows(
    before: MemoryStoreView,
    claimed: MemoryStoreView,
    decision: Stage1Decision,
    token: Seq<char>,
    after: MemoryStoreView,
    result: Result<Stage1JobClaimOutcome, MemoryStoreError>,
) -> bool {
    match result {
        Ok(outcome) => !before.closed && after == claimed && outcome_matches(outcome, decision, token),
        Err(error) => before.closed && after == before && error == MemoryStoreError::Closed,
    }
}

impl MemoryStore {
    /// Claim the job of a thread for a worker, under a fresh token.
    pub fn try_claim_stage1_job(
        &mut self,
        thread_id: ThreadId,
        worker_id: ThreadId,
        source_updated_at: i64,
        lease_seconds: i64,
        max_running_jobs: usize,
        now: i64,
    ) -> (result: Result<Stage1JobClaimOutcome, MemoryStoreError>)
        ensures
            exists|token: Seq<char>| {
                let (after, decision) = #[trigger] claiming(old(self)@, thread_id, worker_id, token, source_updated_at, lease_seconds, max_running_jobs as nat, now);
                claim_follows(old(self)@, after, decision, token, final(self)@, result)
            },
    {
        let token = new_identifier();
        self.try_claim_stage1_job_as(thread_id, worker_id, token, source_updated_at, lease_seconds, max_running_jobs, now)
    }

    /// Claim the job of a thread for a worker, under the given token.
    pub fn try_claim_stage1_job_as(
        &mut self,
        thread_id: ThreadId,
        worker_id: ThreadId,
        ownership_token: String,
        source_updated_at: i64,
        lease_seconds: i64,
        max_running_jobs: usize,
        now: i64,
    ) -> (result: Result<Stage1JobClaimOutcome, MemoryStoreError>)
        ensures
            ({
                let (after, decision) = claiming(old(self)@, thread_id, worker_id, ownership_token@, source_updated_at, lease_seconds, max_running_jobs as nat, now);
                claim_follows(old(self)@, after, decision, ownership_token@, final(self)@, result)
            }),
    {
        if self.closed {
            return Err(MemoryStoreError::Closed);
        }
        if let Some(output) = self.outputs.get(&thread_id) {
            if output.source_updated_at >= source_updated_at {
                return Ok(Stage1JobClaimOutcome::SkippedUpToDate);
            }
        }
        let mut retry_remaining: i64 = DEFAULT_RETRY_REMAINING;
        let mut last_success_watermark: Option<i64> = None;
        if let Some(row) = self.jobs.get(&thread_id) {
            let job = &row.job;
            if let Some(watermark) = job.last_success_watermark {
                if watermark >= source_updated_at {
                    return Ok(Stage1JobClaimOutcome::SkippedUpToDate);
                }
            }
            if job.is_live(now) {
                return Ok(Stage1JobClaimOutcome::SkippedRunning);
            }
            if let Some(watermark) = job.input_watermark {
                if source_updated_at <= watermark {
                    if job.retry_remaining <= 0 {
                        return Ok(Stage1JobClaimOutcome::SkippedRetryExhausted);
                    }
                    if let Some(retry_at) = job.retry_at {
                        if retry_at > now {
                            return Ok(Stage1JobClaimOutcome::SkippedRetryBackoff);
                        }
                    }
                }
            }
            let input_watermark: i64 = match job.input_watermark {
                Some(watermark) => watermark,
                None => -1,
            };
            if source_updated_at <= input_watermark {
                retry_remaining = job.retry_remaining;
            }
            last_success_watermark = job.last_success_watermark;
        }
        let others = OtherLiveJobs { thread_id, now };
        if self.jobs.count(&others) >= max_running_jobs {
            return Ok(Stage1JobClaimOutcome::SkippedRunning);
        }
        let job = MemoryJob {
            status: MemoryJobStatus::Running,
            worker_id: Some(worker_id),
            ownership_token: Some(ownership_token.clone()),
            started_at: Some(now),
            finished_at: None,
            lease_until: Some(later_time(now, lease_seconds)),
            retry_at: None,
            retry_remaining,
            last_error: None,
            input_watermark: Some(source_updated_at),
            last_success_watermark,
        };
        assert(job@ == claimed_job(old(self)@.job(thread_id), worker_id, ownership_token@, source_updated_at, lease_seconds, now));
        self.jobs.put(Stage1Job { thread_id, job });
        Ok(Stage1JobClaimOutcome::Claimed { ownership_token })
    }

    /// The stage-one job of a thread, if the holder of the token owns it.
    fn owned_stage1_job(&self, thread_id: ThreadId, ownership_token: &str, now: i64) -> (job: Option<MemoryJob>)
        ensures
            match job {
                Some(job) => owns_stage1(self@, thread_id, ownership_token@, now) && job@ == self@.job(thread_id)->0,
                None => !owns_stage1(self@, thread_id, ownership_token@, now),
            },
    {
        match self.jobs.get(&thread_id) {
            Some(row) => {
                if row.job.is_owned(ownership_token, now) {
                    Some(row.job.clone())
                } else {
                    None
                }
            },
            None => None,
        }
    }

    /// Complete the job of a thread with an output, and enqueue consolidation for it.
    pub fn mark_stage1_job_succeeded(
        &mut self,
        thread_id: ThreadId,
        ownership_token: &str,
        source_updated_at: i64,
        raw_memory: &str,
        rollout_summary: &str,
        rollout_slug: Option<&str>,
        now: i64,
    ) -> (result: Result<bool, MemoryStoreError>)
        ensures
            (final(self)@, result) == unless_closed(
                old(self)@,
                succeeding(
                    old(self)@,
                    thread_id,
                    ownership_token@,
                    source_updated_at,
                    raw_memory@,
                    rollout_summary@,
                    opt_view(rollout_slug),
                    now,
                ),
            ),
    {
        if self.closed {
            return Err(MemoryStoreError::Closed);
        }
        let job = match self.owned_stage1_job(thread_id, ownership_token, now) {
            Some(job) => job,
            None => {
                return Ok(false);
            },
        };
        if job.input_watermark.is_none() {
            return Err(MemoryStoreError::MissingWatermark);
        }
        let global_job = match enqueue_job(&self.global_job, source_updated_at) {
            Ok(global_job) => global_job,
            Err(error) => {
                return Err(error);
            },
        };
        let slug = match rollout_slug {
            Some(slug) => Some(slug.to_owned()),
            None => None,
        };
        let output = match self.outputs.get(&thread_id) {
            Some(existing) => {
                let mut output = existing.duplicate();
                if source_updated_at >= output.source_updated_at {
                    output.source_updated_at = source_updated_at;
                    output.raw_memory = raw_memory.to_owned();
                    output.rollout_summary = rollout_summary.to_owned();
                    output.rollout_slug = slug;
                    output.generated_at = now;
                }
                output
            },
            None => Stage1OutputRow {
                thread_id,
                source_updated_at,
                raw_memory: raw_memory.to_owned(),
                rollout_summary: rollout_summary.to_owned(),
                rollout_slug: slug,
                generated_at: now,
                usage_count: None,
                last_usage: None,
                selected_for_phase2: false,
                selected_for_phase2_source_updated_at: None,
            },
        };
        assert(output@ == stored_output(
            old(self)@.output(thread_id),
            thread_id,
            source_updated_at,
            raw_memory@,
            rollout_summary@,
            opt_view(rollout_slug),
            now,
        ));
        let done = job.finished(job.input_watermark, now);
        self.jobs.put(Stage1Job { thread_id, job: done });
        self.outputs.put(output);
        self.global_job = Some(global_job);
        Ok(true)
    }

    /// Complete the job of a thread that yields no output; an earlier output goes.
    pub fn mark_stage1_job_succeeded_no_output(
        &mut self,
        thread_id: ThreadId,
        ownership_token: &str,
        now: i64,
    ) -> (result: Result<bool, MemoryStoreError>)
        ensures
            (final(self)@, result) == unless_closed(old(self)@, succeeding_without_output(old(self)@, thread_id, ownership_token@, now)),
    {
        if self.closed {
            return Err(MemoryStoreError::Closed);
        }
        let job = match self.owned_stage1_job(thread_id, ownership_token, now) {
            Some(job) => job,
            None => {
                return Ok(false);
            },
        };
        let source_updated_at: i64 = match job.input_watermark {
            Some(watermark) => watermark,
            None => {
                return Err(MemoryStoreError::MissingWatermark);
            },
        };
        let done = job.finished(job.input_watermark, now);
        if self.outputs.contains(&thread_id) {
            let global_job = match enqueue_job(&self.global_job, source_updated_at) {
                Ok(global_job) => global_job,
                Err(error) => {
                    return Err(error);
                },
            };
            self.outputs.remove(&thread_id);
            self.global_job = Some(global_job);
        }
        self.jobs.put(Stage1Job { thread_id, job: done });
        Ok(true)
    }

    /// Extend the lease on the job of a thread.
    pub fn heartbeat_stage1_job(
        &mut self,
        thread_id: ThreadId,
        ownership_token: &str,
        lease_seconds: i64,
        now: i64,
    ) -> (result: Result<bool, MemoryStoreError>)
        ensures
            (final(self)@, result) == unless_closed(old(self)@, renewing_stage1(old(self)@, thread_id, ownership_token@, lease_seconds, now)),
    {
        if self.closed {
            return Err(MemoryStoreError::Closed);
        }
        let job = match self.owned_stage1_job(thread_id, ownership_token, now) {
            Some(job) => job,
            None => {
                return Ok(false);
            },
        };
        match now.checked_add(duration_of(lease_seconds)) {
            Some(lease_until) => {
                let renewed = job.renewed(lease_until);
                self.jobs.put(Stage1Job { thread_id, job: renewed });
                Ok(true)
            },
            None => Err(MemoryStoreError::OutOfRange),
        }
    }

    /// Record the failure of the job of a thread, and when it may be tried again.
    pub fn mark_stage1_job_failed(
        &mut self,
        thread_id: ThreadId,
        ownership_token: &str,
        failure_reason: &str,
        retry_delay_seconds: i64,
        now: i64,
    ) -> (result: Result<bool, MemoryStoreError>)
        ensures
            (final(self)@, result) == unless_closed(old(self)@, failing_stage1(old(self)@, thread_id, ownership_token@, failure_reason@, retry_delay_seconds, now)),
    {
        if self.closed {
            return Err(MemoryStoreError::Closed);
        }
        let job = match self.owned_stage1_job(thread_id, ownership_token, now) {
            Some(job) => job,
            None => {
                return Ok(false);
            },
        };
        let retry_at = now.checked_add(duration_of(retry_delay_seconds));
        let retry_remaining = job.retry_remaining.checked_sub(1);
        match (retry_at, retry_remaining) {
            (Some(retry_at), Some(retry_remaining)) => {
                let failed = job.failed(failure_reason, retry_at, retry_remaining, now);
                self.jobs.put(Stage1Job { thread_id, job: failed });
                Ok(true)
            },
            _ => Err(MemoryStoreError::OutOfRange),
        }
    }
}

} // verus!
