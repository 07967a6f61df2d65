//! Phase two: one global job consolidates the outputs.

use super::job::duration;
use super::job::duration_of;
use super::job::earlier;
use super::job::earlier_time;
use super::job::later;
use super::job::later_time;
use super::job::DEFAULT_RETRY_REMAINING;
use super::unless_closed;
use super::MemoryJob;
use super::MemoryJobStatus;
use super::MemoryJobView;
use super::MemoryStore;
use super::MemoryStoreError;
use super::MemoryStoreView;
use crate::outside::new_identifier;
use crate::thread_id::opt_view;
use crate::thread_id::ThreadId;
use vstd::prelude::*;

verus! {

/// Rest after a successful consolidation.
pub const PHASE2_SUCCESS_COOLDOWN_SECONDS: i64 = 21_600;

/// What became of an attempt to claim the global job.
#[derive(Debug, PartialEq, Eq)]
pub enum Phase2JobClaimOutcome {
    Claimed { ownership_token: String, input_watermark: i64 },
    SkippedRetryUnavailable,
    SkippedCooldown,
    SkippedRunning,
}

/// The global job before anything happened to it.
pub open spec fn pending_job(input_watermark: i64) -> MemoryJobView {
    MemoryJobView {
        status: MemoryJobStatus::Pending,
        worker_id: None,
        ownership_token: None,
        started_at: None,
        finished_at: None,
        lease_until: None,
        retry_at: None,
        retry_remaining: DEFAULT_RETRY_REMAINING,
        last_error: None,
        input_watermark: Some(input_watermark),
        last_success_watermark: Some(0),
    }
}

fn new_pending_job(input_watermark: i64) -> (job: MemoryJob)
    ensures
        job@ == pending_job(input_watermark),
{
    MemoryJob {
        status: MemoryJobStatus::Pending,
        worker_id: None,
        ownership_token: None,
        started_at: None,
        finished_at: None,
        lease_until: None,
        retry_at: None,
        retry_remaining: DEFAULT_RETRY_REMAINING,
        last_error: None,
        input_watermark: Some(input_watermark),
        last_success_watermark: Some(0),
    }
}

/// The watermark that a job is meant for.
pub open spec fn watermark_of(job: MemoryJobView) -> i64 {
    match job.input_watermark {
        Some(watermark) => watermark,
        None => 0,
    }
}

/// The global job once something is enqueued for it; `None` if its watermark cannot grow. The
/// watermark always grows, so that a claim before and one after can be told apart.
pub open spec fn enqueued(job: Option<MemoryJobView>, input_watermark: i64) -> Option<MemoryJobView> {
    match job {
        None => Some(pending_job(input_watermark)),
        Some(job) => {
            if input_watermark <= watermark_of(job) && watermark_of(job) == i64::MAX {
                None
            } else {
                let running = job.status == MemoryJobStatus::Running;
                Some(MemoryJobView {
                    status: if running { MemoryJobStatus::Running } else { MemoryJobStatus::Pending },
                    retry_at: if running { job.retry_at } else { None },
                    retry_remaining: if job.retry_remaining < DEFAULT_RETRY_REMAINING { DEFAULT_RETRY_REMAINING } else { job.retry_remaining },
                    input_watermark: Some(
                        if input_watermark > watermark_of(job) {
                            input_watermark
                        } else {
                            (watermark_of(job) + 1) as i64
                        },
                    ),
                    ..job
                })
            }
        },
    }
}

/// The global job once something is enqueued for it.
pub(super) fn enqueue_job(job: &Option<MemoryJob>, input_watermark: i64) -> (result: Result<MemoryJob, MemoryStoreError>)
    ensures
        match result {
            Ok(after) => enqueued(opt_view(*job), input_watermark) == Some(after@),
            Err(error) => enqueued(opt_view(*job), input_watermark) is None && error == MemoryStoreError::OutOfRange,
        },
{
    match job {
        None => Ok(new_pending_job(input_watermark)),
        Some(job) => {
            let current: i64 = match job.input_watermark {
                Some(watermark) => watermark,
                None => 0,
            };
            let next: i64 = if input_watermark > current {
                input_watermark
            } else if current == i64::MAX {
                return Err(MemoryStoreError::OutOfRange);
            } else {
                current + 1
            };
            let mut after = job.clone();
            if job.status != MemoryJobStatus::Running {
                after.status = MemoryJobStatus::Pending;
                after.retry_at = None;
            }
            if job.retry_remaining < DEFAULT_RETRY_REMAINING {
                after.retry_remaining = DEFAULT_RETRY_REMAINING;
            }
            after.input_watermark = Some(next);
            Ok(after)
        },
    }
}

/// What to do about a claim of the global job.
#[derive(Clone, Copy, PartialEq, Eq, Structural)]
pub enum Phase2Decision {
    Claim,
    RetryUnavailable,
    Running,
    Cooldown,
}

pub open spec fn phase2_decision(job: MemoryJobView, now: i64) -> Phase2Decision {
    if job.retry_at is Some && job.retry_at->0 > now {
        Phase2Decision::RetryUnavailable
    } else if job.is_live(now) {
        Phase2Decision::Running
    } else if job.last_error is None && job.finished_at is Some && job.finished_at->0 > earlier(now, PHASE2_SUCCESS_COOLDOWN_SECONDS) {
        Phase2Decision::Cooldown
    } else {
        Phase2Decision::Claim
    }
}

/// The outcome that goes with a decision.
pub open spec fn phase2_outcome_matches(
    outcome: Phase2JobClaimOutcome,
    decision: Phase2Decision,
    token: Seq<char>,
    watermark: i64,
) -> bool {
    match outcome {
        Phase2JobClaimOutcome::Claimed { ownership_token, input_watermark } => {
            decision == Phase2Decision::Claim && ownership_token@ == token && input_watermark == watermark
        },
        Phase2JobClaimOutcome::SkippedRetryUnavailable => decision == Phase2Decision::RetryUnavailable,
        Phase2JobClaimOutcome::SkippedCooldown => decision == Phase2Decision::Cooldown,
        Phase2JobClaimOutcome::SkippedRunning => decision == Phase2Decision::Running,
    }
}

/// The global job that a claim finds.
pub open spec fn global_job_of(state: MemoryStoreView) -> MemoryJobView {
    match state.global_job {
        Some(job) => job,
        None => pending_job(0),
    }
}

/// What claiming the global job decides, and the state it leaves: the job exists from then on.
pub open spec fn claiming_phase2(
    state: MemoryStoreView,
    worker_id: ThreadId,
    token: Seq<char>,
    lease_seconds: i64,
    now: i64,
) -> (MemoryStoreView, Phase2Decision) {
    let job = global_job_of(state);
    let decision = phase2_decision(job, now);
    if decision == Phase2Decision::Claim {
        (
            state.with_global_job(MemoryJobView {
                status: MemoryJobStatus::Running,
                worker_id: Some(worker_id),
                ownership_token: Some(token),
                started_at: Some(now),
                finished_at: None,
                lease_until: Some(later(now, lease_seconds)),
                retry_at: None,
                last_error: None,
                ..job
            }),
            decision,
        )
    } else {
        (state.with_global_job(job), decision)
    }
}

/// The holder of the token owns the global job.
pub open spec fn owns_phase2(state: MemoryStoreView, token: Seq<char>, now: i64) -> bool {
    state.global_job is Some && state.global_job->0.is_owned(token, now)
}

/// What renewing the lease on the global job returns, and the state it leaves.
pub open spec fn renewing_phase2(
    state: MemoryStoreView,
    token: Seq<char>,
    lease_seconds: i64,
    now: i64,
) -> (MemoryStoreView, Result<bool, MemoryStoreError>) {
    if !owns_phase2(state, token, now) {
        (state, Ok(false))
    } else if now + duration(lease_seconds) > i64::MAX {
        (state, Err(MemoryStoreError::OutOfRange))
    } else {
        (
            state.with_global_job(MemoryJobView { lease_until: Some(later(now, lease_seconds)), ..state.global_job->0 }),
            Ok(true),
        )
    }
}

/// The global job with a failure recorded in it; `None` if a value leaves its range.
pub open spec fn failed_global(
    job: MemoryJobView,
    reason: Seq<char>,
    retry_delay_seconds: i64,
    now: i64,
) -> Option<MemoryJobView> {
    if now + duration(retry_delay_seconds) > i64::MAX || job.retry_remaining == i64::MIN {
        None
    } else {
        Some(
            job.failed(
                reason,
                later(now, retry_delay_seconds),
                if job.retry_remaining - 1 < 0 { 0 } else { (job.retry_remaining - 1) as i64 },
                now,
            ),
        )
    }
}

/// What recording a failure returns, and the state it leaves, where `applies` says whether the
/// caller may record it.
pub open spec fn failing_phase2(
    state: MemoryStoreView,
    applies: bool,
    reason: Seq<char>,
    retry_delay_seconds: i64,
    now: i64,
) -> (MemoryStoreView, Result<bool, MemoryStoreError>) {
    if !applies || state.global_job is None {
        (state, Ok(false))
    } else {
        match failed_global(state.global_job->0, reason, retry_delay_seconds, now) {
            Some(job) => (state.with_global_job(job), Ok(true)),
            None => (state, Err(MemoryStoreError::OutOfRange)),
        }
    }
}

/// What came of a claim of the global job: on a closed store an error and no change, else what was
/// decided.
pub open spec fn phase2_claim_follows(
    before: MemoryStoreView,
    claimed: MemoryStoreView,
    decision: Phase2Decision,
    token: Seq<char>,
    after: MemoryStoreView,
    result: Result<Phase2JobClaimOutcome, MemoryStoreError>,
) -> bool {
    match result {
        Ok(outcome) => {
            &&& !before.closed
            &&& after == claimed
            &&& phase2_outcome_matches(outcome, decision, token, watermark_of(global_job_of(before)))
        },
        Err(error) => before.closed && after == before && error == MemoryStoreError::Closed,
    }
}

impl MemoryStore {
    /// Ask for a consolidation that takes everything up to the watermark into account.
    pub fn enqueue_global_consolidation(&mut self, input_watermark: i64) -> (result: Result<(), MemoryStoreError>)
        ensures
            match result {
                Ok(_) => {
                    &&& !old(self)@.closed
                    &&& enqueued(old(self)@.global_job, input_watermark) is Some
                    &&& final(self)@ == old(self)@.with_global_job(enqueued(old(self)@.global_job, input_watermark)->0)
                },
                Err(error) => {
                    &&& final(self)@ == old(self)@
                    &&& if old(self)@.closed {
                        error == MemoryStoreError::Closed
                    } else {
                        enqueued(old(self)@.global_job, input_watermark) is None && error == MemoryStoreError::OutOfRange
                    }
                },
            },
    {
        if self.closed {
            return Err(MemoryStoreError::Closed);
        }
        match enqueue_job(&self.global_job, input_watermark) {
            Ok(job) => {
                self.global_job = Some(job);
                Ok(())
            },
            Err(error) => Err(error),
        }
    }

    /// Claim the global job for a worker, under a fresh token.
    pub fn try_claim_global_phase2_job(&mut self, worker_id: ThreadId, lease_seconds: i64, now: i64) -> (result: Result<Phase2JobClaimOutcome, MemoryStoreError>)
        ensures
            exists|token: Seq<char>| {
                let (after, decision) = #[trigger] claiming_phase2(old(self)@, worker_id, token, lease_seconds, now);
                phase2_claim_follows(old(self)@, after, decision, token, final(self)@, result)
            },
    {
        let token = new_identifier();
        self.try_claim_global_phase2_job_as(worker_id, token, lease_seconds, now)
    }

    /// Claim the global job for a worker, under the given token.
    pub fn try_claim_global_phase2_job_as(
        &mut self,
        worker_id: ThreadId,
        ownership_token: String,
        lease_seconds: i64,
        now: i64,
    ) -> (result: Result<Phase2JobClaimOutcome, MemoryStoreError>)
        ensures
            ({
                let (after, decision) = claiming_phase2(old(self)@, worker_id, ownership_token@, lease_seconds, now);
                phase2_claim_follows(old(self)@, after, decision, ownership_token@, final(self)@, result)
            }),
    {
        if self.closed {
            return Err(MemoryStoreError::Closed);
        }
        let job = match &self.global_job {
            Some(job) => job.clone(),
            None => new_pending_job(0),
        };
        self.global_job = Some(job.clone());
        if let Some(retry_at) = job.retry_at {
            if retry_at > now {
                return Ok(Phase2JobClaimOutcome::SkippedRetryUnavailable);
            }
        }
        if job.is_live(now) {
            return Ok(Phase2JobClaimOutcome::SkippedRunning);
        }
        if job.last_error.is_none() {
            if let Some(finished_at) = job.finished_at {
                if finished_at > earlier_time(now, PHASE2_SUCCESS_COOLDOWN_SECONDS) {
                    return Ok(Phase2JobClaimOutcome::SkippedCooldown);
                }
            }
        }
        let input_watermark: i64 = match job.input_watermark {
            Some(watermark) => watermark,
            None => 0,
        };
        let mut claimed = job;
        claimed.status = MemoryJobStatus::Running;
        claimed.worker_id = Some(worker_id);
        claimed.ownership_token = Some(ownership_token.clone());
        claimed.started_at = Some(now);
        claimed.finished_at = None;
        claimed.lease_until = Some(later_time(now, lease_seconds));
        claimed.retry_at = None;
        claimed.last_error = None;
        self.global_job = Some(claimed);
        Ok(Phase2JobClaimOutcome::Claimed { ownership_token, input_watermark })
    }

    /// The global job, if the holder of the token owns it.
    pub(super) fn owned_global_job(&self, ownership_token: &str, now: i64) -> (job: Option<MemoryJob>)
        ensures
            match job {
                Some(job) => owns_phase2(self@, ownership_token@, now) && job@ == self@.global_job->0,
                None => !owns_phase2(self@, ownership_token@, now),
            },
    {
        match &self.global_job {
            Some(job) => {
                if job.is_owned(ownership_token, now) {
                    Some(job.clone())
                } else {
                    None
                }
            },
            None => None,
        }
    }

    /// Extend the lease on the global job.
    pub fn heartbeat_global_phase2_job(
        &mut self,
        ownership_token: &str,
        lease_seconds: i64,
        now: i64,
    ) -> (result: Result<bool, MemoryStoreError>)
        ensures
            (final(self)@, result) == unless_closed(old(self)@, renewing_phase2(old(self)@, ownership_token@, lease_seconds, now)),
    {
        if self.closed {
            return Err(MemoryStoreError::Closed);
        }
        let job = match self.owned_global_job(ownership_token, now) {
            Some(job) => job,
            None => {
                return Ok(false);
            },
        };
        match now.checked_add(duration_of(lease_seconds)) {
            Some(lease_until) => {
                self.global_job = Some(job.renewed(lease_until));
                Ok(true)
            },
            None => Err(MemoryStoreError::OutOfRange),
        }
    }

    /// Record the failure of the global job by its owner.
    pub fn mark_global_phase2_job_failed(
        &mut self,
        ownership_token: &str,
        failure_reason: &str,
        retry_delay_seconds: i64,
        now: i64,
    ) -> (result: Result<bool, MemoryStoreError>)
        ensures
            (final(self)@, result) == unless_closed(
                old(self)@,
                failing_phase2(
                    old(self)@,
                    owns_phase2(old(self)@, ownership_token@, now),
                    failure_reason@,
                    retry_delay_seconds,
                    now,
                ),
            ),
    {
        let applies = match &self.global_job {
            Some(job) => job.is_owned(ownership_token, now),
            None => false,
        };
        self.record_global_failure(applies, failure_reason, retry_delay_seconds, now)
    }

    /// Record the failure of the global job when nobody owns it any more.
    pub fn mark_global_phase2_job_failed_if_unowned(
        &mut self,
        ownership_token: &str,
        failure_reason: &str,
        retry_delay_seconds: i64,
        now: i64,
    ) -> (result: Result<bool, MemoryStoreError>)
        ensures
            (final(self)@, result) == unless_closed(
                old(self)@,
                failing_phase2(
                    old(self)@,
                    old(self)@.global_job is Some && old(self)@.global_job->0.is_orphaned(ownership_token@, now),
                    failure_reason@,
                    retry_delay_seconds,
                    now,
                ),
            ),
    {
        let applies = match &self.global_job {
            Some(job) => job.is_orphaned(ownership_token, now),
            None => false,
        };
        self.record_global_failure(applies, failure_reason, retry_delay_seconds, now)
    }

    fn record_global_failure(
        &mut self,
        applies: bool,
        failure_reason: &str,
        retry_delay_seconds: i64,
        now: i64,
    ) -> (result: Result<bool, MemoryStoreError>)
        ensures
            (final(self)@, result) == unless_closed(old(self)@, failing_phase2(old(self)@, applies, failure_reason@, retry_delay_seconds, now)),
    {
        if self.closed {
            return Err(MemoryStoreError::Closed);
        }
        if !applies {
            return Ok(false);
        }
        let job = match &self.global_job {
            Some(job) => job.clone(),
            None => {
                return Ok(false);
            },
        };
        let retry_at = now.checked_add(duration_of(retry_delay_seconds));
        let retry_remaining = job.retry_remaining.checked_sub(1);
        match (retry_at, retry_remaining) {
            (Some(retry_at), Some(retry_remaining)) => {
                let left: i64 = if retry_remaining < 0 { 0 } else { retry_remaining };
                self.global_job = Some(job.failed(failure_reason, retry_at, left, now));
                Ok(true)
            },
            _ => Err(MemoryStoreError::OutOfRange),
        }
    }
}

} // verus!
