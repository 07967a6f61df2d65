//! Memory jobs: leases, retries and watermarks.

use crate::text::same_text;
use crate::text::zero_padded;
use crate::text::zero_padded_text;
use crate::thread_id::opt_view;
use crate::thread_id::ThreadId;
use crate::threads::clone_text;
use vstd::prelude::*;

verus! {

/// Attempts that a job gets for one input.
pub const DEFAULT_RETRY_REMAINING: i64 = 3;

/// Why a memory operation did not complete. Nothing is changed then.
#[derive(Debug, PartialEq, Eq)]
pub enum MemoryStoreError {
    /// A time, counter or watermark left the range of its column.
    OutOfRange,
    /// A claimed job has no input watermark.
    MissingWatermark,
    /// The artifacts do not make a set.
    Artifact(super::MemoryArtifactError),
    /// There are more artifacts than a generation can count.
    TooManyArtifacts,
    /// The artifacts are larger than a generation can count.
    GenerationTooLarge,
    /// The stored artifact count is not that of the artifacts.
    CountMismatch,
    /// The stored byte count is not that of the artifacts.
    BytesMismatch,
    /// A stored time names no date.
    Timestamp(i64),
    /// The store was closed.
    Closed,
}

impl MemoryStoreError {
    pub open spec fn text(self) -> Seq<char> {
        match self {
            MemoryStoreError::OutOfRange => "memory job value exceeds supported range"@,
            MemoryStoreError::MissingWatermark => "claimed memory job has no input watermark"@,
            MemoryStoreError::Artifact(error) => error.text(),
            MemoryStoreError::TooManyArtifacts => "Memory Generation artifact count exceeds supported range"@,
            MemoryStoreError::GenerationTooLarge => "Memory Generation size exceeds supported range"@,
            MemoryStoreError::CountMismatch => "active Memory Generation artifact count does not match its contents"@,
            MemoryStoreError::BytesMismatch => "active Memory Generation byte count does not match its contents"@,
            MemoryStoreError::Timestamp(seconds) => "invalid unix timestamp: "@ + zero_padded(seconds as int, 0),
            MemoryStoreError::Closed => "memory store is closed"@,
        }
    }

    pub fn message(&self) -> (text: String)
        ensures
            text@ == self.text(),
    {
        match self {
            MemoryStoreError::OutOfRange => "memory job value exceeds supported range".to_owned(),
            MemoryStoreError::MissingWatermark => "claimed memory job has no input watermark".to_owned(),
            MemoryStoreError::Artifact(error) => error.message(),
            MemoryStoreError::TooManyArtifacts => "Memory Generation artifact count exceeds supported range".to_owned(),
            MemoryStoreError::GenerationTooLarge => "Memory Generation size exceeds supported range".to_owned(),
            MemoryStoreError::CountMismatch => "active Memory Generation artifact count does not match its contents".to_owned(),
            MemoryStoreError::BytesMismatch => "active Memory Generation byte count does not match its contents".to_owned(),
            MemoryStoreError::Timestamp(seconds) => {
                let mut text = "invalid unix timestamp: ".to_owned();
                text.append(zero_padded_text(*seconds, 0).as_str());
                text
            },
            MemoryStoreError::Closed => "memory store is closed".to_owned(),
        }
    }
}

#[derive(Clone, Copy, Debug, PartialEq, Eq, Structural)]
pub enum MemoryJobStatus {
    Pending,
    Running,
    Done,
    Error,
}

/// The stored name of a status.
pub open spec fn job_status_text(status: MemoryJobStatus) -> Seq<char> {
    match status {
        MemoryJobStatus::Pending => "pending"@,
        MemoryJobStatus::Running => "running"@,
        MemoryJobStatus::Done => "done"@,
        MemoryJobStatus::Error => "error"@,
    }
}

impl MemoryJobStatus {
    /// The stored name.
    pub fn as_str(self) -> (text: &'static str)
        ensures
            text@ == job_status_text(self),
    {
        match self {
            Self::Pending => "pending",
            Self::Running => "running",
            Self::Done => "done",
            Self::Error => "error",
        }
    }

    /// What the given stored name stands for.
    pub fn from_stored(text: &str) -> (status: Option<Self>)
        ensures
            match status {
                Some(status) => text@ == job_status_text(status),
                None => forall|status: MemoryJobStatus| text@ != #[trigger] job_status_text(status),
            },
    {
        if same_text(text, "pending") {
            Some(Self::Pending)
        } else if same_text(text, "running") {
            Some(Self::Running)
        } else if same_text(text, "done") {
            Some(Self::Done)
        } else if same_text(text, "error") {
            Some(Self::Error)
        } else {
            None
        }
    }
}

/// The state of one job. Times are seconds since the Unix epoch.
#[derive(Debug, PartialEq, Eq)]
pub struct MemoryJob {
    pub status: MemoryJobStatus,
    pub worker_id: Option<ThreadId>,
    pub ownership_token: Option<String>,
    pub started_at: Option<i64>,
    pub finished_at: Option<i64>,
    pub lease_until: Option<i64>,
    pub retry_at: Option<i64>,
    pub retry_remaining: i64,
    pub last_error: Option<String>,
    pub input_watermark: Option<i64>,
    pub last_success_watermark: Option<i64>,
}

#[verifier::ext_equal]
pub struct MemoryJobView {
    pub status: MemoryJobStatus,
    pub worker_id: Option<ThreadId>,
    pub ownership_token: Option<Seq<char>>,
    pub started_at: Option<i64>,
    pub finished_at: Option<i64>,
    pub lease_until: Option<i64>,
    pub retry_at: Option<i64>,
    pub retry_remaining: i64,
    pub last_error: Option<Seq<char>>,
    pub input_watermark: Option<i64>,
    pub last_success_watermark: Option<i64>,
}

impl View for MemoryJob {
    type V = MemoryJobView;

    open spec fn view(&self) -> MemoryJobView {
        MemoryJobView {
            status: self.status,
            worker_id: self.worker_id,
            ownership_token: opt_view(self.ownership_token),
            started_at: self.started_at,
            finished_at: self.finished_at,
            lease_until: self.lease_until,
            retry_at: self.retry_at,
            retry_remaining: self.retry_remaining,
            last_error: opt_view(self.last_error),
            input_watermark: self.input_watermark,
            last_success_watermark: self.last_success_watermark,
        }
    }
}

impl Clone for MemoryJob {
    fn clone(&self) -> (copy: Self)
        ensures
            copy == *self,
    {
        MemoryJob {
            status: self.status,
            worker_id: self.worker_id,
            ownership_token: clone_text(&self.ownership_token),
            started_at: self.started_at,
            finished_at: self.finished_at,
            lease_until: self.lease_until,
            retry_at: self.retry_at,
            retry_remaining: self.retry_remaining,
            last_error: clone_text(&self.last_error),
            input_watermark: self.input_watermark,
            last_success_watermark: self.last_success_watermark,
        }
    }
}

/// A duration; negative ones count as none.
pub open spec fn duration(seconds: i64) -> i64 {
    if seconds < 0 {
        0
    } else {
        seconds
    }
}

pub fn duration_of(seconds: i64) -> (r: i64)
    ensures
        r == duration(seconds),
{
    if seconds < 0 {
        0
    } else {
        seconds
    }
}

/// The sum, or the largest time there is.
pub open spec fn later(now: i64, seconds: i64) -> i64 {
    if now + duration(seconds) > i64::MAX {
        i64::MAX
    } else {
        (now + duration(seconds)) as i64
    }
}

pub fn later_time(now: i64, seconds: i64) -> (r: i64)
    ensures
        r == later(now, seconds),
{
    match now.checked_add(duration_of(seconds)) {
        Some(time) => time,
        None => i64::MAX,
    }
}

/// The difference, or the smallest time there is.
pub open spec fn earlier(now: i64, seconds: i64) -> i64
    recommends
        seconds >= 0,
{
    if now - seconds < i64::MIN {
        i64::MIN
    } else {
        (now - seconds) as i64
    }
}

pub fn earlier_time(now: i64, seconds: i64) -> (r: i64)
    requires
        seconds >= 0,
    ensures
        r == earlier(now, seconds),
{
    match now.checked_sub(seconds) {
        Some(time) => time,
        None => i64::MIN,
    }
}

impl MemoryJobView {
    /// The job is running under a lease that has not expired.
    pub open spec fn is_live(self, now: i64) -> bool {
        self.status == MemoryJobStatus::Running && self.lease_until is Some && self.lease_until->0 > now
    }

    /// The holder of the token owns the job: it is live under that token.
    pub open spec fn is_owned(self, token: Seq<char>, now: i64) -> bool {
        self.is_live(now) && self.ownership_token == Some(token)
    }

    /// The job belongs to nobody any more: it runs without a token, or its lease under this token
    /// has expired.
    pub open spec fn is_orphaned(self, token: Seq<char>, now: i64) -> bool {
        &&& self.status == MemoryJobStatus::Running
        &&& {
            ||| self.ownership_token is None
            ||| self.ownership_token == Some(token) && (self.lease_until is None || self.lease_until->0 <= now)
        }
    }

    /// The job once it is done.
    pub open spec fn finished(self, last_success_watermark: Option<i64>, now: i64) -> MemoryJobView {
        MemoryJobView {
            status: MemoryJobStatus::Done,
            finished_at: Some(now),
            lease_until: None,
            last_error: None,
            last_success_watermark,
            ..self
        }
    }

    /// The job once it has failed.
    pub open spec fn failed(self, reason: Seq<char>, retry_at: i64, retry_remaining: i64, now: i64) -> MemoryJobView {
        MemoryJobView {
            status: MemoryJobStatus::Error,
            finished_at: Some(now),
            lease_until: None,
            retry_at: Some(retry_at),
            retry_remaining,
            last_error: Some(reason),
            ..self
        }
    }
}

impl MemoryJob {
    pub fn is_live(&self, now: i64) -> (r: bool)
        ensures
            r == self@.is_live(now),
    {
        match self.lease_until {
            Some(lease_until) => self.status == MemoryJobStatus::Running && lease_until > now,
            None => false,
        }
    }

    pub fn is_owned(&self, token: &str, now: i64) -> (r: bool)
        ensures
            r == self@.is_owned(token@, now),
    {
        match &self.ownership_token {
            Some(held) => self.is_live(now) && same_text(held.as_str(), token),
            None => false,
        }
    }

    pub fn is_orphaned(&self, token: &str, now: i64) -> (r: bool)
        ensures
            r == self@.is_orphaned(token@, now),
    {
        if self.status != MemoryJobStatus::Running {
            return false;
        }
        match &self.ownership_token {
            None => true,
            Some(held) => {
                let expired = match self.lease_until {
                    Some(lease_until) => lease_until <= now,
                    None => true,
                };
                expired && same_text(held.as_str(), token)
            },
        }
    }

    /// The job with its lease extended.
    pub fn renewed(&self, lease_until: i64) -> (job: MemoryJob)
        ensures
            job@ == (MemoryJobView { lease_until: Some(lease_until), ..self@ }),
    {
        let mut job = self.clone();
        job.lease_until = Some(lease_until);
        job
    }

    /// The job once it is done.
    pub fn finished(&self, last_success_watermark: Option<i64>, now: i64) -> (job: MemoryJob)
        ensures
            job@ == self@.finished(last_success_watermark, now),
    {
        let mut job = self.clone();
        job.status = MemoryJobStatus::Done;
        job.finished_at = Some(now);
        job.lease_until = None;
        job.last_error = None;
        job.last_success_watermark = last_success_watermark;
        job
    }

    /// The job once it has failed.
    pub fn failed(&self, reason: &str, retry_at: i64, retry_remaining: i64, now: i64) -> (job: MemoryJob)
        ensures
            job@ == self@.failed(reason@, retry_at, retry_remaining, now),
    {
        let mut job = self.clone();
        job.status = MemoryJobStatus::Error;
        job.finished_at = Some(now);
        job.lease_until = None;
        job.retry_at = Some(retry_at);
        job.retry_remaining = retry_remaining;
        job.last_error = Some(reason.to_owned());
        job
    }
}

} // verus!
