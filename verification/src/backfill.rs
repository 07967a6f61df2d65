//! Coordination of the one backfill of rollout metadata.
//!
//! The right to work on the backfill is a lease. Every change made under a lease is fenced by its
//! owner and by a token that grows with each claim, so that whoever lost the lease changes
//! nothing.

pub mod laws;
pub mod lease_laws;

use crate::outside::now_millis;
use crate::text::is_text;
use crate::text::owned_text;
use crate::text::str_view;
use crate::text::same_text;
use crate::thread_id::opt_view;
use crate::threads::clone_text;
use crate::time::whole_seconds;
use crate::time::whole_seconds_of;
use vstd::prelude::*;
use vstd::string::*;

verus! {

#[derive(Clone, Copy, Debug, PartialEq, Eq, Structural)]
pub enum BackfillStatus {
    Pending,
    Running,
    Complete,
}

pub open spec fn backfill_status_text(status: BackfillStatus) -> Seq<char> {
    match status {
        BackfillStatus::Pending => "pending"@,
        BackfillStatus::Running => "running"@,
        BackfillStatus::Complete => "complete"@,
    }
}

impl BackfillStatus {
    /// The stored name of the status.
    pub fn as_str(self) -> (text: &'static str)
        ensures
            text@ == backfill_status_text(self),
    {
        match self {
            Self::Pending => "pending",
            Self::Running => "running",
            Self::Complete => "complete",
        }
    }

    /// The status with the given stored name.
    pub fn parse(text: &str) -> (status: Option<Self>)
        ensures
            match status {
                Some(status) => text@ == backfill_status_text(status),
                None => forall|status: BackfillStatus| text@ != #[trigger] backfill_status_text(status),
            },
    {
        if same_text(text, "pending") {
            Some(Self::Pending)
        } else if same_text(text, "running") {
            Some(Self::Running)
        } else if same_text(text, "complete") {
            Some(Self::Complete)
        } else {
            None
        }
    }
}

/// How far the backfill is. Times are seconds since the Unix epoch.
#[derive(Debug, PartialEq, Eq)]
pub struct BackfillState {
    pub status: BackfillStatus,
    pub last_watermark: Option<String>,
    pub last_success_at: Option<i64>,
}

#[verifier::ext_equal]
pub struct BackfillStateView {
    pub status: BackfillStatus,
    pub last_watermark: Option<Seq<char>>,
    pub last_success_at: Option<i64>,
}

impl View for BackfillState {
    type V = BackfillStateView;

    open spec fn view(&self) -> BackfillStateView {
        BackfillStateView {
            status: self.status,
            last_watermark: opt_view(self.last_watermark),
            last_success_at: self.last_success_at,
        }
    }
}

impl Default for BackfillState {
    /// Nothing was done yet.
    fn default() -> (state: Self)
        ensures
            state@ == initial_row().state,
    {
        BackfillState { status: BackfillStatus::Pending, last_watermark: None, last_success_at: None }
    }
}

impl Clone for BackfillState {
    fn clone(&self) -> (copy: Self)
        ensures
            copy == *self,
    {
        BackfillState { status: self.status, last_watermark: clone_text(&self.last_watermark), last_success_at: self.last_success_at }
    }
}

/// The stored row of the backfill.
#[derive(Debug, PartialEq, Eq)]
pub struct BackfillRow {
    pub state: BackfillState,
    pub owner_id: Option<String>,
    pub fencing_token: i64,
    /// When the lease expires, in milliseconds.
    pub lease_expires_at_ms: Option<i64>,
    /// When the row was last written, in seconds.
    pub updated_at: i64,
}

#[verifier::ext_equal]
pub struct BackfillRowView {
    pub state: BackfillStateView,
    pub owner_id: Option<Seq<char>>,
    pub fencing_token: i64,
    pub lease_expires_at_ms: Option<i64>,
    pub updated_at: i64,
}

impl View for BackfillRow {
    type V = BackfillRowView;

    open spec fn view(&self) -> BackfillRowView {
        BackfillRowView {
            state: self.state@,
            owner_id: opt_view(self.owner_id),
            fencing_token: self.fencing_token,
            lease_expires_at_ms: self.lease_expires_at_ms,
            updated_at: self.updated_at,
        }
    }
}

/// The row before anything happened.
pub open spec fn initial_row() -> BackfillRowView {
    BackfillRowView {
        state: BackfillStateView { status: BackfillStatus::Pending, last_watermark: None, last_success_at: None },
        owner_id: None,
        fencing_token: 0,
        lease_expires_at_ms: None,
        updated_at: 0,
    }
}

/// The right to work on the backfill.
#[derive(Debug, PartialEq, Eq)]
pub struct BackfillLease {
    owner_id: String,
    fencing_token: i64,
}

impl Clone for BackfillLease {
    fn clone(&self) -> (copy: Self)
        ensures
            copy == *self,
    {
        BackfillLease { owner_id: self.owner_id.clone(), fencing_token: self.fencing_token }
    }
}

#[verifier::ext_equal]
pub struct BackfillLeaseView {
    pub owner_id: Seq<char>,
    pub fencing_token: i64,
}

impl View for BackfillLease {
    type V = BackfillLeaseView;

    closed spec fn view(&self) -> BackfillLeaseView {
        BackfillLeaseView { owner_id: self.owner_id@, fencing_token: self.fencing_token }
    }
}

impl BackfillLease {
    pub fn owner_id(&self) -> (owner_id: &str)
        ensures
            owner_id@ == self@.owner_id,
    {
        self.owner_id.as_str()
    }

    pub fn fencing_token(&self) -> (fencing_token: i64)
        ensures
            fencing_token == self@.fencing_token,
    {
        self.fencing_token
    }
}

/// What came of an attempt to claim the backfill.
#[derive(Debug, PartialEq, Eq)]
pub enum BackfillClaimOutcome {
    Claimed { lease: BackfillLease, state: BackfillState },
    Busy(BackfillState),
    Complete(BackfillState),
}

impl Clone for BackfillClaimOutcome {
    fn clone(&self) -> (copy: Self)
        ensures
            copy == *self,
    {
        match self {
            BackfillClaimOutcome::Claimed { lease, state } => BackfillClaimOutcome::Claimed { lease: lease.clone(), state: state.clone() },
            BackfillClaimOutcome::Busy(state) => BackfillClaimOutcome::Busy(state.clone()),
            BackfillClaimOutcome::Complete(state) => BackfillClaimOutcome::Complete(state.clone()),
        }
    }
}

pub enum BackfillClaimOutcomeView {
    Claimed { lease: BackfillLeaseView, state: BackfillStateView },
    Busy(BackfillStateView),
    Complete(BackfillStateView),
}

impl View for BackfillClaimOutcome {
    type V = BackfillClaimOutcomeView;

    open spec fn view(&self) -> BackfillClaimOutcomeView {
        match self {
            BackfillClaimOutcome::Claimed { lease, state } => BackfillClaimOutcomeView::Claimed { lease: lease@, state: state@ },
            BackfillClaimOutcome::Busy(state) => BackfillClaimOutcomeView::Busy(state@),
            BackfillClaimOutcome::Complete(state) => BackfillClaimOutcomeView::Complete(state@),
        }
    }
}

/// What came of a change made under a lease.
#[derive(Clone, Copy, Debug, PartialEq, Eq, Structural)]
pub enum BackfillLeaseUpdate {
    Applied,
    Rejected,
}

impl From<bool> for BackfillLeaseUpdate {
    fn from(applied: bool) -> (update: Self) {
        if applied {
            Self::Applied
        } else {
            Self::Rejected
        }
    }
}

impl vstd::std_specs::convert::FromSpecImpl<bool> for BackfillLeaseUpdate {
    open spec fn obeys_from_spec() -> bool {
        true
    }

    open spec fn from_spec(applied: bool) -> BackfillLeaseUpdate {
        if applied {
            BackfillLeaseUpdate::Applied
        } else {
            BackfillLeaseUpdate::Rejected
        }
    }
}

#[derive(Clone, Copy, Debug, PartialEq, Eq, Structural)]
pub enum BackfillOperation {
    State,
    Claim,
    Run,
    Heartbeat,
    Checkpoint,
    Release,
    Complete,
}

pub open spec fn backfill_operation_text(operation: BackfillOperation) -> Seq<char> {
    match operation {
        BackfillOperation::State => "read backfill state"@,
        BackfillOperation::Claim => "claim backfill"@,
        BackfillOperation::Run => "run backfill"@,
        BackfillOperation::Heartbeat => "heartbeat backfill"@,
        BackfillOperation::Checkpoint => "checkpoint backfill"@,
        BackfillOperation::Release => "release backfill"@,
        BackfillOperation::Complete => "complete backfill"@,
    }
}

/// Why the backfill could not be coordinated.
#[derive(Clone, Copy, Debug, PartialEq, Eq, Structural)]
pub enum BackfillError {
    EmptyOwner,
    LeaseTooLong,
    /// The operation is one of the local database.
    LocalOnly,
    /// The store is closed, or a stored number would leave its range.
    Persistence(BackfillOperation),
}

impl BackfillError {
    pub open spec fn text(self) -> Seq<char> {
        match self {
            BackfillError::EmptyOwner => "backfill owner ID must not be empty"@,
            BackfillError::LeaseTooLong => "backfill lease duration exceeds supported range"@,
            BackfillError::LocalOnly => "the operation needs the local SQLite runtime state"@,
            BackfillError::Persistence(operation) => "Runtime State could not complete the `"@ + backfill_operation_text(operation)
                + "` operation; verify backfill coordination persistence health, then retry"@,
        }
    }

    pub fn message(&self) -> (text: String)
        ensures
            text@ == self.text(),
    {
        match self {
            BackfillError::EmptyOwner => "backfill owner ID must not be empty".to_owned(),
            BackfillError::LeaseTooLong => "backfill lease duration exceeds supported range".to_owned(),
            BackfillError::LocalOnly => "the operation needs the local SQLite runtime state".to_owned(),
            BackfillError::Persistence(operation) => {
                let mut text = "Runtime State could not complete the `".to_owned();
                text.append(
                    match operation {
                        BackfillOperation::State => "read backfill state",
                        BackfillOperation::Claim => "claim backfill",
                        BackfillOperation::Run => "run backfill",
                        BackfillOperation::Heartbeat => "heartbeat backfill",
                        BackfillOperation::Checkpoint => "checkpoint backfill",
                        BackfillOperation::Release => "release backfill",
                        BackfillOperation::Complete => "complete backfill",
                    },
                );
                text.append("` operation; verify backfill coordination persistence health, then retry");
                text
            },
        }
    }
}

/// The length of a lease in milliseconds, as it is stored.
pub fn lease_millis(duration_millis: u128) -> (result: Result<i64, BackfillError>)
    ensures
        result == if duration_millis <= i64::MAX {
            Ok(duration_millis as i64)
        } else {
            Err::<i64, BackfillError>(BackfillError::LeaseTooLong)
        },
{
    if duration_millis <= 9223372036854775807u128 {
        Ok(duration_millis as i64)
    } else {
        Err(BackfillError::LeaseTooLong)
    }
}

/// The backfill is being worked on under a lease that has not expired.
pub open spec fn is_leased(row: BackfillRowView, now_ms: i64) -> bool {
    row.state.status == BackfillStatus::Running && row.lease_expires_at_ms is Some && row.lease_expires_at_ms->0 > now_ms
}

/// The lease is the current one and has not expired.
pub open spec fn holds_lease(row: BackfillRowView, lease: BackfillLeaseView, now_ms: i64) -> bool {
    is_leased(row, now_ms) && row.owner_id == Some(lease.owner_id) && row.fencing_token == lease.fencing_token
}

/// The row after `owner_id` claimed the backfill.
pub open spec fn claimed_row(row: BackfillRowView, owner_id: Seq<char>, lease_millis: i64, now_ms: i64) -> BackfillRowView {
    BackfillRowView {
        state: BackfillStateView { status: BackfillStatus::Running, ..row.state },
        owner_id: Some(owner_id),
        fencing_token: (row.fencing_token + 1) as i64,
        lease_expires_at_ms: Some((now_ms + lease_millis) as i64),
        updated_at: whole_seconds(now_ms),
    }
}

/// What a claim leads to.
pub open spec fn claiming_backfill(
    row: BackfillRowView,
    closed: bool,
    owner_id: Seq<char>,
    duration_millis: u128,
    now_ms: i64,
) -> (BackfillRowView, Result<BackfillClaimOutcomeView, BackfillError>) {
    if owner_id.len() == 0 {
        (row, Err(BackfillError::EmptyOwner))
    } else if duration_millis > i64::MAX {
        (row, Err(BackfillError::LeaseTooLong))
    } else if closed {
        (row, Err(BackfillError::Persistence(BackfillOperation::Claim)))
    } else if row.state.status == BackfillStatus::Complete {
        (row, Ok(BackfillClaimOutcomeView::Complete(row.state)))
    } else if is_leased(row, now_ms) {
        (row, Ok(BackfillClaimOutcomeView::Busy(row.state)))
    } else if row.fencing_token == i64::MAX || now_ms + duration_millis > i64::MAX {
        (row, Err(BackfillError::Persistence(BackfillOperation::Claim)))
    } else {
        let after = claimed_row(row, owner_id, duration_millis as i64, now_ms);
        (
            after,
            Ok(
                BackfillClaimOutcomeView::Claimed {
                    lease: BackfillLeaseView { owner_id, fencing_token: after.fencing_token },
                    state: after.state,
                },
            ),
        )
    }
}

/// What renewing a lease leads to, with the progress made if any.
pub open spec fn renewing_backfill(
    row: BackfillRowView,
    closed: bool,
    operation: BackfillOperation,
    lease: BackfillLeaseView,
    duration_millis: u128,
    watermark: Option<Seq<char>>,
    now_ms: i64,
) -> (BackfillRowView, Result<BackfillLeaseUpdate, BackfillError>) {
    if duration_millis > i64::MAX {
        (row, Err(BackfillError::LeaseTooLong))
    } else if closed {
        (row, Err(BackfillError::Persistence(operation)))
    } else if !holds_lease(row, lease, now_ms) {
        (row, Ok(BackfillLeaseUpdate::Rejected))
    } else if now_ms + duration_millis > i64::MAX {
        (row, Err(BackfillError::Persistence(operation)))
    } else {
        (
            BackfillRowView {
                state: BackfillStateView { last_watermark: progress(row, watermark), ..row.state },
                lease_expires_at_ms: Some((now_ms + duration_millis) as i64),
                updated_at: whole_seconds(now_ms),
                ..row
            },
            Ok(BackfillLeaseUpdate::Applied),
        )
    }
}

/// The new watermark if there is one, or else the old.
pub open spec fn progress(row: BackfillRowView, watermark: Option<Seq<char>>) -> Option<Seq<char>> {
    match watermark {
        Some(_) => watermark,
        None => row.state.last_watermark,
    }
}

/// What giving a lease back leads to.
pub open spec fn finishing_backfill(
    row: BackfillRowView,
    closed: bool,
    operation: BackfillOperation,
    lease: BackfillLeaseView,
    status: BackfillStatus,
    watermark: Option<Seq<char>>,
    now_ms: i64,
) -> (BackfillRowView, Result<BackfillLeaseUpdate, BackfillError>) {
    if closed {
        (row, Err(BackfillError::Persistence(operation)))
    } else if !holds_lease(row, lease, now_ms) {
        (row, Ok(BackfillLeaseUpdate::Rejected))
    } else {
        (
            BackfillRowView {
                state: BackfillStateView {
                    status,
                    last_watermark: progress(row, watermark),
                    last_success_at: if status == BackfillStatus::Complete {
                        Some(whole_seconds(now_ms))
                    } else {
                        row.state.last_success_at
                    },
                },
                owner_id: None,
                lease_expires_at_ms: None,
                updated_at: whole_seconds(now_ms),
                ..row
            },
            Ok(BackfillLeaseUpdate::Applied),
        )
    }
}

/// Coordinates the backfill.
pub struct BackfillCoordinator {
    row: BackfillRow,
    closed: bool,
}

#[verifier::ext_equal]
pub struct BackfillCoordinatorView {
    pub row: BackfillRowView,
    pub closed: bool,
}

impl BackfillCoordinatorView {
    /// The coordinator over another row.
    pub open spec fn with_row(self, row: BackfillRowView) -> BackfillCoordinatorView {
        BackfillCoordinatorView { row, ..self }
    }
}

impl View for BackfillCoordinator {
    type V = BackfillCoordinatorView;

    closed spec fn view(&self) -> BackfillCoordinatorView {
        BackfillCoordinatorView { row: self.row@, closed: self.closed }
    }
}

/// The view of an outcome, or the error.
pub open spec fn claim_view(result: Result<BackfillClaimOutcome, BackfillError>) -> Result<BackfillClaimOutcomeView, BackfillError> {
    match result {
        Ok(outcome) => Ok(outcome@),
        Err(error) => Err(error),
    }
}

impl BackfillCoordinator {
    /// The coordinator over the stored row; without one, over the initial row.
    pub fn new(row: Option<BackfillRow>) -> (coordinator: Self)
        ensures
            coordinator@ == (BackfillCoordinatorView {
                row: match row {
                    Some(row) => row@,
                    None => initial_row(),
                },
                closed: false,
            }),
    {
        let row = match row {
            Some(row) => row,
            None => BackfillRow {
                state: BackfillState { status: BackfillStatus::Pending, last_watermark: None, last_success_at: None },
                owner_id: None,
                fencing_token: 0,
                lease_expires_at_ms: None,
                updated_at: 0,
            },
        };
        BackfillCoordinator { row, closed: false }
    }

    /// Stops the store: from now on every operation fails.
    pub fn close(&mut self)
        ensures
            final(self)@ == (BackfillCoordinatorView { closed: true, ..old(self)@ }),
    {
        self.closed = true;
    }

    /// The stored row.
    pub fn row(&self) -> (row: &BackfillRow)
        ensures
            row@ == self@.row,
    {
        &self.row
    }

    /// How far the backfill is.
    pub fn state(&self) -> (result: Result<BackfillState, BackfillError>)
        ensures
            match result {
                Ok(state) => !self@.closed && state@ == self@.row.state,
                Err(error) => self@.closed && error == BackfillError::Persistence(BackfillOperation::State),
            },
    {
        if self.closed {
            return Err(BackfillError::Persistence(BackfillOperation::State));
        }
        Ok(self.row.state.clone())
    }

    fn holds(&self, lease: &BackfillLease, now_ms: i64) -> (held: bool)
        ensures
            held == holds_lease(self@.row, lease@, now_ms),
    {
        self.leased(now_ms) && is_text(&self.row.owner_id, lease.owner_id.as_str()) && self.row.fencing_token == lease.fencing_token
    }

    fn leased(&self, now_ms: i64) -> (leased: bool)
        ensures
            leased == is_leased(self@.row, now_ms),
    {
        if !matches!(self.row.state.status, BackfillStatus::Running) {
            return false;
        }
        match self.row.lease_expires_at_ms {
            Some(expires) => expires > now_ms,
            None => false,
        }
    }

    /// Claims the backfill for `owner_id`.
    pub fn try_claim(&mut self, owner_id: &str, lease_duration_millis: u128) -> (result: Result<BackfillClaimOutcome, BackfillError>)
        ensures
            final(self)@.closed == old(self)@.closed,
            exists|now_ms: i64| (final(self)@.row, claim_view(result)) == #[trigger] claiming_backfill(
                old(self)@.row,
                old(self)@.closed,
                owner_id@,
                lease_duration_millis,
                now_ms,
            ),
    {
        let now_ms: i64 = now_millis();
        self.try_claim_at(owner_id, lease_duration_millis, now_ms)
    }

    /// Claims the backfill for `owner_id` at the given time.
    pub fn try_claim_at(&mut self, owner_id: &str, lease_duration_millis: u128, now_ms: i64) -> (result: Result<BackfillClaimOutcome, BackfillError>)
        ensures
            final(self)@.closed == old(self)@.closed,
            (final(self)@.row, claim_view(result)) == claiming_backfill(
                old(self)@.row,
                old(self)@.closed,
                owner_id@,
                lease_duration_millis,
                now_ms,
            ),
    {
        if owner_id.is_empty() {
            return Err(BackfillError::EmptyOwner);
        }
        let lease: i64 = match lease_millis(lease_duration_millis) {
            Ok(lease) => lease,
            Err(error) => return Err(error),
        };
        if self.closed {
            return Err(BackfillError::Persistence(BackfillOperation::Claim));
        }
        if matches!(self.row.state.status, BackfillStatus::Complete) {
            return Ok(BackfillClaimOutcome::Complete(self.row.state.clone()));
        }
        if self.leased(now_ms) {
            return Ok(BackfillClaimOutcome::Busy(self.row.state.clone()));
        }
        if self.row.fencing_token == i64::MAX {
            return Err(BackfillError::Persistence(BackfillOperation::Claim));
        }
        let expires: i64 = match now_ms.checked_add(lease) {
            Some(expires) => expires,
            None => return Err(BackfillError::Persistence(BackfillOperation::Claim)),
        };
        self.row.state.status = BackfillStatus::Running;
        self.row.owner_id = Some(owner_id.to_owned());
        self.row.fencing_token = self.row.fencing_token + 1;
        self.row.lease_expires_at_ms = Some(expires);
        self.row.updated_at = whole_seconds_of(now_ms);
        let lease = BackfillLease { owner_id: owner_id.to_owned(), fencing_token: self.row.fencing_token };
        let state = self.row.state.clone();
        Ok(BackfillClaimOutcome::Claimed { lease, state })
    }

    /// Renews a lease.
    pub fn heartbeat(&mut self, lease: &BackfillLease, lease_duration_millis: u128) -> (result: Result<BackfillLeaseUpdate, BackfillError>)
        ensures
            final(self)@.closed == old(self)@.closed,
            exists|now_ms: i64| (final(self)@.row, result) == #[trigger] renewing_backfill(
                old(self)@.row,
                old(self)@.closed,
                BackfillOperation::Heartbeat,
                lease@,
                lease_duration_millis,
                None,
                now_ms,
            ),
    {
        let now_ms: i64 = now_millis();
        self.update_lease_at(BackfillOperation::Heartbeat, lease, lease_duration_millis, None, now_ms)
    }

    /// Records progress and renews the lease.
    pub fn checkpoint(&mut self, lease: &BackfillLease, watermark: &str, lease_duration_millis: u128) -> (result: Result<BackfillLeaseUpdate, BackfillError>)
        ensures
            final(self)@.closed == old(self)@.closed,
            exists|now_ms: i64| (final(self)@.row, result) == #[trigger] renewing_backfill(
                old(self)@.row,
                old(self)@.closed,
                BackfillOperation::Checkpoint,
                lease@,
                lease_duration_millis,
                Some(watermark@),
                now_ms,
            ),
    {
        let now_ms: i64 = now_millis();
        self.update_lease_at(BackfillOperation::Checkpoint, lease, lease_duration_millis, Some(watermark), now_ms)
    }

    /// Renews a lease at the given time, recording progress if there is any.
    pub fn update_lease_at(
        &mut self,
        operation: BackfillOperation,
        lease: &BackfillLease,
        lease_duration_millis: u128,
        watermark: Option<&str>,
        now_ms: i64,
    ) -> (result: Result<BackfillLeaseUpdate, BackfillError>)
        ensures
            final(self)@.closed == old(self)@.closed,
            (final(self)@.row, result) == renewing_backfill(
                old(self)@.row,
                old(self)@.closed,
                operation,
                lease@,
                lease_duration_millis,
                str_view(watermark),
                now_ms,
            ),
    {
        let renewed: i64 = match lease_millis(lease_duration_millis) {
            Ok(renewed) => renewed,
            Err(error) => return Err(error),
        };
        if self.closed {
            return Err(BackfillError::Persistence(operation));
        }
        if !self.holds(lease, now_ms) {
            return Ok(BackfillLeaseUpdate::from(false));
        }
        let expires: i64 = match now_ms.checked_add(renewed) {
            Some(expires) => expires,
            None => return Err(BackfillError::Persistence(operation)),
        };
        if watermark.is_some() {
            self.row.state.last_watermark = owned_text(watermark);
        }
        self.row.lease_expires_at_ms = Some(expires);
        self.row.updated_at = whole_seconds_of(now_ms);
        Ok(BackfillLeaseUpdate::from(true))
    }

    /// Gives a lease back, the backfill being unfinished.
    pub fn release(&mut self, lease: &BackfillLease) -> (result: Result<BackfillLeaseUpdate, BackfillError>)
        ensures
            final(self)@.closed == old(self)@.closed,
            exists|now_ms: i64| (final(self)@.row, result) == #[trigger] finishing_backfill(
                old(self)@.row,
                old(self)@.closed,
                BackfillOperation::Release,
                lease@,
                BackfillStatus::Pending,
                None,
                now_ms,
            ),
    {
        let now_ms: i64 = now_millis();
        self.finish_at(BackfillOperation::Release, lease, BackfillStatus::Pending, None, now_ms)
    }

    /// Gives a lease back, the backfill being complete.
    pub fn complete(&mut self, lease: &BackfillLease, last_watermark: Option<&str>) -> (result: Result<BackfillLeaseUpdate, BackfillError>)
        ensures
            final(self)@.closed == old(self)@.closed,
            exists|now_ms: i64| (final(self)@.row, result) == #[trigger] finishing_backfill(
                old(self)@.row,
                old(self)@.closed,
                BackfillOperation::Complete,
                lease@,
                BackfillStatus::Complete,
                str_view(last_watermark),
                now_ms,
            ),
    {
        let now_ms: i64 = now_millis();
        self.finish_at(BackfillOperation::Complete, lease, BackfillStatus::Complete, last_watermark, now_ms)
    }

    /// Gives a lease back at the given time.
    pub fn finish_at(
        &mut self,
        operation: BackfillOperation,
        lease: &BackfillLease,
        status: BackfillStatus,
        last_watermark: Option<&str>,
        now_ms: i64,
    ) -> (result: Result<BackfillLeaseUpdate, BackfillError>)
        ensures
            final(self)@.closed == old(self)@.closed,
            (final(self)@.row, result) == finishing_backfill(
                old(self)@.row,
                old(self)@.closed,
                operation,
                lease@,
                status,
                str_view(last_watermark),
                now_ms,
            ),
    {
        if self.closed {
            return Err(BackfillError::Persistence(operation));
        }
        if !self.holds(lease, now_ms) {
            return Ok(BackfillLeaseUpdate::from(false));
        }
        let now: i64 = whole_seconds_of(now_ms);
        self.row.state.status = status;
        if last_watermark.is_some() {
            self.row.state.last_watermark = owned_text(last_watermark);
        }
        if matches!(status, BackfillStatus::Complete) {
            self.row.state.last_success_at = Some(now);
        }
        self.row.owner_id = None;
        self.row.lease_expires_at_ms = None;
        self.row.updated_at = now;
        Ok(BackfillLeaseUpdate::from(true))
    }

    /// Claims the worker slot by time alone: unless the backfill is complete, or was worked on
    /// within the last `lease_seconds`.
    pub fn try_claim_slot_at(&mut self, lease_seconds: i64, now: i64) -> (result: Result<bool, BackfillError>)
        ensures
            match result {
                Ok(claimed) => {
                    &&& !old(self)@.closed
                    &&& claimed == is_slot_free(old(self)@.row, lease_seconds, now)
                    &&& final(self)@ == if claimed {
                        old(self)@.with_row(running_row(old(self)@.row, old(self)@.row.state.last_watermark, now))
                    } else {
                        old(self)@
                    }
                },
                Err(error) => refuses_closed(old(self)@, BackfillOperation::Claim, error) && final(self)@ == old(self)@,
            },
    {
        if self.closed {
            return Err(BackfillError::Persistence(BackfillOperation::Claim));
        }
        let lease: i64 = if lease_seconds > 0 {
            lease_seconds
        } else {
            0
        };
        let cutoff: i64 = match now.checked_sub(lease) {
            Some(cutoff) => cutoff,
            None => i64::MIN,
        };
        let free = match self.row.state.status {
            BackfillStatus::Complete => false,
            BackfillStatus::Running => self.row.updated_at <= cutoff,
            BackfillStatus::Pending => true,
        };
        if free {
            self.row.state.status = BackfillStatus::Running;
            self.row.updated_at = now;
        }
        Ok(free)
    }

    /// Records, without a lease, that the backfill is running, and its progress if there is any.
    pub fn mark_running_at(&mut self, watermark: Option<&str>, now: i64) -> (result: Result<(), BackfillError>)
        ensures
            match result {
                Ok(_) => {
                    &&& !old(self)@.closed
                    &&& final(self)@ == old(self)@.with_row(running_row(old(self)@.row, progress(old(self)@.row, str_view(watermark)), now))
                },
                Err(error) => {
                    &&& refuses_closed(old(self)@, run_operation(watermark is Some), error)
                    &&& final(self)@ == old(self)@
                },
            },
    {
        if self.closed {
            let operation = if watermark.is_some() {
                BackfillOperation::Checkpoint
            } else {
                BackfillOperation::Run
            };
            return Err(BackfillError::Persistence(operation));
        }
        self.row.state.status = BackfillStatus::Running;
        if watermark.is_some() {
            self.row.state.last_watermark = owned_text(watermark);
        }
        self.row.updated_at = now;
        Ok(())
    }

    /// Records, without a lease, that the backfill is complete.
    pub fn mark_complete_at(&mut self, last_watermark: Option<&str>, now: i64) -> (result: Result<(), BackfillError>)
        ensures
            match result {
                Ok(_) => {
                    &&& !old(self)@.closed
                    &&& final(self)@ == old(self)@.with_row(completed_row(old(self)@.row, str_view(last_watermark), now))
                },
                Err(error) => refuses_closed(old(self)@, BackfillOperation::Complete, error) && final(self)@ == old(self)@,
            },
    {
        if self.closed {
            return Err(BackfillError::Persistence(BackfillOperation::Complete));
        }
        self.row.state.status = BackfillStatus::Complete;
        if last_watermark.is_some() {
            self.row.state.last_watermark = owned_text(last_watermark);
        }
        self.row.state.last_success_at = Some(now);
        self.row.updated_at = now;
        Ok(())
    }
}

/// `now - seconds`, not below the range.
pub open spec fn seconds_before(now: i64, seconds: i64) -> i64 {
    if now - seconds < i64::MIN {
        i64::MIN
    } else if now - seconds > i64::MAX {
        i64::MAX
    } else {
        (now - seconds) as i64
    }
}

/// Nobody worked on the unfinished backfill within the last `lease_seconds`.
pub open spec fn is_slot_free(row: BackfillRowView, lease_seconds: i64, now: i64) -> bool {
    match row.state.status {
        BackfillStatus::Complete => false,
        BackfillStatus::Running => row.updated_at <= seconds_before(
            now,
            if lease_seconds > 0 {
                lease_seconds
            } else {
                0
            },
        ),
        BackfillStatus::Pending => true,
    }
}

/// A closed coordinator fails with the error of the operation.
pub open spec fn refuses_closed(coordinator: BackfillCoordinatorView, operation: BackfillOperation, error: BackfillError) -> bool {
    coordinator.closed && error == BackfillError::Persistence(operation)
}

/// What recording a running backfill is called, with progress and without.
pub open spec fn run_operation(has_progress: bool) -> BackfillOperation {
    if has_progress {
        BackfillOperation::Checkpoint
    } else {
        BackfillOperation::Run
    }
}

/// The row of a backfill that was completed without a lease.
pub open spec fn completed_row(row: BackfillRowView, last_watermark: Option<Seq<char>>, now: i64) -> BackfillRowView {
    BackfillRowView {
        state: BackfillStateView {
            status: BackfillStatus::Complete,
            last_watermark: progress(row, last_watermark),
            last_success_at: Some(now),
        },
        updated_at: now,
        ..row
    }
}

/// The row of a running backfill.
pub open spec fn running_row(row: BackfillRowView, watermark: Option<Seq<char>>, now: i64) -> BackfillRowView {
    BackfillRowView {
        state: BackfillStateView { status: BackfillStatus::Running, last_watermark: watermark, ..row.state },
        updated_at: now,
        ..row
    }
}

} // verus!
