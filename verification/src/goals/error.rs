//! Errors of the thread-goal boundary.

use vstd::prelude::*;
use vstd::string::*;

verus! {

/// Result returned by the public thread-goal persistence boundary.
pub type GoalStoreResult<T> = Result<T, GoalStoreError>;

/// Stable category for a failure returned by [`super::GoalStore`].
#[derive(Clone, Copy, Debug, PartialEq, Eq, Structural)]
#[non_exhaustive]
pub enum GoalStoreErrorKind {
    Conflict,
    InvalidRequest,
    Persistence,
}

/// Thread-goal operation that failed at the Runtime State boundary.
#[derive(Clone, Copy, Debug, PartialEq, Eq, Structural)]
#[non_exhaustive]
pub enum GoalStoreOperation {
    AccountThreadGoalUsage,
    ClearThreadGoalContinuationDeferral,
    DeleteThreadGoal,
    GetThreadGoal,
    HasThreadGoalContinuationDeferral,
    InsertThreadGoal,
    PauseActiveThreadGoal,
    ReplaceThreadGoal,
    ReplaceThreadGoalSnapshot,
    UpdateThreadGoal,
    UsageLimitActiveThreadGoal,
}

/// The name of an operation in error texts.
pub open spec fn operation_text(operation: GoalStoreOperation) -> Seq<char> {
    match operation {
        GoalStoreOperation::AccountThreadGoalUsage => "account thread goal usage"@,
        GoalStoreOperation::ClearThreadGoalContinuationDeferral => "clear thread goal continuation deferral"@,
        GoalStoreOperation::DeleteThreadGoal => "delete thread goal"@,
        GoalStoreOperation::GetThreadGoal => "get thread goal"@,
        GoalStoreOperation::HasThreadGoalContinuationDeferral => "check thread goal continuation deferral"@,
        GoalStoreOperation::InsertThreadGoal => "insert thread goal"@,
        GoalStoreOperation::PauseActiveThreadGoal => "pause active thread goal"@,
        GoalStoreOperation::ReplaceThreadGoal => "replace thread goal"@,
        GoalStoreOperation::ReplaceThreadGoalSnapshot => "replace thread goal snapshot"@,
        GoalStoreOperation::UpdateThreadGoal => "update thread goal"@,
        GoalStoreOperation::UsageLimitActiveThreadGoal => "usage limit active thread goal"@,
    }
}

impl GoalStoreOperation {
    pub fn as_str(self) -> (text: &'static str)
        ensures
            text@ == operation_text(self),
    {
        match self {
            Self::AccountThreadGoalUsage => "account thread goal usage",
            Self::ClearThreadGoalContinuationDeferral => "clear thread goal continuation deferral",
            Self::DeleteThreadGoal => "delete thread goal",
            Self::GetThreadGoal => "get thread goal",
            Self::HasThreadGoalContinuationDeferral => "check thread goal continuation deferral",
            Self::InsertThreadGoal => "insert thread goal",
            Self::PauseActiveThreadGoal => "pause active thread goal",
            Self::ReplaceThreadGoal => "replace thread goal",
            Self::ReplaceThreadGoalSnapshot => "replace thread goal snapshot",
            Self::UpdateThreadGoal => "update thread goal",
            Self::UsageLimitActiveThreadGoal => "usage limit active thread goal",
        }
    }
}

/// Why a goal operation did not complete.
#[derive(Clone, Copy, Debug, PartialEq, Eq, Structural)]
pub enum GoalStoreFailure {
    AccountingEventConflict,
    AccountingEventIdRequired,
    /// The rows could not be read or written.
    Unavailable,
}

/// The public category of a failure.
pub open spec fn failure_kind(failure: GoalStoreFailure) -> GoalStoreErrorKind {
    match failure {
        GoalStoreFailure::AccountingEventConflict => GoalStoreErrorKind::Conflict,
        GoalStoreFailure::AccountingEventIdRequired => GoalStoreErrorKind::InvalidRequest,
        GoalStoreFailure::Unavailable => GoalStoreErrorKind::Persistence,
    }
}

/// The text of an error of the given kind and operation.
pub open spec fn error_text(kind: GoalStoreErrorKind, operation: GoalStoreOperation) -> Seq<char> {
    "Runtime State could not complete the `"@ + operation_text(operation) + match kind {
        GoalStoreErrorKind::Conflict => "` operation because the accounting event conflicts with persisted goal usage"@,
        GoalStoreErrorKind::InvalidRequest => "` operation because the request is invalid"@,
        GoalStoreErrorKind::Persistence => "` operation; verify goal persistence health, then retry"@,
    }
}

/// Backend-independent error returned by thread-goal reads and mutations.
#[derive(Clone, Copy, Debug, PartialEq, Eq, Structural)]
pub struct GoalStoreError {
    kind: GoalStoreErrorKind,
    operation: GoalStoreOperation,
}

impl View for GoalStoreError {
    type V = (GoalStoreErrorKind, GoalStoreOperation);

    closed spec fn view(&self) -> (GoalStoreErrorKind, GoalStoreOperation) {
        (self.kind, self.operation)
    }
}

impl GoalStoreError {
    pub fn kind(&self) -> (kind: GoalStoreErrorKind)
        ensures
            kind == self@.0,
    {
        self.kind
    }

    pub fn operation(&self) -> (operation: GoalStoreOperation)
        ensures
            operation == self@.1,
    {
        self.operation
    }

    /// The error of `operation` when it ends in `source`.
    pub fn from_source(operation: GoalStoreOperation, source: GoalStoreFailure) -> (error: Self)
        ensures
            error@ == (failure_kind(source), operation),
    {
        let kind = match source {
            GoalStoreFailure::AccountingEventConflict => GoalStoreErrorKind::Conflict,
            GoalStoreFailure::AccountingEventIdRequired => GoalStoreErrorKind::InvalidRequest,
            GoalStoreFailure::Unavailable => GoalStoreErrorKind::Persistence,
        };
        GoalStoreError { kind, operation }
    }

    /// The text shown to callers: it names the operation, never the storage behind it.
    pub fn message(&self) -> (text: String)
        ensures
            text@ == error_text(self@.0, self@.1),
    {
        let mut text = String::from_str("Runtime State could not complete the `");
        text.append(self.operation.as_str());
        text.append(match self.kind {
            GoalStoreErrorKind::Conflict => "` operation because the accounting event conflicts with persisted goal usage",
            GoalStoreErrorKind::InvalidRequest => "` operation because the request is invalid",
            GoalStoreErrorKind::Persistence => "` operation; verify goal persistence health, then retry",
        });
        text
    }
}

/// Report the failure of `operation` at the public boundary.
pub fn public_goal_store_result<T>(
    operation: GoalStoreOperation,
    result: Result<T, GoalStoreFailure>,
) -> (public: GoalStoreResult<T>)
    ensures
        match result {
            Ok(value) => public == Ok::<T, GoalStoreError>(value),
            Err(source) => public is Err && public->Err_0@ == (failure_kind(source), operation),
        },
{
    match result {
        Ok(value) => Ok(value),
        Err(source) => Err(GoalStoreError::from_source(operation, source)),
    }
}

} // verus!
