//! Rows as they are stored, and what is read from them.

use crate::backfill::backfill_status_text;
use crate::backfill::BackfillState;
use crate::backfill::BackfillStateView;
use crate::backfill::BackfillStatus;
use crate::goals::status_text;
use crate::goals::ThreadGoal;
use crate::goals::ThreadGoalStatus;
use crate::goals::ThreadGoalView;
use crate::memory_store::Stage1Output;
use crate::memory_store::Stage1OutputView;
use crate::outside::fits_datetime;
use crate::outside::fits_timestamp;
use crate::outside::parse_thread_id;
use crate::outside::parsed_uuid;
use crate::outside::thread_id_text;
use crate::outside::uuid_text;
use crate::text::zero_padded;
use crate::text::zero_padded_text;
use crate::thread_id::opt_view;
use crate::thread_id::ThreadId;
use crate::time::is_datetime_millis;
use crate::time::is_time;
use vstd::prelude::*;
use vstd::string::*;

verus! {

/// Why nothing could be read from a row.
#[derive(Clone, Copy, Debug, PartialEq, Eq, Structural)]
pub enum RowError {
    /// The identifier is not that of a thread.
    ThreadId,
    /// The status has no such name.
    Status,
    /// The number names no time.
    Timestamp(i64),
}

impl RowError {
    pub open spec fn text(self) -> Seq<char> {
        match self {
            RowError::ThreadId => "invalid thread id"@,
            RowError::Status => "unknown status"@,
            RowError::Timestamp(value) => "invalid unix timestamp: "@ + zero_padded(value as int, 0),
        }
    }

    pub fn message(&self) -> (text: String)
        ensures
            text@ == self.text(),
    {
        match self {
            RowError::ThreadId => "invalid thread id".to_owned(),
            RowError::Status => "unknown status".to_owned(),
            RowError::Timestamp(value) => {
                let mut text = "invalid unix timestamp: ".to_owned();
                text.append(zero_padded_text(*value, 0).as_str());
                text
            },
        }
    }
}

/// The time with the given number of milliseconds.
pub fn epoch_millis_to_datetime(millis: i64) -> (result: Result<i64, RowError>)
    ensures
        result == if is_datetime_millis(millis) {
            Ok(millis)
        } else {
            Err::<i64, RowError>(RowError::Timestamp(millis))
        },
{
    if fits_datetime(millis) {
        Ok(millis)
    } else {
        Err(RowError::Timestamp(millis))
    }
}

/// The time with the given number of seconds.
pub fn datetime_from_epoch_seconds(seconds: i64) -> (result: Result<i64, RowError>)
    ensures
        result == if is_time(seconds, 0) {
            Ok(seconds)
        } else {
            Err::<i64, RowError>(RowError::Timestamp(seconds))
        },
{
    if fits_timestamp(seconds) {
        Ok(seconds)
    } else {
        Err(RowError::Timestamp(seconds))
    }
}

/// The stored form of a goal.
#[derive(Debug, PartialEq, Eq)]
pub struct ThreadGoalRow {
    pub thread_id: String,
    pub goal_id: String,
    pub objective: String,
    pub status: String,
    pub token_budget: Option<i64>,
    pub tokens_used: i64,
    pub time_used_seconds: i64,
    pub created_at_ms: i64,
    pub updated_at_ms: i64,
}

/// The row stores the goal.
pub open spec fn stores_goal(row: ThreadGoalRow, goal: ThreadGoalView) -> bool {
    &&& parsed_uuid(row.thread_id@) == Some(goal.thread_id.value)
    &&& forall|value: u128| row.thread_id@ == #[trigger] uuid_text(value) ==> goal.thread_id.value == value
    &&& row.status@ == status_text(goal.status)
    &&& goal == ThreadGoalView {
        thread_id: goal.thread_id,
        goal_id: row.goal_id@,
        objective: row.objective@,
        status: goal.status,
        token_budget: row.token_budget,
        tokens_used: row.tokens_used,
        time_used_seconds: row.time_used_seconds,
        created_at: row.created_at_ms,
        updated_at: row.updated_at_ms,
    }
}

pub open spec fn names_status(text: Seq<char>) -> bool {
    exists|status: ThreadGoalStatus| text == #[trigger] status_text(status)
}

/// Reads a goal.
pub fn thread_goal_from_row(row: &ThreadGoalRow) -> (result: Result<ThreadGoal, RowError>)
    ensures
        match result {
            Ok(goal) => {
                &&& stores_goal(*row, goal@)
                &&& is_datetime_millis(row.created_at_ms)
                &&& is_datetime_millis(row.updated_at_ms)
            },
            Err(error) => error == if parsed_uuid(row.thread_id@) is None {
                RowError::ThreadId
            } else if !names_status(row.status@) {
                RowError::Status
            } else if !is_datetime_millis(row.created_at_ms) {
                RowError::Timestamp(row.created_at_ms)
            } else {
                RowError::Timestamp(row.updated_at_ms)
            },
        },
        result is Ok <==> parsed_uuid(row.thread_id@) is Some && names_status(row.status@) && is_datetime_millis(row.created_at_ms)
            && is_datetime_millis(row.updated_at_ms),
{
    let thread_id = match parse_thread_id(row.thread_id.as_str()) {
        Some(thread_id) => thread_id,
        None => return Err(RowError::ThreadId),
    };
    let status = match ThreadGoalStatus::from_stored(row.status.as_str()) {
        Some(status) => status,
        None => return Err(RowError::Status),
    };
    assert(row.status@ == status_text(status));
    let created_at: i64 = match epoch_millis_to_datetime(row.created_at_ms) {
        Ok(time) => time,
        Err(error) => return Err(error),
    };
    let updated_at: i64 = match epoch_millis_to_datetime(row.updated_at_ms) {
        Ok(time) => time,
        Err(error) => return Err(error),
    };
    Ok(
        ThreadGoal {
            thread_id,
            goal_id: row.goal_id.clone(),
            objective: row.objective.clone(),
            status,
            token_budget: row.token_budget,
            tokens_used: row.tokens_used,
            time_used_seconds: row.time_used_seconds,
            created_at,
            updated_at,
        },
    )
}

/// The row is written for the goal.
pub open spec fn is_row_of_goal(row: ThreadGoalRow, goal: ThreadGoalView) -> bool {
    &&& row.thread_id@ == uuid_text(goal.thread_id.value)
    &&& row.goal_id@ == goal.goal_id
    &&& row.objective@ == goal.objective
    &&& row.status@ == status_text(goal.status)
    &&& row.token_budget == goal.token_budget
    &&& row.tokens_used == goal.tokens_used
    &&& row.time_used_seconds == goal.time_used_seconds
    &&& row.created_at_ms == goal.created_at
    &&& row.updated_at_ms == goal.updated_at
}

/// The row that stores a goal.
pub fn row_of_thread_goal(goal: &ThreadGoal) -> (row: ThreadGoalRow)
    ensures
        is_row_of_goal(row, goal@),
{
    ThreadGoalRow {
        thread_id: thread_id_text(goal.thread_id),
        goal_id: goal.goal_id.clone(),
        objective: goal.objective.clone(),
        status: goal.status.as_str().to_owned(),
        token_budget: goal.token_budget,
        tokens_used: goal.tokens_used,
        time_used_seconds: goal.time_used_seconds,
        created_at_ms: goal.created_at,
        updated_at_ms: goal.updated_at,
    }
}

/// The stored form of the state of the backfill.
#[derive(Debug, PartialEq, Eq)]
pub struct BackfillStateRow {
    pub status: String,
    pub last_watermark: Option<String>,
    pub last_success_at: Option<i64>,
}

pub open spec fn names_backfill_status(text: Seq<char>) -> bool {
    exists|status: BackfillStatus| text == #[trigger] backfill_status_text(status)
}

/// Reads the state of the backfill.
pub fn state_from_row(row: &BackfillStateRow) -> (result: Result<BackfillState, RowError>)
    ensures
        match result {
            Ok(state) => {
                &&& row.status@ == backfill_status_text(state@.status)
                &&& state@ == (BackfillStateView {
                    status: state@.status,
                    last_watermark: opt_view(row.last_watermark),
                    last_success_at: row.last_success_at,
                })
                &&& row.last_success_at is Some ==> is_time(row.last_success_at->0, 0)
            },
            Err(error) => error == if !names_backfill_status(row.status@) {
                RowError::Status
            } else {
                RowError::Timestamp(row.last_success_at->0)
            },
        },
        result is Ok <==> names_backfill_status(row.status@) && (row.last_success_at is Some ==> is_time(row.last_success_at->0, 0)),
{
    let status = match BackfillStatus::parse(row.status.as_str()) {
        Some(status) => status,
        None => return Err(RowError::Status),
    };
    assert(row.status@ == backfill_status_text(status));
    let last_success_at = match row.last_success_at {
        Some(seconds) => match datetime_from_epoch_seconds(seconds) {
            Ok(time) => Some(time),
            Err(error) => return Err(error),
        },
        None => None,
    };
    Ok(BackfillState { status, last_watermark: crate::threads::clone_text(&row.last_watermark), last_success_at })
}

/// The stored form of an output together with what is known of its thread.
#[derive(Debug, PartialEq, Eq)]
pub struct Stage1OutputJoinRow {
    pub thread_id: String,
    pub rollout_path: String,
    pub source_updated_at: i64,
    pub raw_memory: String,
    pub rollout_summary: String,
    pub rollout_slug: Option<String>,
    pub cwd: String,
    pub git_branch: Option<String>,
    pub generated_at: i64,
}

/// Reads an output.
pub fn stage1_output_from_row(row: &Stage1OutputJoinRow) -> (result: Result<Stage1Output, RowError>)
    ensures
        match result {
            Ok(output) => {
                &&& parsed_uuid(row.thread_id@) == Some(output@.thread_id.value)
                &&& output@ == (Stage1OutputView {
                    thread_id: output@.thread_id,
                    rollout_path: row.rollout_path@,
                    source_updated_at: row.source_updated_at,
                    raw_memory: row.raw_memory@,
                    rollout_summary: row.rollout_summary@,
                    rollout_slug: opt_view(row.rollout_slug),
                    cwd: row.cwd@,
                    git_branch: opt_view(row.git_branch),
                    generated_at: row.generated_at,
                })
                &&& is_time(row.source_updated_at, 0)
                &&& is_time(row.generated_at, 0)
            },
            Err(error) => error == if parsed_uuid(row.thread_id@) is None {
                RowError::ThreadId
            } else if !is_time(row.source_updated_at, 0) {
                RowError::Timestamp(row.source_updated_at)
            } else {
                RowError::Timestamp(row.generated_at)
            },
        },
        result is Ok <==> parsed_uuid(row.thread_id@) is Some && is_time(row.source_updated_at, 0) && is_time(row.generated_at, 0),
{
    let thread_id = match parse_thread_id(row.thread_id.as_str()) {
        Some(thread_id) => thread_id,
        None => return Err(RowError::ThreadId),
    };
    let source_updated_at: i64 = match datetime_from_epoch_seconds(row.source_updated_at) {
        Ok(time) => time,
        Err(error) => return Err(error),
    };
    let generated_at: i64 = match datetime_from_epoch_seconds(row.generated_at) {
        Ok(time) => time,
        Err(error) => return Err(error),
    };
    Ok(
        Stage1Output {
            thread_id,
            rollout_path: row.rollout_path.clone(),
            source_updated_at,
            raw_memory: row.raw_memory.clone(),
            rollout_summary: row.rollout_summary.clone(),
            rollout_slug: crate::threads::clone_text(&row.rollout_slug),
            cwd: row.cwd.clone(),
            git_branch: crate::threads::clone_text(&row.git_branch),
            generated_at,
        },
    )
}

/// Reads identifiers of threads.
pub fn decode_thread_ids(texts: &[String]) -> (result: Result<Vec<ThreadId>, RowError>)
    ensures
        match result {
            Ok(ids) => {
                &&& ids@.len() == texts@.len()
                &&& forall|i: int| 0 <= i < ids@.len() ==> parsed_uuid(texts@[i]@) == Some((#[trigger] ids@[i]).value)
            },
            Err(error) => error == RowError::ThreadId && exists|i: int| 0 <= i < texts@.len() && parsed_uuid((#[trigger] texts@[i])@) is None,
        },
{
    let mut ids: Vec<ThreadId> = Vec::new();
    let mut i: usize = 0;
    while i < texts.len()
        invariant
            i <= texts@.len(),
            ids@.len() == i,
            forall|k: int| 0 <= k < i ==> parsed_uuid(texts@[k]@) == Some((#[trigger] ids@[k]).value),
        decreases texts@.len() - i,
    {
        match parse_thread_id(texts[i].as_str()) {
            Some(id) => {
                ids.push(id);
            },
            None => {
                assert(parsed_uuid(texts@[i as int]@) is None);
                return Err(RowError::ThreadId);
            },
        }
        i += 1;
    }
    Ok(ids)
}

/// No two statuses of goals have the same stored name.
proof fn lemma_statuses_have_names(a: ThreadGoalStatus, b: ThreadGoalStatus)
    requires
        status_text(a) == status_text(b),
    ensures
        a == b,
{
    reveal_strlit("active");
    reveal_strlit("paused");
    reveal_strlit("blocked");
    reveal_strlit("usage_limited");
    reveal_strlit("budget_limited");
    reveal_strlit("complete");
    assert("active"@[0] == 'a' && "paused"@[0] == 'p');
    assert("blocked"@.len() == 7 && "usage_limited"@.len() == 13 && "budget_limited"@.len() == 14 && "complete"@.len() == 8);
    assert(status_text(a)[0] == status_text(b)[0] && status_text(a).len() == status_text(b).len());
}

/// From the row that is written for a goal no other goal is read.
pub proof fn law_goal_is_read_back(row: ThreadGoalRow, written: ThreadGoalView, read: ThreadGoalView)
    requires
        is_row_of_goal(row, written),
        stores_goal(row, read),
    ensures
        read == written,
{
    lemma_statuses_have_names(read.status, written.status);
}

} // verus!
