//! Laws of reading stored rows, told in their columns.

use crate::backfill::BackfillState;
use crate::backfill::BackfillStatus;
use crate::goals::ThreadGoal;
use crate::goals::ThreadGoalStatus;
use crate::memory_store::Stage1Output;
use crate::outside::uuid_text;
use crate::rows::datetime_from_epoch_seconds;
use crate::rows::decode_thread_ids;
use crate::rows::epoch_millis_to_datetime;
use crate::rows::row_of_thread_goal;
use crate::rows::stage1_output_from_row;
use crate::rows::state_from_row;
use crate::rows::thread_goal_from_row;
use crate::rows::BackfillStateRow;
use crate::rows::RowError;
use crate::rows::Stage1OutputJoinRow;
use crate::rows::ThreadGoalRow;
use crate::thread_id::ThreadId;
use vstd::prelude::*;

verus! {

/// A time is read as it is stored, unless it names no date.
pub proof fn law_times_are_read_as_stored(millis: i64, read_millis: Result<i64, RowError>, seconds: i64, read_seconds: Result<i64, RowError>)
    requires
        call_ensures(epoch_millis_to_datetime, (millis,), read_millis),
        call_ensures(datetime_from_epoch_seconds, (seconds,), read_seconds),
    ensures
        read_millis is Ok ==> read_millis->Ok_0 == millis,
        read_seconds is Ok ==> read_seconds->Ok_0 == seconds,
        read_millis is Ok <==> -8_334_601_228_800_000 <= millis <= 8_210_266_876_799_999,
        read_seconds is Ok <==> -8_334_601_228_800 <= seconds <= 8_210_266_876_799,
        read_millis is Err ==> read_millis->Err_0 == RowError::Timestamp(millis),
        read_seconds is Err ==> read_seconds->Err_0 == RowError::Timestamp(seconds),
{
}

/// A goal is read column by column, with the status that its name stands for.
pub proof fn law_goal_is_read_as_stored(row: &ThreadGoalRow, goal: ThreadGoal)
    requires
        call_ensures(thread_goal_from_row, (row,), Ok::<ThreadGoal, RowError>(goal)),
    ensures
        goal@.goal_id == row.goal_id@,
        goal@.objective == row.objective@,
        goal@.token_budget == row.token_budget,
        goal@.tokens_used == row.tokens_used,
        goal@.time_used_seconds == row.time_used_seconds,
        goal@.created_at == row.created_at_ms,
        goal@.updated_at == row.updated_at_ms,
        forall|value: u128| row.thread_id@ == #[trigger] uuid_text(value) ==> goal@.thread_id.value == value,
        row.status@ == (match goal@.status {
            ThreadGoalStatus::Active => "active"@,
            ThreadGoalStatus::Paused => "paused"@,
            ThreadGoalStatus::Blocked => "blocked"@,
            ThreadGoalStatus::UsageLimited => "usage_limited"@,
            ThreadGoalStatus::BudgetLimited => "budget_limited"@,
            ThreadGoalStatus::Complete => "complete"@,
        }),
{
}

/// Whether the text is the name of a status of goals.
pub open spec fn names_goal_status(text: Seq<char>) -> bool {
    text == "active"@ || text == "paused"@ || text == "blocked"@ || text == "usage_limited"@ || text == "budget_limited"@ || text == "complete"@
}

/// A goal is read where its thread, its status and its times can be; the first that cannot be is the error.
pub proof fn law_unreadable_goals(row: &ThreadGoalRow, thread_id: &str, id: Option<ThreadId>, result: Result<ThreadGoal, RowError>)
    requires
        call_ensures(thread_goal_from_row, (row,), result),
        call_ensures(ThreadId::from_text, (thread_id,), id),
        thread_id@ == row.thread_id@,
    ensures
        id is None ==> result is Err && result->Err_0 == RowError::ThreadId,
        id is Some && !names_goal_status(row.status@) ==> result is Err && result->Err_0 == RowError::Status,
        id is Some && names_goal_status(row.status@) && !(-8_334_601_228_800_000 <= row.created_at_ms <= 8_210_266_876_799_999) ==> result is Err && result->Err_0
            == RowError::Timestamp(row.created_at_ms),
        id is Some && names_goal_status(row.status@) && -8_334_601_228_800_000 <= row.created_at_ms <= 8_210_266_876_799_999 && !(-8_334_601_228_800_000 <= row.updated_at_ms
            <= 8_210_266_876_799_999) ==> result is Err && result->Err_0 == RowError::Timestamp(row.updated_at_ms),
        id is Some && names_goal_status(row.status@) && -8_334_601_228_800_000 <= row.created_at_ms <= 8_210_266_876_799_999 && -8_334_601_228_800_000 <= row.updated_at_ms
            <= 8_210_266_876_799_999 ==> result is Ok && result->Ok_0@.thread_id == id->0,
{
    if names_goal_status(row.status@) {
        let status = if row.status@ == "active"@ {
            ThreadGoalStatus::Active
        } else if row.status@ == "paused"@ {
            ThreadGoalStatus::Paused
        } else if row.status@ == "blocked"@ {
            ThreadGoalStatus::Blocked
        } else if row.status@ == "usage_limited"@ {
            ThreadGoalStatus::UsageLimited
        } else if row.status@ == "budget_limited"@ {
            ThreadGoalStatus::BudgetLimited
        } else {
            ThreadGoalStatus::Complete
        };
        assert(row.status@ == crate::goals::status_text(status));
    }
}

/// A goal is written column by column.
pub proof fn law_goal_is_stored_as_told(goal: &ThreadGoal, row: ThreadGoalRow)
    requires
        call_ensures(row_of_thread_goal, (goal,), row),
    ensures
        row.thread_id@ == uuid_text(goal.thread_id.value),
        row.goal_id@ == goal.goal_id@,
        row.objective@ == goal.objective@,
        row.token_budget == goal.token_budget,
        row.tokens_used == goal.tokens_used,
        row.time_used_seconds == goal.time_used_seconds,
        row.created_at_ms == goal.created_at,
        row.updated_at_ms == goal.updated_at,
        goal.status == ThreadGoalStatus::Active ==> row.status@ == "active"@,
        goal.status == ThreadGoalStatus::Paused ==> row.status@ == "paused"@,
        goal.status == ThreadGoalStatus::Blocked ==> row.status@ == "blocked"@,
        goal.status == ThreadGoalStatus::UsageLimited ==> row.status@ == "usage_limited"@,
        goal.status == ThreadGoalStatus::BudgetLimited ==> row.status@ == "budget_limited"@,
        goal.status == ThreadGoalStatus::Complete ==> row.status@ == "complete"@,
{
}

/// The state of the backfill is read column by column, with the status that its name stands for.
pub proof fn law_backfill_is_read_from_its_row(row: &BackfillStateRow, state: BackfillState)
    requires
        call_ensures(state_from_row, (row,), Ok::<BackfillState, RowError>(state)),
    ensures
        state@.last_success_at == row.last_success_at,
        state@.last_watermark is Some <==> row.last_watermark is Some,
        row.last_watermark is Some ==> state@.last_watermark->0 == row.last_watermark->0@,
        row.status@ == (match state@.status {
            BackfillStatus::Pending => "pending"@,
            BackfillStatus::Running => "running"@,
            BackfillStatus::Complete => "complete"@,
        }),
{
}

/// An output is read column by column.
pub proof fn law_output_is_read_as_stored(row: &Stage1OutputJoinRow, output: Stage1Output)
    requires
        call_ensures(stage1_output_from_row, (row,), Ok::<Stage1Output, RowError>(output)),
    ensures
        output@.rollout_path == row.rollout_path@,
        output@.source_updated_at == row.source_updated_at,
        output@.raw_memory == row.raw_memory@,
        output@.rollout_summary == row.rollout_summary@,
        output@.cwd == row.cwd@,
        output@.generated_at == row.generated_at,
        output@.rollout_slug is Some <==> row.rollout_slug is Some,
        row.rollout_slug is Some ==> output@.rollout_slug->0 == row.rollout_slug->0@,
        output@.git_branch is Some <==> row.git_branch is Some,
        row.git_branch is Some ==> output@.git_branch->0 == row.git_branch->0@,
{
}

/// Identifiers are read one for one.
pub proof fn law_identifiers_are_read_one_for_one(texts: &[String], ids: Vec<ThreadId>)
    requires
        call_ensures(decode_thread_ids, (texts,), Ok::<Vec<ThreadId>, RowError>(ids)),
    ensures
        ids@.len() == texts@.len(),
        forall|i: int, j: int| #![trigger texts@[i], texts@[j]] 0 <= i < texts@.len() && 0 <= j < texts@.len() && texts@[i]@ == texts@[j]@ ==> ids@[i] == ids@[j],
{
    assert forall|i: int, j: int| #![trigger texts@[i], texts@[j]] 0 <= i < texts@.len() && 0 <= j < texts@.len() && texts@[i]@ == texts@[j]@ implies ids@[i] == ids@[j] by {
        assert(ids@[i].value == ids@[j].value);
    }
}

} // verus!
