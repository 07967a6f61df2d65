//! Laws of what the operations on goals do, told in the fields of the goals before and after.

use super::accounting::status_after_accounting;
use super::status_after_budget_limit;
use super::GoalAccountingEvent;
use super::GoalAccountingMode;
use super::GoalAccountingOutcome;
use super::GoalAccountingRequest;
use super::GoalAccountingTarget;
use super::GoalStore;
use super::GoalStoreError;
use super::GoalStoreErrorKind;
use super::GoalStoreFailure;
use super::GoalStoreOperation;
use super::GoalStoreResult;
use super::GoalUpdate;
use super::ThreadGoal;
use super::ThreadGoalStatus;
use crate::thread_id::ThreadId;
use vstd::prelude::*;

verus! {

/// An update that addresses the goal of a thread leaves the objective and the budget that it
/// names, keeps those that it does not name, and answers with the goal that is then stored. It
/// never touches the usage, the identifier or the time of creation, nor another thread.
pub proof fn law_update_sets_what_it_names(
    store: &mut GoalStore,
    thread_id: ThreadId,
    update: GoalUpdate,
    now_ms: i64,
    result: GoalStoreResult<Option<ThreadGoal>>,
)
    requires
        call_ensures(GoalStore::update_thread_goal_at, (store, thread_id, update, now_ms), result),
        old(store)@.keyed(),
        !old(store)@.closed,
        old(store)@.goals.contains_key(thread_id),
        update.expected_goal_id is None || update.expected_goal_id->0@ == old(store)@.goals[thread_id].goal_id,
    ensures
        result is Ok && result->Ok_0 is Some,
        final(store)@.goals.dom() == old(store)@.goals.dom(),
        result->Ok_0->0@ == final(store)@.goals[thread_id],
        update.objective is Some ==> final(store)@.goals[thread_id].objective == update.objective->0@,
        update.objective is None ==> final(store)@.goals[thread_id].objective == old(store)@.goals[thread_id].objective,
        update.token_budget is Some ==> final(store)@.goals[thread_id].token_budget == update.token_budget->0,
        update.token_budget is None ==> final(store)@.goals[thread_id].token_budget == old(store)@.goals[thread_id].token_budget,
        update.objective is Some || update.status is Some || update.token_budget is Some ==> final(store)@.goals[thread_id].updated_at == now_ms,
        update.objective is None && update.status is None && update.token_budget is None ==> final(store)@ == old(store)@,
        final(store)@.goals[thread_id].thread_id == thread_id,
        final(store)@.goals[thread_id].goal_id == old(store)@.goals[thread_id].goal_id,
        final(store)@.goals[thread_id].tokens_used == old(store)@.goals[thread_id].tokens_used,
        final(store)@.goals[thread_id].time_used_seconds == old(store)@.goals[thread_id].time_used_seconds,
        final(store)@.goals[thread_id].created_at == old(store)@.goals[thread_id].created_at,
        forall|other: ThreadId| other != thread_id && #[trigger] old(store)@.goals.contains_key(other) ==> final(store)@.goals[other] == old(store)@.goals[other],
        final(store)@.events == old(store)@.events,
        final(store)@.deferrals == old(store)@.deferrals,
{
    assert(final(store)@.goals.dom() =~= old(store)@.goals.dom());
}

/// An update that addresses the goal of a thread leaves the status that it asks for. Two things
/// alone stand against it: a goal at its budget is not made active but budget limited, and a
/// budget-limited goal is not paused or blocked. An update that asks for no status leaves the one
/// that was, unless it gives an active goal a budget that is used up.
pub proof fn law_update_gives_the_requested_status(
    store: &mut GoalStore,
    thread_id: ThreadId,
    update: GoalUpdate,
    now_ms: i64,
    result: GoalStoreResult<Option<ThreadGoal>>,
)
    requires
        call_ensures(GoalStore::update_thread_goal_at, (store, thread_id, update, now_ms), result),
        old(store)@.keyed(),
        !old(store)@.closed,
        old(store)@.goals.contains_key(thread_id),
        update.expected_goal_id is None || update.expected_goal_id->0@ == old(store)@.goals[thread_id].goal_id,
    ensures
        update.status == Some(ThreadGoalStatus::Complete) ==> final(store)@.goals[thread_id].status == ThreadGoalStatus::Complete,
        update.status == Some(ThreadGoalStatus::UsageLimited) ==> final(store)@.goals[thread_id].status == ThreadGoalStatus::UsageLimited,
        update.status == Some(ThreadGoalStatus::BudgetLimited) ==> final(store)@.goals[thread_id].status == ThreadGoalStatus::BudgetLimited,
        update.status == Some(ThreadGoalStatus::Paused) ==> final(store)@.goals[thread_id].status == (
        if old(store)@.goals[thread_id].status == ThreadGoalStatus::BudgetLimited {
            ThreadGoalStatus::BudgetLimited
        } else {
            ThreadGoalStatus::Paused
        }),
        update.status == Some(ThreadGoalStatus::Blocked) ==> final(store)@.goals[thread_id].status == (
        if old(store)@.goals[thread_id].status == ThreadGoalStatus::BudgetLimited {
            ThreadGoalStatus::BudgetLimited
        } else {
            ThreadGoalStatus::Blocked
        }),
        update.status == Some(ThreadGoalStatus::Active) ==> final(store)@.goals[thread_id].status == (
        if final(store)@.goals[thread_id].token_budget is Some && final(store)@.goals[thread_id].tokens_used >= final(store)@.goals[thread_id].token_budget->0 {
            ThreadGoalStatus::BudgetLimited
        } else {
            ThreadGoalStatus::Active
        }),
        update.status is None && update.token_budget is None ==> final(store)@.goals[thread_id].status == old(store)@.goals[thread_id].status,
        update.status is None && update.token_budget is Some ==> final(store)@.goals[thread_id].status == (
        if old(store)@.goals[thread_id].status == ThreadGoalStatus::Active && update.token_budget->0 is Some && old(store)@.goals[thread_id].tokens_used >= update.token_budget->0->0 {
            ThreadGoalStatus::BudgetLimited
        } else {
            old(store)@.goals[thread_id].status
        }),
{
}

/// An update for another goal than the one the thread has, or for a thread without a goal, changes
/// nothing and finds nothing. A closed store takes no update.
pub proof fn law_update_of_another_goal_does_nothing(
    store: &mut GoalStore,
    thread_id: ThreadId,
    update: GoalUpdate,
    now_ms: i64,
    result: GoalStoreResult<Option<ThreadGoal>>,
)
    requires
        call_ensures(GoalStore::update_thread_goal_at, (store, thread_id, update, now_ms), result),
    ensures
        result is Err <==> old(store)@.closed,
        result is Err ==> final(store)@ == old(store)@ && result->Err_0@ == (GoalStoreErrorKind::Persistence, GoalStoreOperation::UpdateThreadGoal),
        !old(store)@.closed && !old(store)@.goals.contains_key(thread_id) ==> result->Ok_0 is None && final(store)@ == old(store)@,
        !old(store)@.closed && old(store)@.goals.contains_key(thread_id) && update.expected_goal_id is Some && update.expected_goal_id->0@
            != old(store)@.goals[thread_id].goal_id ==> result->Ok_0 is None && final(store)@ == old(store)@,
{
}

/// An update at the time of the clock keeps and sets the same things as one at a given time.
pub proof fn law_update_now_sets_what_it_names(
    store: &mut GoalStore,
    thread_id: ThreadId,
    update: GoalUpdate,
    result: GoalStoreResult<Option<ThreadGoal>>,
)
    requires
        call_ensures(GoalStore::update_thread_goal, (store, thread_id, update), result),
        old(store)@.keyed(),
        !old(store)@.closed,
        old(store)@.goals.contains_key(thread_id),
        update.expected_goal_id is None || update.expected_goal_id->0@ == old(store)@.goals[thread_id].goal_id,
    ensures
        result is Ok && result->Ok_0 is Some,
        result->Ok_0->0@ == final(store)@.goals[thread_id],
        update.objective is Some ==> final(store)@.goals[thread_id].objective == update.objective->0@,
        update.objective is None ==> final(store)@.goals[thread_id].objective == old(store)@.goals[thread_id].objective,
        update.token_budget is Some ==> final(store)@.goals[thread_id].token_budget == update.token_budget->0,
        update.token_budget is None ==> final(store)@.goals[thread_id].token_budget == old(store)@.goals[thread_id].token_budget,
        update.status == Some(ThreadGoalStatus::Complete) ==> final(store)@.goals[thread_id].status == ThreadGoalStatus::Complete,
        update.status == Some(ThreadGoalStatus::UsageLimited) ==> final(store)@.goals[thread_id].status == ThreadGoalStatus::UsageLimited,
        update.status == Some(ThreadGoalStatus::BudgetLimited) ==> final(store)@.goals[thread_id].status == ThreadGoalStatus::BudgetLimited,
        update.objective is None && update.status is None && update.token_budget is None ==> final(store)@ == old(store)@,
        final(store)@.goals[thread_id].tokens_used == old(store)@.goals[thread_id].tokens_used,
        final(store)@.goals[thread_id].time_used_seconds == old(store)@.goals[thread_id].time_used_seconds,
        final(store)@.goals[thread_id].created_at == old(store)@.goals[thread_id].created_at,
        forall|other: ThreadId| other != thread_id && #[trigger] old(store)@.goals.contains_key(other) ==> final(store)@.goals[other] == old(store)@.goals[other],
{
}

/// Pausing takes effect on active goals and on no others, and changes nothing but the status and
/// the time of the change.
pub proof fn law_pausing_pauses_active_goals_only(store: &mut GoalStore, thread_id: ThreadId, result: GoalStoreResult<Option<ThreadGoal>>)
    requires
        call_ensures(GoalStore::pause_active_thread_goal, (store, thread_id), result),
        old(store)@.keyed(),
        !old(store)@.closed,
    ensures
        result is Ok,
        result->Ok_0 is Some <==> old(store)@.goals.contains_key(thread_id) && old(store)@.goals[thread_id].status == ThreadGoalStatus::Active,
        result->Ok_0 is None ==> final(store)@ == old(store)@,
        result->Ok_0 is Some ==> {
            &&& result->Ok_0->0@ == final(store)@.goals[thread_id]
            &&& final(store)@.goals[thread_id].status == ThreadGoalStatus::Paused
            &&& final(store)@.goals[thread_id].goal_id == old(store)@.goals[thread_id].goal_id
            &&& final(store)@.goals[thread_id].objective == old(store)@.goals[thread_id].objective
            &&& final(store)@.goals[thread_id].token_budget == old(store)@.goals[thread_id].token_budget
            &&& final(store)@.goals[thread_id].tokens_used == old(store)@.goals[thread_id].tokens_used
            &&& final(store)@.goals[thread_id].time_used_seconds == old(store)@.goals[thread_id].time_used_seconds
            &&& final(store)@.goals[thread_id].created_at == old(store)@.goals[thread_id].created_at
        },
{
}

/// A usage limit takes effect on active and on budget-limited goals and on no others, and changes
/// nothing but the status and the time of the change.
pub proof fn law_usage_limit_stops_active_and_limited_goals(store: &mut GoalStore, thread_id: ThreadId, result: GoalStoreResult<Option<ThreadGoal>>)
    requires
        call_ensures(GoalStore::usage_limit_active_thread_goal, (store, thread_id), result),
        old(store)@.keyed(),
        !old(store)@.closed,
    ensures
        result is Ok,
        result->Ok_0 is Some <==> old(store)@.goals.contains_key(thread_id) && (old(store)@.goals[thread_id].status == ThreadGoalStatus::Active
            || old(store)@.goals[thread_id].status == ThreadGoalStatus::BudgetLimited),
        result->Ok_0 is None ==> final(store)@ == old(store)@,
        result->Ok_0 is Some ==> {
            &&& result->Ok_0->0@ == final(store)@.goals[thread_id]
            &&& final(store)@.goals[thread_id].status == ThreadGoalStatus::UsageLimited
            &&& final(store)@.goals[thread_id].goal_id == old(store)@.goals[thread_id].goal_id
            &&& final(store)@.goals[thread_id].objective == old(store)@.goals[thread_id].objective
            &&& final(store)@.goals[thread_id].token_budget == old(store)@.goals[thread_id].token_budget
            &&& final(store)@.goals[thread_id].tokens_used == old(store)@.goals[thread_id].tokens_used
            &&& final(store)@.goals[thread_id].time_used_seconds == old(store)@.goals[thread_id].time_used_seconds
            &&& final(store)@.goals[thread_id].created_at == old(store)@.goals[thread_id].created_at
        },
{
}

/// Stopping a goal at a given time records that time, and takes over from a budget limit for a
/// usage limit only.
pub proof fn law_stopping_records_its_time(
    store: &mut GoalStore,
    thread_id: ThreadId,
    status: ThreadGoalStatus,
    now_ms: i64,
    result: Result<Option<ThreadGoal>, GoalStoreFailure>,
)
    requires
        call_ensures(GoalStore::update_active_thread_goal_status, (store, thread_id, status, now_ms), result),
        old(store)@.keyed(),
    ensures
        result is Err <==> old(store)@.closed,
        result is Ok && result->Ok_0 is Some ==> {
            &&& old(store)@.goals.contains_key(thread_id)
            &&& old(store)@.goals[thread_id].status == ThreadGoalStatus::Active || old(store)@.goals[thread_id].status == ThreadGoalStatus::BudgetLimited
            &&& old(store)@.goals[thread_id].status == ThreadGoalStatus::BudgetLimited ==> status == ThreadGoalStatus::UsageLimited
            &&& final(store)@.goals[thread_id].status == status
            &&& final(store)@.goals[thread_id].updated_at == now_ms
            &&& final(store)@.goals[thread_id].tokens_used == old(store)@.goals[thread_id].tokens_used
        },
        result is Ok && old(store)@.goals.contains_key(thread_id) && old(store)@.goals[thread_id].status == ThreadGoalStatus::Active ==> result->Ok_0 is Some,
        result is Ok && result->Ok_0 is None ==> final(store)@ == old(store)@,
{
}

/// A new goal is the one that was asked for, with nothing used. It is active only if its budget
/// leaves something to use. Whatever goal the thread had is gone, and nothing else changes.
pub proof fn law_replacing_starts_afresh(
    store: &mut GoalStore,
    thread_id: ThreadId,
    goal_id: String,
    objective: &str,
    status: ThreadGoalStatus,
    token_budget: Option<i64>,
    now_ms: i64,
    result: GoalStoreResult<ThreadGoal>,
)
    requires
        call_ensures(GoalStore::replace_thread_goal_at, (store, thread_id, goal_id, objective, status, token_budget, now_ms), result),
    ensures
        result is Err <==> old(store)@.closed,
        result is Err ==> final(store)@ == old(store)@,
        result is Ok ==> {
            &&& final(store)@.goals.contains_key(thread_id)
            &&& result->Ok_0@ == final(store)@.goals[thread_id]
            &&& final(store)@.goals[thread_id].thread_id == thread_id
            &&& final(store)@.goals[thread_id].goal_id == goal_id@
            &&& final(store)@.goals[thread_id].objective == objective@
            &&& final(store)@.goals[thread_id].token_budget == token_budget
            &&& final(store)@.goals[thread_id].tokens_used == 0
            &&& final(store)@.goals[thread_id].time_used_seconds == 0
            &&& final(store)@.goals[thread_id].created_at == now_ms
            &&& final(store)@.goals[thread_id].updated_at == now_ms
            &&& status != ThreadGoalStatus::Active ==> final(store)@.goals[thread_id].status == status
            &&& status == ThreadGoalStatus::Active && (token_budget is None || token_budget->0 > 0) ==> final(store)@.goals[thread_id].status == ThreadGoalStatus::Active
            &&& status == ThreadGoalStatus::Active && token_budget is Some && token_budget->0 <= 0 ==> final(store)@.goals[thread_id].status == ThreadGoalStatus::BudgetLimited
            &&& forall|other: ThreadId| other != thread_id ==> (#[trigger] final(store)@.goals.contains_key(other) <==> old(store)@.goals.contains_key(other))
            &&& forall|other: ThreadId| other != thread_id && #[trigger] old(store)@.goals.contains_key(other) ==> final(store)@.goals[other] == old(store)@.goals[other]
            &&& final(store)@.events == old(store)@.events
            &&& final(store)@.deferrals == old(store)@.deferrals
        },
{
}

/// A goal is inserted exactly where the thread has none, or one that is complete. It starts as a
/// goal that replaces another does; where it is not inserted, nothing changes.
pub proof fn law_inserting_never_drops_an_unfinished_goal(
    store: &mut GoalStore,
    thread_id: ThreadId,
    goal_id: String,
    objective: &str,
    status: ThreadGoalStatus,
    token_budget: Option<i64>,
    now_ms: i64,
    result: GoalStoreResult<Option<ThreadGoal>>,
)
    requires
        call_ensures(GoalStore::insert_thread_goal_at, (store, thread_id, goal_id, objective, status, token_budget, now_ms), result),
    ensures
        result is Err <==> old(store)@.closed,
        result is Ok && result->Ok_0 is None <==> !old(store)@.closed && old(store)@.goals.contains_key(thread_id) && old(store)@.goals[thread_id].status
            != ThreadGoalStatus::Complete,
        !(result is Ok && result->Ok_0 is Some) ==> final(store)@ == old(store)@,
        result is Ok && result->Ok_0 is Some ==> {
            &&& final(store)@.goals.contains_key(thread_id)
            &&& result->Ok_0->0@ == final(store)@.goals[thread_id]
            &&& final(store)@.goals[thread_id].thread_id == thread_id
            &&& final(store)@.goals[thread_id].goal_id == goal_id@
            &&& final(store)@.goals[thread_id].objective == objective@
            &&& final(store)@.goals[thread_id].token_budget == token_budget
            &&& final(store)@.goals[thread_id].tokens_used == 0
            &&& final(store)@.goals[thread_id].time_used_seconds == 0
            &&& final(store)@.goals[thread_id].created_at == now_ms
            &&& final(store)@.goals[thread_id].updated_at == now_ms
            &&& status != ThreadGoalStatus::Active ==> final(store)@.goals[thread_id].status == status
            &&& status == ThreadGoalStatus::Active && (token_budget is None || token_budget->0 > 0) ==> final(store)@.goals[thread_id].status == ThreadGoalStatus::Active
            &&& status == ThreadGoalStatus::Active && token_budget is Some && token_budget->0 <= 0 ==> final(store)@.goals[thread_id].status == ThreadGoalStatus::BudgetLimited
            &&& forall|other: ThreadId| other != thread_id && #[trigger] old(store)@.goals.contains_key(other) ==> final(store)@.goals[other] == old(store)@.goals[other]
            &&& final(store)@.events == old(store)@.events
            &&& final(store)@.deferrals == old(store)@.deferrals
        },
{
}

/// With an identifier and a time of the store's own choice, a new goal is still the one that was
/// asked for, and an unfinished goal still stands against an insertion.
pub proof fn law_new_goals_are_as_asked_for(
    store: &mut GoalStore,
    thread_id: ThreadId,
    objective: &str,
    status: ThreadGoalStatus,
    token_budget: Option<i64>,
    inserted: GoalStoreResult<Option<ThreadGoal>>,
)
    requires
        call_ensures(GoalStore::insert_thread_goal, (store, thread_id, objective, status, token_budget), inserted),
    ensures
        inserted is Err <==> old(store)@.closed,
        inserted is Ok && inserted->Ok_0 is None <==> !old(store)@.closed && old(store)@.goals.contains_key(thread_id) && old(store)@.goals[thread_id].status
            != ThreadGoalStatus::Complete,
        !(inserted is Ok && inserted->Ok_0 is Some) ==> final(store)@ == old(store)@,
        inserted is Ok && inserted->Ok_0 is Some ==> {
            &&& inserted->Ok_0->0@ == final(store)@.goals[thread_id]
            &&& final(store)@.goals[thread_id].objective == objective@
            &&& final(store)@.goals[thread_id].token_budget == token_budget
            &&& final(store)@.goals[thread_id].tokens_used == 0
            &&& final(store)@.goals[thread_id].time_used_seconds == 0
            &&& final(store)@.goals[thread_id].updated_at == final(store)@.goals[thread_id].created_at
            &&& status != ThreadGoalStatus::Active ==> final(store)@.goals[thread_id].status == status
            &&& status == ThreadGoalStatus::Active && (token_budget is None || token_budget->0 > 0) ==> final(store)@.goals[thread_id].status == ThreadGoalStatus::Active
            &&& status == ThreadGoalStatus::Active && token_budget is Some && token_budget->0 <= 0 ==> final(store)@.goals[thread_id].status == ThreadGoalStatus::BudgetLimited
        },
{
}

/// A goal that replaces another, with an identifier and a time of the store's own choice, is the
/// one that was asked for.
pub proof fn law_replacing_goals_are_as_asked_for(
    store: &mut GoalStore,
    thread_id: ThreadId,
    objective: &str,
    status: ThreadGoalStatus,
    token_budget: Option<i64>,
    replaced: GoalStoreResult<ThreadGoal>,
)
    requires
        call_ensures(GoalStore::replace_thread_goal, (store, thread_id, objective, status, token_budget), replaced),
    ensures
        replaced is Err <==> old(store)@.closed,
        replaced is Ok ==> {
            &&& replaced->Ok_0@ == final(store)@.goals[thread_id]
            &&& final(store)@.goals[thread_id].objective == objective@
            &&& final(store)@.goals[thread_id].token_budget == token_budget
            &&& final(store)@.goals[thread_id].tokens_used == 0
            &&& final(store)@.goals[thread_id].time_used_seconds == 0
            &&& final(store)@.goals[thread_id].updated_at == final(store)@.goals[thread_id].created_at
            &&& status != ThreadGoalStatus::Active ==> final(store)@.goals[thread_id].status == status
            &&& status == ThreadGoalStatus::Active && (token_budget is None || token_budget->0 > 0) ==> final(store)@.goals[thread_id].status == ThreadGoalStatus::Active
            &&& status == ThreadGoalStatus::Active && token_budget is Some && token_budget->0 <= 0 ==> final(store)@.goals[thread_id].status == ThreadGoalStatus::BudgetLimited
        },
{
}

/// What is deleted is what a read would have given, and is found no more. Accounted events and
/// deferrals stay.
pub proof fn law_deleted_goal_is_gone(
    store: &mut GoalStore,
    thread_id: ThreadId,
    result: GoalStoreResult<Option<ThreadGoal>>,
)
    requires
        call_ensures(GoalStore::delete_thread_goal, (store, thread_id), result),
    ensures
        result is Err <==> old(store)@.closed,
        result is Err ==> final(store)@ == old(store)@,
        result is Ok ==> {
            &&& result->Ok_0 is Some <==> old(store)@.goals.contains_key(thread_id)
            &&& result->Ok_0 is Some ==> result->Ok_0->0@ == old(store)@.goals[thread_id]
            &&& !final(store)@.goals.contains_key(thread_id)
            &&& forall|other: ThreadId| other != thread_id ==> (#[trigger] final(store)@.goals.contains_key(other) <==> old(store)@.goals.contains_key(other))
            &&& forall|other: ThreadId| other != thread_id && #[trigger] old(store)@.goals.contains_key(other) ==> final(store)@.goals[other] == old(store)@.goals[other]
            &&& final(store)@.events == old(store)@.events
            &&& final(store)@.deferrals == old(store)@.deferrals
        },
{
}

/// A read gives the goal of the thread that was asked for.
pub proof fn law_read_gives_the_threads_goal(store: &GoalStore, thread_id: ThreadId, result: GoalStoreResult<Option<ThreadGoal>>)
    requires
        call_ensures(GoalStore::get_thread_goal, (store, thread_id), result),
    ensures
        result is Err <==> store@.closed,
        result is Ok ==> (result->Ok_0 is Some <==> store@.goals.contains_key(thread_id)),
        result is Ok && result->Ok_0 is Some ==> result->Ok_0->0@ == store@.goals[thread_id],
{
}

/// A goal stored as it is stays as it is, and its thread waits for an explicit turn.
pub proof fn law_snapshot_defers_the_continuation(store: &mut GoalStore, goal: &ThreadGoal, result: GoalStoreResult<()>)
    requires
        call_ensures(GoalStore::replace_thread_goal_snapshot, (store, goal), result),
    ensures
        result is Err <==> old(store)@.closed,
        result is Err ==> final(store)@ == old(store)@,
        result is Ok ==> {
            &&& final(store)@.goals.contains_key(goal.thread_id)
            &&& final(store)@.goals[goal.thread_id].goal_id == goal.goal_id@
            &&& final(store)@.goals[goal.thread_id].objective == goal.objective@
            &&& final(store)@.goals[goal.thread_id].status == goal.status
            &&& final(store)@.goals[goal.thread_id].token_budget == goal.token_budget
            &&& final(store)@.goals[goal.thread_id].tokens_used == goal.tokens_used
            &&& final(store)@.goals[goal.thread_id].time_used_seconds == goal.time_used_seconds
            &&& final(store)@.goals[goal.thread_id].created_at == goal.created_at
            &&& final(store)@.goals[goal.thread_id].updated_at == goal.updated_at
            &&& final(store)@.deferrals.contains(goal.thread_id)
            &&& forall|other: ThreadId| other != goal.thread_id ==> (#[trigger] final(store)@.deferrals.contains(other) <==> old(store)@.deferrals.contains(other))
        },
{
}

/// Whether a continuation is deferred is told of the thread that was asked for.
pub proof fn law_deferral_is_told(store: &GoalStore, thread_id: ThreadId, result: GoalStoreResult<bool>)
    requires
        call_ensures(GoalStore::has_thread_goal_continuation_deferral, (store, thread_id), result),
    ensures
        result is Err <==> store@.closed,
        result is Ok ==> (result->Ok_0 <==> store@.deferrals.contains(thread_id)),
{
}

/// Clearing a deferral ends it for that thread and for no other, and leaves the goals alone.
pub proof fn law_cleared_deferral_is_gone(store: &mut GoalStore, thread_id: ThreadId, result: GoalStoreResult<()>)
    requires
        call_ensures(GoalStore::clear_thread_goal_continuation_deferral, (store, thread_id), result),
    ensures
        result is Err <==> old(store)@.closed,
        result is Ok ==> !final(store)@.deferrals.contains(thread_id),
        forall|other: ThreadId| other != thread_id ==> (#[trigger] final(store)@.deferrals.contains(other) <==> old(store)@.deferrals.contains(other)),
        final(store)@.goals == old(store)@.goals,
        final(store)@.events == old(store)@.events,
{
}

/// Usage is charged exactly to a goal that the request addresses and whose status the mode
/// admits, under an identifier that the thread has not used, and where the counters have room.
/// Every mode charges active goals. The strictest charges no others; the next one charges
/// budget-limited goals too, the third those and complete goals, the last every goal that is not
/// complete.
pub proof fn law_usage_is_charged_where_the_mode_admits_it(
    store: &mut GoalStore,
    thread_id: ThreadId,
    request: GoalAccountingRequest<'_>,
    now_ms: i64,
    result: GoalStoreResult<GoalAccountingOutcome>,
)
    requires
        call_ensures(GoalStore::account_thread_goal_usage_at, (store, thread_id, request, now_ms), result),
        !old(store)@.closed,
        old(store)@.goals.contains_key(thread_id),
        !old(store)@.events.contains_key((thread_id, request.event_id@)),
        exists|i: int| 0 <= i < request.event_id@.len() && 'a' <= #[trigger] request.event_id@[i] <= 'z',
        request.token_delta > 0 || request.time_delta_seconds > 0,
        old(store)@.goals[thread_id].tokens_used <= i64::MAX - request.token_delta,
        old(store)@.goals[thread_id].time_used_seconds <= i64::MAX - request.time_delta_seconds,
    ensures
        result is Ok,
        result->Ok_0 is Updated <==> {
            let status = old(store)@.goals[thread_id].status;
            &&& request.target is GoalId ==> request.target->GoalId_0@ == old(store)@.goals[thread_id].goal_id
            &&& match request.mode {
                GoalAccountingMode::ActiveStatusOnly => status == ThreadGoalStatus::Active,
                GoalAccountingMode::ActiveOnly => status == ThreadGoalStatus::Active || status == ThreadGoalStatus::BudgetLimited,
                GoalAccountingMode::ActiveOrComplete => {
                    status == ThreadGoalStatus::Active || status == ThreadGoalStatus::BudgetLimited || status == ThreadGoalStatus::Complete
                },
                GoalAccountingMode::ActiveOrStopped => status != ThreadGoalStatus::Complete,
            }
        },
        !(result->Ok_0 is Updated) ==> {
            &&& result->Ok_0 is Unchanged
            &&& result->Ok_0->Unchanged_0 is Some
            &&& result->Ok_0->Unchanged_0->0@ == old(store)@.goals[thread_id]
            &&& final(store)@ == old(store)@
        },
{
    let i = choose|i: int| 0 <= i < request.event_id@.len() && 'a' <= #[trigger] request.event_id@[i] <= 'z';
    assert(!crate::text::is_space(request.event_id@[i]));
}

/// Charged usage adds the tokens and the seconds to the goal, negative ones counting as none, and
/// records the event under its identifier. Identity, objective, budget and creation stay.
pub proof fn law_charged_usage_is_added(
    store: &mut GoalStore,
    thread_id: ThreadId,
    request: GoalAccountingRequest<'_>,
    now_ms: i64,
    result: GoalStoreResult<GoalAccountingOutcome>,
)
    requires
        call_ensures(GoalStore::account_thread_goal_usage_at, (store, thread_id, request, now_ms), result),
        result is Ok && result->Ok_0 is Updated,
    ensures
        old(store)@.goals.contains_key(thread_id),
        final(store)@.goals.contains_key(thread_id),
        result->Ok_0->Updated_0@ == final(store)@.goals[thread_id],
        final(store)@.goals[thread_id].tokens_used == old(store)@.goals[thread_id].tokens_used + (if request.token_delta > 0 { request.token_delta as int } else { 0 }),
        final(store)@.goals[thread_id].time_used_seconds == old(store)@.goals[thread_id].time_used_seconds + (if request.time_delta_seconds > 0 {
            request.time_delta_seconds as int
        } else {
            0
        }),
        final(store)@.goals[thread_id].updated_at == now_ms,
        final(store)@.goals[thread_id].thread_id == old(store)@.goals[thread_id].thread_id,
        final(store)@.goals[thread_id].goal_id == old(store)@.goals[thread_id].goal_id,
        final(store)@.goals[thread_id].objective == old(store)@.goals[thread_id].objective,
        final(store)@.goals[thread_id].token_budget == old(store)@.goals[thread_id].token_budget,
        final(store)@.goals[thread_id].created_at == old(store)@.goals[thread_id].created_at,
        final(store)@.events.contains_key((thread_id, request.event_id@)),
        final(store)@.events[(thread_id, request.event_id@)].thread_id == thread_id,
        final(store)@.events[(thread_id, request.event_id@)].event_id == request.event_id@,
        final(store)@.events[(thread_id, request.event_id@)].goal_id == old(store)@.goals[thread_id].goal_id,
        final(store)@.events[(thread_id, request.event_id@)].token_delta == (if request.token_delta > 0 { request.token_delta as int } else { 0 }),
        final(store)@.events[(thread_id, request.event_id@)].time_delta_seconds == (if request.time_delta_seconds > 0 {
            request.time_delta_seconds as int
        } else {
            0
        }),
        final(store)@.deferrals == old(store)@.deferrals,
        forall|key: (ThreadId, Seq<char>)| #[trigger] old(store)@.events.contains_key(key) ==> final(store)@.events.contains_key(key) && final(store)@.events[key] == old(store)@.events[key],
        forall|other: ThreadId| other != thread_id && #[trigger] old(store)@.goals.contains_key(other) ==> final(store)@.goals[other] == old(store)@.goals[other],
{
}

/// A goal that reaches its budget through charged usage becomes budget limited if it was active,
/// or stopped in the mode that charges stopped goals. A complete goal stays complete, and a goal
/// below its budget, or without one, keeps its status.
pub proof fn law_charged_usage_limits_at_the_budget(
    store: &mut GoalStore,
    thread_id: ThreadId,
    request: GoalAccountingRequest<'_>,
    now_ms: i64,
    result: GoalStoreResult<GoalAccountingOutcome>,
)
    requires
        call_ensures(GoalStore::account_thread_goal_usage_at, (store, thread_id, request, now_ms), result),
        result is Ok && result->Ok_0 is Updated,
    ensures
        ({
            let before = old(store)@.goals[thread_id];
            let after = final(store)@.goals[thread_id];
            let reached = after.token_budget is Some && after.tokens_used >= after.token_budget->0;
            &&& !reached ==> after.status == before.status
            &&& reached && before.status == ThreadGoalStatus::Active ==> after.status == ThreadGoalStatus::BudgetLimited
            &&& reached && before.status != ThreadGoalStatus::Complete && request.mode == GoalAccountingMode::ActiveOrStopped ==> after.status
                == ThreadGoalStatus::BudgetLimited
            &&& before.status == ThreadGoalStatus::BudgetLimited ==> after.status == ThreadGoalStatus::BudgetLimited
            &&& before.status == ThreadGoalStatus::Complete ==> after.status == ThreadGoalStatus::Complete
            &&& request.mode != GoalAccountingMode::ActiveOrStopped && before.status != ThreadGoalStatus::Active ==> after.status == before.status
        }),
{
}

/// Sending usage again under the identifier of a charged event changes nothing. It is
/// acknowledged if goal, tokens, seconds and mode are the recorded ones, and a conflict otherwise.
pub proof fn law_known_event_is_never_charged_again(
    store: &mut GoalStore,
    thread_id: ThreadId,
    request: GoalAccountingRequest<'_>,
    now_ms: i64,
    result: GoalStoreResult<GoalAccountingOutcome>,
)
    requires
        call_ensures(GoalStore::account_thread_goal_usage_at, (store, thread_id, request, now_ms), result),
        !old(store)@.closed,
        old(store)@.goals.contains_key(thread_id),
        old(store)@.events.contains_key((thread_id, request.event_id@)),
        exists|i: int| 0 <= i < request.event_id@.len() && 'a' <= #[trigger] request.event_id@[i] <= 'z',
        request.token_delta >= 0 && request.time_delta_seconds >= 0,
        request.token_delta > 0 || request.time_delta_seconds > 0,
    ensures
        final(store)@ == old(store)@,
        result is Ok || result->Err_0@.0 == GoalStoreErrorKind::Conflict,
        result is Ok <==> {
            let event = old(store)@.events[(thread_id, request.event_id@)];
            &&& event.goal_id == old(store)@.goals[thread_id].goal_id
            &&& request.target is GoalId ==> request.target->GoalId_0@ == event.goal_id
            &&& event.token_delta == request.token_delta
            &&& event.time_delta_seconds == request.time_delta_seconds
            &&& event.mode == (match request.mode {
                GoalAccountingMode::ActiveStatusOnly => "active_status_only"@,
                GoalAccountingMode::ActiveOnly => "active_only"@,
                GoalAccountingMode::ActiveOrComplete => "active_or_complete"@,
                GoalAccountingMode::ActiveOrStopped => "active_or_stopped"@,
            })
        },
        result is Ok ==> result->Ok_0 is AlreadyAccounted && result->Ok_0->AlreadyAccounted_0@ == old(store)@.goals[thread_id],
{
    let i = choose|i: int| 0 <= i < request.event_id@.len() && 'a' <= #[trigger] request.event_id@[i] <= 'z';
    assert(!crate::text::is_space(request.event_id@[i]));
}

/// Nothing is charged for no usage, nor to a thread without a goal, nor under an empty identifier,
/// nor by a closed store, nor beyond what the counters hold.
pub proof fn law_nothing_is_charged_without_usage_or_goal(
    store: &mut GoalStore,
    thread_id: ThreadId,
    request: GoalAccountingRequest<'_>,
    now_ms: i64,
    result: GoalStoreResult<GoalAccountingOutcome>,
)
    requires
        call_ensures(GoalStore::account_thread_goal_usage_at, (store, thread_id, request, now_ms), result),
    ensures
        !(result is Ok && result->Ok_0 is Updated) ==> final(store)@ == old(store)@,
        request.event_id@.len() == 0 || (forall|i: int| 0 <= i < request.event_id@.len() ==> #[trigger] request.event_id@[i] == ' ') ==> result is Err
            && result->Err_0@ == (GoalStoreErrorKind::InvalidRequest, GoalStoreOperation::AccountThreadGoalUsage),
        old(store)@.closed ==> result is Err,
        request.token_delta <= 0 && request.time_delta_seconds <= 0 ==> result is Err || result->Ok_0 is Unchanged,
        !old(store)@.goals.contains_key(thread_id) ==> result is Err || result->Ok_0 is Unchanged && result->Ok_0->Unchanged_0 is None,
        old(store)@.goals.contains_key(thread_id) && (old(store)@.goals[thread_id].tokens_used + request.token_delta > i64::MAX || old(store)@.goals[thread_id].time_used_seconds + request.time_delta_seconds > i64::MAX) ==> !(result is Ok && result->Ok_0 is Updated),
{
    if forall|i: int| 0 <= i < request.event_id@.len() ==> #[trigger] request.event_id@[i] == ' ' {
        assert(crate::text::is_space(' '));
        assert(crate::text::is_blank(request.event_id@));
    }
}

/// Usage charged at the time of the clock is charged as at a given time.
pub proof fn law_usage_charged_now_is_added(
    store: &mut GoalStore,
    thread_id: ThreadId,
    request: GoalAccountingRequest<'_>,
    result: GoalStoreResult<GoalAccountingOutcome>,
)
    requires
        call_ensures(GoalStore::account_thread_goal_usage, (store, thread_id, request), result),
    ensures
        !(result is Ok && result->Ok_0 is Updated) ==> final(store)@ == old(store)@,
        result is Ok && result->Ok_0 is Updated ==> {
            &&& result->Ok_0->Updated_0@ == final(store)@.goals[thread_id]
            &&& final(store)@.goals[thread_id].tokens_used == old(store)@.goals[thread_id].tokens_used + (if request.token_delta > 0 { request.token_delta as int } else { 0 })
            &&& final(store)@.goals[thread_id].time_used_seconds == old(store)@.goals[thread_id].time_used_seconds + (if request.time_delta_seconds > 0 {
                request.time_delta_seconds as int
            } else {
                0
            })
            &&& final(store)@.events.contains_key((thread_id, request.event_id@))
            &&& !old(store)@.events.contains_key((thread_id, request.event_id@))
        },
{
}

/// The stored names of the modes and the statuses.
pub proof fn law_goal_names(mode: GoalAccountingMode, mode_name: &'static str, status: ThreadGoalStatus, status_name: &'static str)
    requires
        call_ensures(GoalAccountingMode::as_str, (mode,), mode_name),
        call_ensures(ThreadGoalStatus::as_str, (status,), status_name),
    ensures
        mode == GoalAccountingMode::ActiveStatusOnly <==> mode_name@ == "active_status_only"@,
        mode == GoalAccountingMode::ActiveOnly <==> mode_name@ == "active_only"@,
        mode == GoalAccountingMode::ActiveOrComplete <==> mode_name@ == "active_or_complete"@,
        mode == GoalAccountingMode::ActiveOrStopped <==> mode_name@ == "active_or_stopped"@,
        status == ThreadGoalStatus::Active <==> status_name@ == "active"@,
        status == ThreadGoalStatus::Paused <==> status_name@ == "paused"@,
        status == ThreadGoalStatus::Blocked <==> status_name@ == "blocked"@,
        status == ThreadGoalStatus::UsageLimited <==> status_name@ == "usage_limited"@,
        status == ThreadGoalStatus::BudgetLimited <==> status_name@ == "budget_limited"@,
        status == ThreadGoalStatus::Complete <==> status_name@ == "complete"@,
{
    reveal_strlit("active_status_only");
    reveal_strlit("active_only");
    reveal_strlit("active_or_complete");
    reveal_strlit("active_or_stopped");
    reveal_strlit("active");
    reveal_strlit("paused");
    reveal_strlit("blocked");
    reveal_strlit("usage_limited");
    reveal_strlit("budget_limited");
    reveal_strlit("complete");
    assert("active_status_only"@.len() == 18 && "active_or_complete"@.len() == 18);
    assert("active_only"@.len() == 11 && "active_or_stopped"@.len() == 17);
    assert("active_status_only"@[7] == 's' && "active_or_complete"@[7] == 'o');
    assert("active"@.len() == 6 && "paused"@.len() == 6 && "blocked"@.len() == 7 && "complete"@.len() == 8);
    assert("usage_limited"@.len() == 13 && "budget_limited"@.len() == 14);
    assert("active"@[0] == 'a' && "paused"@[0] == 'p');
}

/// A status is read back from its stored name, and from nothing else.
pub proof fn law_goal_status_is_read_back(status: ThreadGoalStatus, name: &'static str, text: &str, read: Option<ThreadGoalStatus>)
    requires
        call_ensures(ThreadGoalStatus::as_str, (status,), name),
        call_ensures(ThreadGoalStatus::from_stored, (text,), read),
    ensures
        read == Some(status) <==> text@ == name@,
{
    reveal_strlit("active");
    reveal_strlit("paused");
    reveal_strlit("blocked");
    reveal_strlit("usage_limited");
    reveal_strlit("budget_limited");
    reveal_strlit("complete");
    assert("active"@.len() == 6 && "paused"@.len() == 6 && "blocked"@.len() == 7 && "complete"@.len() == 8);
    assert("usage_limited"@.len() == 13 && "budget_limited"@.len() == 14);
    assert("active"@[0] == 'a' && "paused"@[0] == 'p');
    assert(text@ == name@ ==> read is Some) by {
        assert(name@ == super::status_text(status));
    }
}

/// A failure is reported by its kind and by the operation it befell: a conflicting event as a conflict, a
/// missing identifier as an invalid request, anything else as a matter of persistence.
pub proof fn law_failures_are_told_apart(operation: GoalStoreOperation, source: GoalStoreFailure, error: GoalStoreError)
    requires
        call_ensures(GoalStoreError::from_source, (operation, source), error),
    ensures
        error@.1 == operation,
        error@.0 == GoalStoreErrorKind::Conflict <==> source == GoalStoreFailure::AccountingEventConflict,
        error@.0 == GoalStoreErrorKind::InvalidRequest <==> source == GoalStoreFailure::AccountingEventIdRequired,
        error@.0 == GoalStoreErrorKind::Persistence <==> source == GoalStoreFailure::Unavailable,
{
}

/// The message of an error names the operation and says what to do about it.
pub proof fn law_goal_error_messages(error: &GoalStoreError, text: String, operation: GoalStoreOperation, name: &'static str)
    requires
        call_ensures(GoalStoreError::message, (error,), text),
        call_ensures(GoalStoreOperation::as_str, (operation,), name),
        error@.1 == operation,
    ensures
        text@ == "Runtime State could not complete the `"@ + name@ + (match error@.0 {
            GoalStoreErrorKind::Conflict => "` operation because the accounting event conflicts with persisted goal usage"@,
            GoalStoreErrorKind::InvalidRequest => "` operation because the request is invalid"@,
            GoalStoreErrorKind::Persistence => "` operation; verify goal persistence health, then retry"@,
        }),
        name@ == (match operation {
            GoalStoreOperation::AccountThreadGoalUsage => "account thread goal usage"@,
            GoalStoreOperation::ClearThreadGoalContinuationDeferral => "clear thread goal continuation deferral"@,
            GoalStoreOperation::DeleteThreadGoal => "delete thread goal"@,
            GoalStoreOperation::GetThreadGoal => "get thread goal"@,
            GoalStoreOperation::HasThreadGoalContinuationDeferral => "check thread goal continuation deferral"@,
            GoalStoreOperation::InsertThreadGoal => "insert thread goal"@,
            GoalStoreOperation::PauseActiveThreadGoal => "pause active thread goal"@,
            GoalStoreOperation::ReplaceThreadGoal => "replace thread goal"@,
            GoalStoreOperation::ReplaceThreadGoalSnapshot => "replace thread goal snapshot"@,
            GoalStoreOperation::UpdateThreadGoal => "update thread goal"@,
            GoalStoreOperation::UsageLimitActiveThreadGoal => "usage limit active thread goal"@,
        }),
{
}

/// Which statuses a mode charges, and which of them a used-up budget turns into `BudgetLimited`.
pub proof fn law_modes_and_statuses(mode: GoalAccountingMode, status: ThreadGoalStatus, accepted: bool, limited: bool)
    requires
        call_ensures(GoalAccountingMode::accepts, (mode, status), accepted),
        call_ensures(GoalAccountingMode::applies_budget_limit, (mode, status), limited),
    ensures
        status == ThreadGoalStatus::Active ==> accepted && limited,
        status == ThreadGoalStatus::Complete ==> (accepted <==> mode == GoalAccountingMode::ActiveOrComplete) && !limited,
        status == ThreadGoalStatus::BudgetLimited ==> (accepted <==> mode != GoalAccountingMode::ActiveStatusOnly),
        status == ThreadGoalStatus::Paused || status == ThreadGoalStatus::Blocked || status == ThreadGoalStatus::UsageLimited ==> (accepted <==> mode
            == GoalAccountingMode::ActiveOrStopped),
        status != ThreadGoalStatus::Active && status != ThreadGoalStatus::Complete ==> (limited <==> mode == GoalAccountingMode::ActiveOrStopped),
{
}

/// A target without an identifier is any goal, one with an identifier that goal alone.
pub proof fn law_targets_name_goals(target: GoalAccountingTarget<'_>, goal_id: &str, matched: bool)
    requires
        call_ensures(GoalAccountingTarget::matches, (target, goal_id), matched),
    ensures
        target is CurrentGoal ==> matched,
        target is GoalId ==> (matched <==> target->GoalId_0@ == goal_id@),
{
}

/// A recorded event is that of a request if goal, target, tokens, seconds and mode agree, negative amounts
/// counting as none.
pub proof fn law_events_match_their_requests(event: &GoalAccountingEvent, request: GoalAccountingRequest<'_>, goal_id: &str, matched: bool)
    requires
        call_ensures(GoalAccountingEvent::matches, (event, request, goal_id), matched),
    ensures
        matched <==> {
            &&& event.goal_id@ == goal_id@
            &&& request.target is GoalId ==> request.target->GoalId_0@ == goal_id@
            &&& event.token_delta == (if request.token_delta > 0 {
                request.token_delta as int
            } else {
                0
            })
            &&& event.time_delta_seconds == (if request.time_delta_seconds > 0 {
                request.time_delta_seconds as int
            } else {
                0
            })
            &&& event.mode@ == (match request.mode {
                GoalAccountingMode::ActiveStatusOnly => "active_status_only"@,
                GoalAccountingMode::ActiveOnly => "active_only"@,
                GoalAccountingMode::ActiveOrComplete => "active_or_complete"@,
                GoalAccountingMode::ActiveOrStopped => "active_or_stopped"@,
            })
        },
{
}

/// An active goal at its budget is budget limited; every other status stays.
pub proof fn law_budget_limits_active_goals(status: ThreadGoalStatus, tokens_used: i64, token_budget: Option<i64>, limited: ThreadGoalStatus)
    requires
        call_ensures(status_after_budget_limit, (status, tokens_used, token_budget), limited),
    ensures
        status != ThreadGoalStatus::Active ==> limited == status,
        token_budget is None ==> limited == status,
        status == ThreadGoalStatus::Active && token_budget is Some && tokens_used < token_budget->0 ==> limited == ThreadGoalStatus::Active,
        status == ThreadGoalStatus::Active && token_budget is Some && tokens_used >= token_budget->0 ==> limited == ThreadGoalStatus::BudgetLimited,
{
}

/// Usage turns the status into `BudgetLimited` where it reaches the budget of an active goal, or of a stopped one
/// in the mode that charges those. Otherwise the status stays.
pub proof fn law_status_once_usage_is_counted(goal: &ThreadGoal, token_delta: i64, mode: GoalAccountingMode, status: ThreadGoalStatus)
    requires
        call_ensures(status_after_accounting, (goal, token_delta, mode), status),
    ensures
        ({
            let reached = goal.token_budget is Some && goal.tokens_used + token_delta >= goal.token_budget->0;
            let limits = goal.status == ThreadGoalStatus::Active || mode == GoalAccountingMode::ActiveOrStopped && goal.status != ThreadGoalStatus::Complete;
            &&& reached && limits ==> status == ThreadGoalStatus::BudgetLimited
            &&& !(reached && limits) ==> status == goal.status
        }),
{
}

} // verus!
