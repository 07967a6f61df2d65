//! Laws of thread goals: what several operations promise together.

use super::accounting::accounting;
use super::accounting::charged_goal;
use super::accounting::counted;
use super::fresh_goal;
use super::insertable;
use super::reaches_budget;
use super::update::stopping;
use super::update::updated_goal;
use super::update::updating;
use super::GoalAccountingMode;
use super::GoalAccountingOutcomeView;
use super::GoalAccountingRequestView;
use super::GoalStoreErrorKind;
use super::GoalStoreView;
use super::GoalUpdateView;
use super::ThreadGoalStatus;
use super::ThreadGoalView;
use crate::thread_id::ThreadId;
use vstd::prelude::*;

verus! {

/// The request was charged to the goal of the thread.
pub open spec fn was_charged(
    state: GoalStoreView,
    thread_id: ThreadId,
    request: GoalAccountingRequestView,
    now_ms: i64,
) -> bool {
    accounting(state, thread_id, request, now_ms).1 is Ok && accounting(state, thread_id, request, now_ms).1->Ok_0 is Updated
}

/// No active goal has used up its budget.
pub open spec fn within_budget(state: GoalStoreView) -> bool {
    forall|thread_id: ThreadId| #[trigger] state.goals.contains_key(thread_id) ==> goal_within_budget(state.goals[thread_id])
}

pub open spec fn goal_within_budget(goal: ThreadGoalView) -> bool {
    goal.status == ThreadGoalStatus::Active ==> !reaches_budget(goal.tokens_used as int, goal.token_budget)
}

/// `after` differs from `before` at most in what belongs to `thread_id`.
pub open spec fn only_thread_changed(before: GoalStoreView, after: GoalStoreView, thread_id: ThreadId) -> bool {
    &&& after.closed == before.closed
    &&& forall|other: ThreadId| other != thread_id ==> #[trigger] after.goal(other) == before.goal(other)
    &&& forall|key: (ThreadId, Seq<char>)|
        key.0 != thread_id ==> (#[trigger] after.events.contains_key(key) <==> before.events.contains_key(key))
    &&& forall|key: (ThreadId, Seq<char>)|
        key.0 != thread_id && #[trigger] after.events.contains_key(key) ==> after.events[key] == before.events[key]
    &&& forall|other: ThreadId| other != thread_id ==> (#[trigger] after.deferrals.contains(other) <==> before.deferrals.contains(other))
}

/// Sending a charged request again changes nothing and answers with the same goal.
pub proof fn law_retry_is_charged_once(
    state: GoalStoreView,
    thread_id: ThreadId,
    request: GoalAccountingRequestView,
    now_ms: i64,
    retry_ms: i64,
)
    requires
        was_charged(state, thread_id, request, now_ms),
    ensures
        ({
            let (after, outcome) = accounting(state, thread_id, request, now_ms);
            accounting(after, thread_id, request, retry_ms) == (
                after,
                Ok::<GoalAccountingOutcomeView, GoalStoreErrorKind>(GoalAccountingOutcomeView::AlreadyAccounted(outcome->Ok_0->Updated_0)),
            )
        }),
{
}

/// An event that was charged cannot be used for other usage, another mode or another goal: the
/// reuse is refused and changes nothing.
pub proof fn law_reused_event_conflicts(
    state: GoalStoreView,
    thread_id: ThreadId,
    request: GoalAccountingRequestView,
    now_ms: i64,
    other: GoalAccountingRequestView,
    later_ms: i64,
)
    requires
        was_charged(state, thread_id, request, now_ms),
        other.event_id == request.event_id,
        counted(other.time_delta_seconds) != 0 || counted(other.token_delta) != 0,
        counted(other.time_delta_seconds) != counted(request.time_delta_seconds)
            || counted(other.token_delta) != counted(request.token_delta)
            || other.mode != request.mode
            || !other.target.selects(state.goals[thread_id].goal_id),
    ensures
        ({
            let after = accounting(state, thread_id, request, now_ms).0;
            accounting(after, thread_id, other, later_ms) == (
                after,
                Err::<GoalAccountingOutcomeView, GoalStoreErrorKind>(GoalStoreErrorKind::Conflict),
            )
        }),
{
    if other.mode != request.mode && super::accounting::mode_text(other.mode) == super::accounting::mode_text(request.mode) {
        super::accounting::lemma_mode_text_injective(other.mode, request.mode);
    }
}

/// Accounting never takes usage back, and charges exactly the counted deltas when it charges.
pub proof fn law_usage_adds_up(
    state: GoalStoreView,
    thread_id: ThreadId,
    request: GoalAccountingRequestView,
    now_ms: i64,
)
    requires
        state.goals.contains_key(thread_id),
    ensures
        ({
            let after = accounting(state, thread_id, request, now_ms).0;
            let charged = was_charged(state, thread_id, request, now_ms);
            &&& after.goals.contains_key(thread_id)
            &&& after.goals[thread_id].tokens_used == state.goals[thread_id].tokens_used + if charged { counted(request.token_delta) as int } else { 0 }
            &&& after.goals[thread_id].time_used_seconds == state.goals[thread_id].time_used_seconds + if charged { counted(request.time_delta_seconds) as int } else { 0 }
            &&& after.goals[thread_id].goal_id == state.goals[thread_id].goal_id
            &&& after.goals[thread_id].objective == state.goals[thread_id].objective
            &&& after.goals[thread_id].token_budget == state.goals[thread_id].token_budget
            &&& after.goals[thread_id].created_at == state.goals[thread_id].created_at
        }),
{
}

/// Two distinct events are charged to the same effect in either order, unless a mode charges only
/// goals whose status is active.
pub proof fn law_distinct_events_commute(
    state: GoalStoreView,
    thread_id: ThreadId,
    first: GoalAccountingRequestView,
    second: GoalAccountingRequestView,
    now_ms: i64,
)
    requires
        first.event_id != second.event_id,
        first.mode == second.mode,
        first.mode != GoalAccountingMode::ActiveStatusOnly,
        was_charged(state, thread_id, first, now_ms),
        was_charged(state, thread_id, second, now_ms),
        state.goals[thread_id].tokens_used + counted(first.token_delta) + counted(second.token_delta) <= i64::MAX,
        state.goals[thread_id].time_used_seconds + counted(first.time_delta_seconds) + counted(second.time_delta_seconds) <= i64::MAX,
    ensures
        was_charged(accounting(state, thread_id, first, now_ms).0, thread_id, second, now_ms),
        was_charged(accounting(state, thread_id, second, now_ms).0, thread_id, first, now_ms),
        accounting(accounting(state, thread_id, first, now_ms).0, thread_id, second, now_ms).0
            == accounting(accounting(state, thread_id, second, now_ms).0, thread_id, first, now_ms).0,
{
    let goal = state.goals[thread_id];
    let after_first = accounting(state, thread_id, first, now_ms).0;
    let after_second = accounting(state, thread_id, second, now_ms).0;
    let ab = charged_goal(charged_goal(goal, first, now_ms), second, now_ms);
    let ba = charged_goal(charged_goal(goal, second, now_ms), first, now_ms);
    assert(ab == ba);
    let left = accounting(after_first, thread_id, second, now_ms).0;
    let right = accounting(after_second, thread_id, first, now_ms).0;
    assert(left.goals =~= state.goals.insert(thread_id, ab));
    assert(right.goals =~= state.goals.insert(thread_id, ba));
    assert(left.events =~= right.events);
}

/// Every goal that these operations leave active is within its budget, if it was so before.
pub proof fn law_active_goals_stay_within_budget(
    state: GoalStoreView,
    thread_id: ThreadId,
    goal_id: Seq<char>,
    objective: Seq<char>,
    status: ThreadGoalStatus,
    token_budget: Option<i64>,
    update: GoalUpdateView,
    request: GoalAccountingRequestView,
    now_ms: i64,
)
    requires
        within_budget(state),
        state.keyed(),
    ensures
        within_budget(state.with_goal(fresh_goal(thread_id, goal_id, objective, status, token_budget, now_ms))),
        within_budget(updating(state, thread_id, update, now_ms).0),
        within_budget(stopping(state, thread_id, ThreadGoalStatus::Paused, now_ms).0),
        within_budget(stopping(state, thread_id, ThreadGoalStatus::UsageLimited, now_ms).0),
        within_budget(accounting(state, thread_id, request, now_ms).0),
{
    let accounted = accounting(state, thread_id, request, now_ms).0;
    assert forall|other: ThreadId| #[trigger] accounted.goals.contains_key(other) implies goal_within_budget(accounted.goals[other]) by {
        assert(state.goals.contains_key(other));
    }
    let updated = updating(state, thread_id, update, now_ms).0;
    assert forall|other: ThreadId| #[trigger] updated.goals.contains_key(other) implies goal_within_budget(updated.goals[other]) by {
        assert(state.goals.contains_key(other));
    }
    let paused = stopping(state, thread_id, ThreadGoalStatus::Paused, now_ms).0;
    assert forall|other: ThreadId| #[trigger] paused.goals.contains_key(other) implies goal_within_budget(paused.goals[other]) by {
        assert(state.goals.contains_key(other));
    }
    let limited = stopping(state, thread_id, ThreadGoalStatus::UsageLimited, now_ms).0;
    assert forall|other: ThreadId| #[trigger] limited.goals.contains_key(other) implies goal_within_budget(limited.goals[other]) by {
        assert(state.goals.contains_key(other));
    }
    let replaced = state.with_goal(fresh_goal(thread_id, goal_id, objective, status, token_budget, now_ms));
    assert forall|other: ThreadId| #[trigger] replaced.goals.contains_key(other) implies goal_within_budget(replaced.goals[other]) by {
        if other != thread_id {
            assert(state.goals.contains_key(other));
        }
    }
}

/// Operations on one thread leave the goals, events and deferrals of all others as they are.
pub proof fn law_other_threads_are_untouched(
    state: GoalStoreView,
    thread_id: ThreadId,
    goal: ThreadGoalView,
    update: GoalUpdateView,
    status: ThreadGoalStatus,
    request: GoalAccountingRequestView,
    now_ms: i64,
)
    requires
        state.keyed(),
        goal.thread_id == thread_id,
    ensures
        only_thread_changed(state, state.with_goal(goal), thread_id),
        only_thread_changed(state, GoalStoreView { goals: state.goals.remove(thread_id), ..state }, thread_id),
        only_thread_changed(state, updating(state, thread_id, update, now_ms).0, thread_id),
        only_thread_changed(state, stopping(state, thread_id, status, now_ms).0, thread_id),
        only_thread_changed(state, accounting(state, thread_id, request, now_ms).0, thread_id),
{
    assert(state.goals.contains_key(thread_id) ==> state.goals[thread_id].thread_id == thread_id);
}

/// An update meant for another version of the goal is ignored, and so is one for a thread without
/// a goal.
pub proof fn law_stale_update_is_ignored(
    state: GoalStoreView,
    thread_id: ThreadId,
    update: GoalUpdateView,
    now_ms: i64,
)
    requires
        state.goal(thread_id) is None || !update.addresses(state.goals[thread_id].goal_id),
    ensures
        updating(state, thread_id, update, now_ms) == (state, None::<ThreadGoalView>),
{
}

/// Usage of a replaced goal is not charged to its replacement.
pub proof fn law_stale_usage_is_not_charged(
    state: GoalStoreView,
    thread_id: ThreadId,
    request: GoalAccountingRequestView,
    now_ms: i64,
)
    requires
        state.goals.contains_key(thread_id),
        !request.target.selects(state.goals[thread_id].goal_id),
    ensures
        accounting(state, thread_id, request, now_ms).0 == state,
        !was_charged(state, thread_id, request, now_ms),
{
}

/// An update changes the fields it names, and never the identity or the usage of the goal.
pub proof fn law_update_changes_only_what_it_names(
    goal: ThreadGoalView,
    update: GoalUpdateView,
    now_ms: i64,
)
    ensures
        ({
            let after = updated_goal(goal, update, now_ms);
            &&& after.thread_id == goal.thread_id
            &&& after.goal_id == goal.goal_id
            &&& after.tokens_used == goal.tokens_used
            &&& after.time_used_seconds == goal.time_used_seconds
            &&& after.created_at == goal.created_at
            &&& update.objective is None ==> after.objective == goal.objective
            &&& update.token_budget is None ==> after.token_budget == goal.token_budget
            &&& update.status is None && update.token_budget is None ==> after.status == goal.status
        }),
{
}

/// A budget limit outlasts attempts to pause or block the goal.
pub proof fn law_budget_limit_outlasts_pausing(
    goal: ThreadGoalView,
    update: GoalUpdateView,
    now_ms: i64,
)
    requires
        goal.status == ThreadGoalStatus::BudgetLimited,
        update.status == Some(ThreadGoalStatus::Paused) || update.status == Some(ThreadGoalStatus::Blocked),
    ensures
        updated_goal(goal, update, now_ms).status == ThreadGoalStatus::BudgetLimited,
{
}

/// What is stored is what is read, a second insertion finds the place taken, and what is deleted
/// is gone.
pub proof fn law_stored_goal_is_read_back(state: GoalStoreView, goal: ThreadGoalView)
    ensures
        state.with_goal(goal).goal(goal.thread_id) == Some(goal),
        goal.status != ThreadGoalStatus::Complete ==> !insertable(state.with_goal(goal), goal.thread_id),
        goal.status == ThreadGoalStatus::Complete ==> insertable(state.with_goal(goal), goal.thread_id),
        (GoalStoreView { goals: state.goals.remove(goal.thread_id), ..state }).goal(goal.thread_id) is None,
{
}

/// Stopping does not overwrite a goal that is already stopped or complete.
pub proof fn law_stopped_goals_are_not_stopped_again(
    state: GoalStoreView,
    thread_id: ThreadId,
    status: ThreadGoalStatus,
    now_ms: i64,
    again_ms: i64,
)
    requires
        status == ThreadGoalStatus::Paused || status == ThreadGoalStatus::UsageLimited,
        state.keyed(),
    ensures
        ({
            let after = stopping(state, thread_id, status, now_ms).0;
            stopping(after, thread_id, status, again_ms) == (after, None::<ThreadGoalView>)
        }),
{
    assert(state.goals.contains_key(thread_id) ==> state.goals[thread_id].thread_id == thread_id);
}

} // verus!
