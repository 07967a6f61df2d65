//! Changes to the goal of a thread.

use super::limited_status;
use super::status_after_budget_limit;
use super::unavailable;
use super::GoalStore;
use super::GoalStoreError;
use super::GoalStoreFailure;
use super::GoalStoreOperation;
use super::GoalStoreResult;
use super::GoalStoreView;
use super::ThreadGoal;
use super::ThreadGoalStatus;
use super::ThreadGoalView;
use crate::outside::now_millis;
use crate::thread_id::opt_view;
use crate::thread_id::ThreadId;
use vstd::prelude::*;

verus! {

/// What to change in a goal; what is `None` stays as it is.
#[derive(Debug)]
pub struct GoalUpdate {
    pub objective: Option<String>,
    pub status: Option<ThreadGoalStatus>,
    /// `Some(None)` takes the budget away.
    pub token_budget: Option<Option<i64>>,
    /// The change applies only to the goal with this identifier.
    pub expected_goal_id: Option<String>,
}

#[verifier::ext_equal]
pub struct GoalUpdateView {
    pub objective: Option<Seq<char>>,
    pub status: Option<ThreadGoalStatus>,
    pub token_budget: Option<Option<i64>>,
    pub expected_goal_id: Option<Seq<char>>,
}

impl View for GoalUpdate {
    type V = GoalUpdateView;

    open spec fn view(&self) -> GoalUpdateView {
        GoalUpdateView {
            objective: opt_view(self.objective),
            status: self.status,
            token_budget: self.token_budget,
            expected_goal_id: opt_view(self.expected_goal_id),
        }
    }
}

impl GoalUpdateView {
    /// Nothing is to be changed.
    pub open spec fn is_read(self) -> bool {
        self.objective is None && self.status is None && self.token_budget is None
    }

    /// The update is meant for the goal with this identifier.
    pub open spec fn addresses(self, goal_id: Seq<char>) -> bool {
        self.expected_goal_id is None || self.expected_goal_id->0 == goal_id
    }
}

/// The budget after an update.
pub open spec fn updated_budget(goal: ThreadGoalView, update: GoalUpdateView) -> Option<i64> {
    match update.token_budget {
        Some(token_budget) => token_budget,
        None => goal.token_budget,
    }
}

/// The status after an update: a budget-limited goal cannot be paused or blocked, and a goal that
/// would be active although its usage reaches the budget is budget limited.
pub open spec fn updated_status(goal: ThreadGoalView, update: GoalUpdateView) -> ThreadGoalStatus {
    match update.status {
        Some(status) => {
            if goal.status == ThreadGoalStatus::BudgetLimited && (status == ThreadGoalStatus::Paused || status == ThreadGoalStatus::Blocked) {
                goal.status
            } else {
                limited_status(status, goal.tokens_used as int, updated_budget(goal, update))
            }
        },
        None => {
            if update.token_budget is Some {
                limited_status(goal.status, goal.tokens_used as int, updated_budget(goal, update))
            } else {
                goal.status
            }
        },
    }
}

/// The goal after an update.
pub open spec fn updated_goal(goal: ThreadGoalView, update: GoalUpdateView, now_ms: i64) -> ThreadGoalView {
    ThreadGoalView {
        objective: match update.objective {
            Some(objective) => objective,
            None => goal.objective,
        },
        status: updated_status(goal, update),
        token_budget: updated_budget(goal, update),
        updated_at: now_ms,
        ..goal
    }
}

/// What an update returns, and the state it leaves. A goal that the update does not address is
/// neither changed nor returned.
pub open spec fn updating(
    state: GoalStoreView,
    thread_id: ThreadId,
    update: GoalUpdateView,
    now_ms: i64,
) -> (GoalStoreView, Option<ThreadGoalView>) {
    match state.goal(thread_id) {
        Some(goal) if update.addresses(goal.goal_id) => {
            if update.is_read() {
                (state, Some(goal))
            } else {
                (
                    state.with_goal(updated_goal(goal, update, now_ms)),
                    Some(updated_goal(goal, update, now_ms)),
                )
            }
        },
        _ => (state, None),
    }
}

/// `Paused` stops active goals; `UsageLimited` also takes over from a budget limit.
pub open spec fn stoppable(goal: ThreadGoalView, status: ThreadGoalStatus) -> bool {
    ||| goal.status == ThreadGoalStatus::Active
    ||| status == ThreadGoalStatus::UsageLimited && goal.status == ThreadGoalStatus::BudgetLimited
}

/// What stopping the current goal returns, and the state it leaves.
pub open spec fn stopping(
    state: GoalStoreView,
    thread_id: ThreadId,
    status: ThreadGoalStatus,
    now_ms: i64,
) -> (GoalStoreView, Option<ThreadGoalView>) {
    match state.goal(thread_id) {
        Some(goal) if stoppable(goal, status) => {
            let stopped = ThreadGoalView { status, updated_at: now_ms, ..goal };
            (state.with_goal(stopped), Some(stopped))
        },
        _ => (state, None),
    }
}

impl GoalStore {
    /// Change the goal of a thread.
    pub fn update_thread_goal(
        &mut self,
        thread_id: ThreadId,
        update: GoalUpdate,
    ) -> (result: GoalStoreResult<Option<ThreadGoal>>)
        ensures
            match result {
                Ok(goal) => !old(self)@.closed && exists|now_ms: i64|
                    (final(self)@, opt_view(goal)) == #[trigger] updating(old(self)@, thread_id, update@, now_ms),
                Err(error) => {
                    &&& old(self)@.closed
                    &&& error@ == unavailable(GoalStoreOperation::UpdateThreadGoal)
                    &&& final(self)@ == old(self)@
                },
            },
    {
        let now_ms = now_millis();
        self.update_thread_goal_at(thread_id, update, now_ms)
    }

    /// Change the goal of a thread at `now_ms`.
    pub fn update_thread_goal_at(
        &mut self,
        thread_id: ThreadId,
        update: GoalUpdate,
        now_ms: i64,
    ) -> (result: GoalStoreResult<Option<ThreadGoal>>)
        ensures
            match result {
                Ok(goal) => {
                    &&& !old(self)@.closed
                    &&& (final(self)@, opt_view(goal)) == updating(old(self)@, thread_id, update@, now_ms)
                },
                Err(error) => {
                    &&& old(self)@.closed
                    &&& error@ == unavailable(GoalStoreOperation::UpdateThreadGoal)
                    &&& final(self)@ == old(self)@
                },
            },
    {
        let found = match self.read_goal(thread_id) {
            Ok(goal) => goal,
            Err(failure) => {
                return Err(GoalStoreError::from_source(GoalStoreOperation::UpdateThreadGoal, failure));
            },
        };
        let goal = match found {
            Some(goal) => goal,
            None => {
                return Ok(None);
            },
        };
        if let Some(expected_goal_id) = &update.expected_goal_id {
            if *expected_goal_id != goal.goal_id {
                return Ok(None);
            }
        }
        if update.objective.is_none() && update.status.is_none() && update.token_budget.is_none() {
            return Ok(Some(goal));
        }
        let token_budget = match update.token_budget {
            Some(token_budget) => token_budget,
            None => goal.token_budget,
        };
        let status = match update.status {
            Some(status) => {
                if goal.status == ThreadGoalStatus::BudgetLimited && (status == ThreadGoalStatus::Paused || status == ThreadGoalStatus::Blocked) {
                    goal.status
                } else {
                    status_after_budget_limit(status, goal.tokens_used, token_budget)
                }
            },
            None => {
                if update.token_budget.is_some() {
                    status_after_budget_limit(goal.status, goal.tokens_used, token_budget)
                } else {
                    goal.status
                }
            },
        };
        let objective = match update.objective {
            Some(objective) => objective,
            None => goal.objective,
        };
        let updated = ThreadGoal {
            thread_id: goal.thread_id,
            goal_id: goal.goal_id,
            objective,
            status,
            token_budget,
            tokens_used: goal.tokens_used,
            time_used_seconds: goal.time_used_seconds,
            created_at: goal.created_at,
            updated_at: now_ms,
        };
        self.goals.put(updated.clone());
        Ok(Some(updated))
    }

    /// Pause the goal of a thread if it is active.
    pub fn pause_active_thread_goal(&mut self, thread_id: ThreadId) -> (result: GoalStoreResult<Option<ThreadGoal>>)
        ensures
            match result {
                Ok(goal) => !old(self)@.closed && exists|now_ms: i64|
                    (final(self)@, opt_view(goal)) == #[trigger] stopping(old(self)@, thread_id, ThreadGoalStatus::Paused, now_ms),
                Err(error) => {
                    &&& old(self)@.closed
                    &&& error@ == unavailable(GoalStoreOperation::PauseActiveThreadGoal)
                    &&& final(self)@ == old(self)@
                },
            },
    {
        let now_ms = now_millis();
        match self.update_active_thread_goal_status(thread_id, ThreadGoalStatus::Paused, now_ms) {
            Ok(goal) => Ok(goal),
            Err(failure) => Err(GoalStoreError::from_source(GoalStoreOperation::PauseActiveThreadGoal, failure)),
        }
    }

    /// Mark the goal of a thread as stopped by a usage limit, if it is active or budget limited.
    pub fn usage_limit_active_thread_goal(&mut self, thread_id: ThreadId) -> (result: GoalStoreResult<Option<ThreadGoal>>)
        ensures
            match result {
                Ok(goal) => !old(self)@.closed && exists|now_ms: i64|
                    (final(self)@, opt_view(goal)) == #[trigger] stopping(old(self)@, thread_id, ThreadGoalStatus::UsageLimited, now_ms),
                Err(error) => {
                    &&& old(self)@.closed
                    &&& error@ == unavailable(GoalStoreOperation::UsageLimitActiveThreadGoal)
                    &&& final(self)@ == old(self)@
                },
            },
    {
        let now_ms = now_millis();
        match self.update_active_thread_goal_status(thread_id, ThreadGoalStatus::UsageLimited, now_ms) {
            Ok(goal) => Ok(goal),
            Err(failure) => Err(GoalStoreError::from_source(GoalStoreOperation::UsageLimitActiveThreadGoal, failure)),
        }
    }

    /// Stop the goal of a thread with `status` at `now_ms`, if it may be stopped that way.
    pub fn update_active_thread_goal_status(
        &mut self,
        thread_id: ThreadId,
        status: ThreadGoalStatus,
        now_ms: i64,
    ) -> (result: Result<Option<ThreadGoal>, GoalStoreFailure>)
        ensures
            match result {
                Ok(goal) => {
                    &&& !old(self)@.closed
                    &&& (final(self)@, opt_view(goal)) == stopping(old(self)@, thread_id, status, now_ms)
                },
                Err(failure) => {
                    &&& old(self)@.closed
                    &&& failure == GoalStoreFailure::Unavailable
                    &&& final(self)@ == old(self)@
                },
            },
    {
        let found = match self.read_goal(thread_id) {
            Ok(goal) => goal,
            Err(failure) => {
                return Err(failure);
            },
        };
        match found {
            Some(goal) => {
                let stops = goal.status == ThreadGoalStatus::Active || (status == ThreadGoalStatus::UsageLimited
                    && goal.status == ThreadGoalStatus::BudgetLimited);
                if !stops {
                    return Ok(None);
                }
                let stopped = ThreadGoal { status, updated_at: now_ms, ..goal };
                self.goals.put(stopped.clone());
                Ok(Some(stopped))
            },
            None => Ok(None),
        }
    }
}

} // verus!
