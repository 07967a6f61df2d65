//! Thread goals: one goal per thread, its budget and its accounted usage.

use crate::outside::new_identifier;
use crate::outside::now_millis;
use crate::table::lemma_keyed;
use crate::table::Row;
use crate::table::Table;
use crate::text::same_text;
use crate::thread_id::opt_view;
use crate::thread_id::ThreadId;
use vstd::prelude::*;

pub mod accounting;
pub mod continuation;
pub mod effect_laws;
pub mod error;
pub mod laws;
pub mod update;

pub use accounting::GoalAccountingEvent;
pub use accounting::GoalAccountingEventView;
pub use accounting::GoalAccountingMode;
pub use accounting::GoalAccountingOutcome;
pub use accounting::GoalAccountingOutcomeView;
pub use accounting::GoalAccountingRequest;
pub use accounting::GoalAccountingRequestView;
pub use accounting::GoalAccountingTarget;
pub use accounting::GoalAccountingTargetView;
pub use error::GoalStoreError;
pub use error::GoalStoreErrorKind;
pub use error::GoalStoreFailure;
pub use error::GoalStoreOperation;
pub use error::GoalStoreResult;
pub use error::public_goal_store_result;
pub use update::GoalUpdate;
pub use update::GoalUpdateView;

verus! {

/// Where a goal stands.
#[derive(Clone, Copy, Debug, PartialEq, Eq, Structural)]
pub enum ThreadGoalStatus {
    Active,
    Paused,
    Blocked,
    UsageLimited,
    BudgetLimited,
    Complete,
}

/// The stored name of a status.
pub open spec fn status_text(status: ThreadGoalStatus) -> Seq<char> {
    match status {
        ThreadGoalStatus::Active => "active"@,
        ThreadGoalStatus::Paused => "paused"@,
        ThreadGoalStatus::Blocked => "blocked"@,
        ThreadGoalStatus::UsageLimited => "usage_limited"@,
        ThreadGoalStatus::BudgetLimited => "budget_limited"@,
        ThreadGoalStatus::Complete => "complete"@,
    }
}

impl ThreadGoalStatus {
    pub fn as_str(self) -> (text: &'static str)
        ensures
            text@ == status_text(self),
    {
        match self {
            Self::Active => "active",
            Self::Paused => "paused",
            Self::Blocked => "blocked",
            Self::UsageLimited => "usage_limited",
            Self::BudgetLimited => "budget_limited",
            Self::Complete => "complete",
        }
    }

    /// The status with the given stored name.
    pub fn from_stored(text: &str) -> (status: Option<Self>)
        ensures
            match status {
                Some(status) => text@ == status_text(status),
                None => forall|status: ThreadGoalStatus| text@ != #[trigger] status_text(status),
            },
    {
        if same_text(text, "active") {
            Some(Self::Active)
        } else if same_text(text, "paused") {
            Some(Self::Paused)
        } else if same_text(text, "blocked") {
            Some(Self::Blocked)
        } else if same_text(text, "usage_limited") {
            Some(Self::UsageLimited)
        } else if same_text(text, "budget_limited") {
            Some(Self::BudgetLimited)
        } else if same_text(text, "complete") {
            Some(Self::Complete)
        } else {
            None
        }
    }
}

/// The goal of a thread. Times are milliseconds since the Unix epoch.
#[derive(Debug, PartialEq, Eq)]
pub struct ThreadGoal {
    pub thread_id: ThreadId,
    pub goal_id: String,
    pub objective: String,
    pub status: ThreadGoalStatus,
    pub token_budget: Option<i64>,
    pub tokens_used: i64,
    pub time_used_seconds: i64,
    pub created_at: i64,
    pub updated_at: i64,
}

#[verifier::ext_equal]
pub struct ThreadGoalView {
    pub thread_id: ThreadId,
    pub goal_id: Seq<char>,
    pub objective: Seq<char>,
    pub status: ThreadGoalStatus,
    pub token_budget: Option<i64>,
    pub tokens_used: i64,
    pub time_used_seconds: i64,
    pub created_at: i64,
    pub updated_at: i64,
}

impl View for ThreadGoal {
    type V = ThreadGoalView;

    open spec fn view(&self) -> ThreadGoalView {
        ThreadGoalView {
            thread_id: self.thread_id,
            goal_id: self.goal_id@,
            objective: self.objective@,
            status: self.status,
            token_budget: self.token_budget,
            tokens_used: self.tokens_used,
            time_used_seconds: self.time_used_seconds,
            created_at: self.created_at,
            updated_at: self.updated_at,
        }
    }
}

impl Clone for ThreadGoal {
    fn clone(&self) -> (copy: Self)
        ensures
            copy@ == self@,
    {
        ThreadGoal {
            thread_id: self.thread_id,
            goal_id: self.goal_id.clone(),
            objective: self.objective.clone(),
            status: self.status,
            token_budget: self.token_budget,
            tokens_used: self.tokens_used,
            time_used_seconds: self.time_used_seconds,
            created_at: self.created_at,
            updated_at: self.updated_at,
        }
    }
}

impl Row for ThreadGoal {
    type Key = ThreadId;

    open spec fn key_of(row: ThreadGoalView) -> ThreadId {
        row.thread_id
    }

    fn has_key(&self, key: &ThreadId) -> (found: bool) {
        assert(key@ == *key);
        self.thread_id == *key
    }

    fn same_key(&self, other: &Self) -> (same: bool) {
        self.thread_id == other.thread_id
    }

    fn duplicate(&self) -> (copy: Self) {
        self.clone()
    }
}

/// The goals, the accounted events and the deferred continuations of all threads.
pub struct GoalStore {
    closed: bool,
    goals: Table<ThreadGoal>,
    events: Table<GoalAccountingEvent>,
    deferrals: Table<ThreadId>,
}

#[verifier::ext_equal]
pub struct GoalStoreView {
    /// Whether the store was closed: every operation then fails.
    pub closed: bool,
    pub goals: Map<ThreadId, ThreadGoalView>,
    pub events: Map<(ThreadId, Seq<char>), GoalAccountingEventView>,
    pub deferrals: Set<ThreadId>,
}

impl View for GoalStore {
    type V = GoalStoreView;

    closed spec fn view(&self) -> GoalStoreView {
        GoalStoreView {
            closed: self.closed,
            goals: self.goals@,
            events: self.events@,
            deferrals: self.deferrals@.dom(),
        }
    }
}

impl GoalStoreView {
    /// The goal of a thread.
    pub open spec fn goal(self, thread_id: ThreadId) -> Option<ThreadGoalView> {
        if self.goals.contains_key(thread_id) {
            Some(self.goals[thread_id])
        } else {
            None
        }
    }

    /// Every goal is stored under its own thread, every event under its thread and identifier.
    pub open spec fn keyed(self) -> bool {
        &&& forall|thread_id: ThreadId| #[trigger] self.goals.contains_key(thread_id) ==> self.goals[thread_id].thread_id == thread_id
        &&& forall|key: (ThreadId, Seq<char>)| #[trigger] self.events.contains_key(key) ==> (self.events[key].thread_id, self.events[key].event_id) == key
    }

    /// Store `goal` under its thread.
    pub open spec fn with_goal(self, goal: ThreadGoalView) -> GoalStoreView {
        GoalStoreView { goals: self.goals.insert(goal.thread_id, goal), ..self }
    }
}

/// The failure that every operation of a closed store reports.
pub open spec fn unavailable(operation: GoalStoreOperation) -> (GoalStoreErrorKind, GoalStoreOperation) {
    (GoalStoreErrorKind::Persistence, operation)
}

/// An active goal whose usage has reached its budget is budget limited.
pub open spec fn limited_status(
    status: ThreadGoalStatus,
    tokens_used: int,
    token_budget: Option<i64>,
) -> ThreadGoalStatus {
    if status == ThreadGoalStatus::Active && reaches_budget(tokens_used, token_budget) {
        ThreadGoalStatus::BudgetLimited
    } else {
        status
    }
}

/// Usage is at the budget or above it.
pub open spec fn reaches_budget(tokens_used: int, token_budget: Option<i64>) -> bool {
    token_budget is Some && tokens_used >= token_budget->0
}

pub fn status_after_budget_limit(
    status: ThreadGoalStatus,
    tokens_used: i64,
    token_budget: Option<i64>,
) -> (limited: ThreadGoalStatus)
    ensures
        limited == limited_status(status, tokens_used as int, token_budget),
{
    match token_budget {
        Some(budget) if status == ThreadGoalStatus::Active && tokens_used >= budget => {
            ThreadGoalStatus::BudgetLimited
        },
        _ => status,
    }
}

/// A goal that nothing has been accounted to.
pub open spec fn fresh_goal(
    thread_id: ThreadId,
    goal_id: Seq<char>,
    objective: Seq<char>,
    status: ThreadGoalStatus,
    token_budget: Option<i64>,
    now_ms: i64,
) -> ThreadGoalView {
    ThreadGoalView {
        thread_id,
        goal_id,
        objective,
        status: limited_status(status, 0, token_budget),
        token_budget,
        tokens_used: 0,
        time_used_seconds: 0,
        created_at: now_ms,
        updated_at: now_ms,
    }
}

/// `insert` only takes the place of a goal that is complete, or of none.
pub open spec fn insertable(state: GoalStoreView, thread_id: ThreadId) -> bool {
    match state.goal(thread_id) {
        Some(goal) => goal.status == ThreadGoalStatus::Complete,
        None => true,
    }
}

impl GoalStore {
    pub fn new() -> (store: Self)
        ensures
            store@ == (GoalStoreView {
                closed: false,
                goals: Map::empty(),
                events: Map::empty(),
                deferrals: Set::empty(),
            }),
    {
        let store = GoalStore {
            closed: false,
            goals: Table::new(),
            events: Table::new(),
            deferrals: Table::new(),
        };
        assert(store@.deferrals =~= Set::empty());
        store
    }

    /// A store with the given rows.
    pub fn from_rows(goals: Table<ThreadGoal>, events: Table<GoalAccountingEvent>, deferrals: Table<ThreadId>) -> (store: Self)
        ensures
            store@ == (GoalStoreView { closed: false, goals: goals@, events: events@, deferrals: deferrals@.dom() }),
    {
        GoalStore { closed: false, goals, events, deferrals }
    }

    /// The goals.
    pub fn goals(&self) -> (goals: &Table<ThreadGoal>)
        ensures
            goals@ == self@.goals,
    {
        &self.goals
    }

    /// The accounted events.
    pub fn events(&self) -> (events: &Table<GoalAccountingEvent>)
        ensures
            events@ == self@.events,
    {
        &self.events
    }

    /// The rows of a store are keyed.
    pub proof fn lemma_keyed(&self)
        ensures
            self@.keyed(),
    {
        lemma_keyed(self.goals);
        lemma_keyed(self.events);
    }

    /// Whether the store was closed.
    pub fn is_closed(&self) -> (closed: bool)
        ensures
            closed == self@.closed,
    {
        self.closed
    }

    /// Close the store: from here on every operation fails.
    pub fn close(&mut self)
        ensures
            final(self)@ == (GoalStoreView { closed: true, ..old(self)@ }),
    {
        self.closed = true;
    }

    pub fn get_thread_goal(&self, thread_id: ThreadId) -> (result: GoalStoreResult<Option<ThreadGoal>>)
        ensures
            match result {
                Ok(goal) => !self@.closed && opt_view(goal) == self@.goal(thread_id),
                Err(error) => self@.closed && error@ == unavailable(GoalStoreOperation::GetThreadGoal),
            },
    {
        public_goal_store_result(GoalStoreOperation::GetThreadGoal, self.read_goal(thread_id))
    }

    fn read_goal(&self, thread_id: ThreadId) -> (result: Result<Option<ThreadGoal>, GoalStoreFailure>)
        ensures
            match result {
                Ok(goal) => {
                    &&& !self@.closed
                    &&& opt_view(goal) == self@.goal(thread_id)
                    &&& goal is Some ==> goal->0@.thread_id == thread_id
                },
                Err(failure) => self@.closed && failure == GoalStoreFailure::Unavailable,
            },
    {
        if self.closed {
            return Err(GoalStoreFailure::Unavailable);
        }
        match self.goals.get(&thread_id) {
            Some(goal) => Ok(Some(goal.clone())),
            None => Ok(None),
        }
    }

    /// Give the thread a new goal, whatever goal it had.
    pub fn replace_thread_goal(
        &mut self,
        thread_id: ThreadId,
        objective: &str,
        status: ThreadGoalStatus,
        token_budget: Option<i64>,
    ) -> (result: GoalStoreResult<ThreadGoal>)
        ensures
            match result {
                Ok(goal) => {
                    &&& !old(self)@.closed
                    &&& goal@ == fresh_goal(thread_id, goal@.goal_id, objective@, status, token_budget, goal@.created_at)
                    &&& final(self)@ == old(self)@.with_goal(goal@)
                },
                Err(error) => {
                    &&& old(self)@.closed
                    &&& error@ == unavailable(GoalStoreOperation::ReplaceThreadGoal)
                    &&& final(self)@ == old(self)@
                },
            },
    {
        let goal_id = new_identifier();
        let now_ms = now_millis();
        self.replace_thread_goal_at(thread_id, goal_id, objective, status, token_budget, now_ms)
    }

    /// Give the thread a new goal named `goal_id`, made at `now_ms`.
    pub fn replace_thread_goal_at(
        &mut self,
        thread_id: ThreadId,
        goal_id: String,
        objective: &str,
        status: ThreadGoalStatus,
        token_budget: Option<i64>,
        now_ms: i64,
    ) -> (result: GoalStoreResult<ThreadGoal>)
        ensures
            match result {
                Ok(goal) => {
                    &&& !old(self)@.closed
                    &&& goal@ == fresh_goal(thread_id, goal_id@, objective@, status, token_budget, now_ms)
                    &&& final(self)@ == old(self)@.with_goal(goal@)
                },
                Err(error) => {
                    &&& old(self)@.closed
                    &&& error@ == unavailable(GoalStoreOperation::ReplaceThreadGoal)
                    &&& final(self)@ == old(self)@
                },
            },
    {
        if self.closed {
            return Err(GoalStoreError::from_source(GoalStoreOperation::ReplaceThreadGoal, GoalStoreFailure::Unavailable));
        }
        Ok(self.store_fresh_goal(thread_id, goal_id, objective, status, token_budget, now_ms))
    }

    fn store_fresh_goal(
        &mut self,
        thread_id: ThreadId,
        goal_id: String,
        objective: &str,
        status: ThreadGoalStatus,
        token_budget: Option<i64>,
        now_ms: i64,
    ) -> (goal: ThreadGoal)
        ensures
            goal@ == fresh_goal(thread_id, goal_id@, objective@, status, token_budget, now_ms),
            final(self)@ == old(self)@.with_goal(goal@),
    {
        let goal = ThreadGoal {
            thread_id,
            goal_id,
            objective: objective.to_owned(),
            status: status_after_budget_limit(status, 0, token_budget),
            token_budget,
            tokens_used: 0,
            time_used_seconds: 0,
            created_at: now_ms,
            updated_at: now_ms,
        };
        self.goals.put(goal.clone());
        goal
    }

    /// Give the thread a new goal unless it has one that is not complete.
    pub fn insert_thread_goal(
        &mut self,
        thread_id: ThreadId,
        objective: &str,
        status: ThreadGoalStatus,
        token_budget: Option<i64>,
    ) -> (result: GoalStoreResult<Option<ThreadGoal>>)
        ensures
            match result {
                Ok(Some(goal)) => {
                    &&& !old(self)@.closed
                    &&& insertable(old(self)@, thread_id)
                    &&& goal@ == fresh_goal(thread_id, goal@.goal_id, objective@, status, token_budget, goal@.created_at)
                    &&& final(self)@ == old(self)@.with_goal(goal@)
                },
                Ok(None) => !old(self)@.closed && !insertable(old(self)@, thread_id) && final(self)@ == old(self)@,
                Err(error) => {
                    &&& old(self)@.closed
                    &&& error@ == unavailable(GoalStoreOperation::InsertThreadGoal)
                    &&& final(self)@ == old(self)@
                },
            },
    {
        let goal_id = new_identifier();
        let now_ms = now_millis();
        self.insert_thread_goal_at(thread_id, goal_id, objective, status, token_budget, now_ms)
    }

    /// Give the thread a new goal named `goal_id`, made at `now_ms`, unless it has one that is not
    /// complete.
    pub fn insert_thread_goal_at(
        &mut self,
        thread_id: ThreadId,
        goal_id: String,
        objective: &str,
        status: ThreadGoalStatus,
        token_budget: Option<i64>,
        now_ms: i64,
    ) -> (result: GoalStoreResult<Option<ThreadGoal>>)
        ensures
            match result {
                Ok(Some(goal)) => {
                    &&& !old(self)@.closed
                    &&& insertable(old(self)@, thread_id)
                    &&& goal@ == fresh_goal(thread_id, goal_id@, objective@, status, token_budget, now_ms)
                    &&& final(self)@ == old(self)@.with_goal(goal@)
                },
                Ok(None) => !old(self)@.closed && !insertable(old(self)@, thread_id) && final(self)@ == old(self)@,
                Err(error) => {
                    &&& old(self)@.closed
                    &&& error@ == unavailable(GoalStoreOperation::InsertThreadGoal)
                    &&& final(self)@ == old(self)@
                },
            },
    {
        if self.closed {
            return Err(GoalStoreError::from_source(GoalStoreOperation::InsertThreadGoal, GoalStoreFailure::Unavailable));
        }
        let free = match self.goals.get(&thread_id) {
            Some(goal) => goal.status == ThreadGoalStatus::Complete,
            None => true,
        };
        if !free {
            return Ok(None);
        }
        Ok(Some(self.store_fresh_goal(thread_id, goal_id, objective, status, token_budget, now_ms)))
    }

    /// Take the goal of the thread away, and return it.
    pub fn delete_thread_goal(&mut self, thread_id: ThreadId) -> (result: GoalStoreResult<Option<ThreadGoal>>)
        ensures
            match result {
                Ok(goal) => {
                    &&& !old(self)@.closed
                    &&& opt_view(goal) == old(self)@.goal(thread_id)
                    &&& final(self)@ == (GoalStoreView { goals: old(self)@.goals.remove(thread_id), ..old(self)@ })
                },
                Err(error) => {
                    &&& old(self)@.closed
                    &&& error@ == unavailable(GoalStoreOperation::DeleteThreadGoal)
                    &&& final(self)@ == old(self)@
                },
            },
    {
        if self.closed {
            return Err(GoalStoreError::from_source(GoalStoreOperation::DeleteThreadGoal, GoalStoreFailure::Unavailable));
        }
        Ok(self.goals.remove(&thread_id))
    }
}

} // verus!
