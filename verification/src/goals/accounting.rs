//! Usage accounting: each event is charged to a goal at most once.

use super::reaches_budget;
use super::GoalStore;
use super::GoalStoreErrorKind;
use super::GoalStoreFailure;
use super::GoalStoreOperation;
use super::GoalStoreResult;
use super::GoalStoreView;
use super::ThreadGoal;
use super::ThreadGoalStatus;
use super::ThreadGoalView;
use super::public_goal_store_result;
use crate::outside::now_millis;
use crate::table::Row;
use crate::text::is_blank;
use crate::text::is_blank_text;
use crate::text::same_text;
use crate::thread_id::opt_view;
use crate::thread_id::ThreadId;
use vstd::prelude::*;
use vstd::string::*;

verus! {

/// What accounting did to the goal.
#[derive(Debug, PartialEq, Eq)]
pub enum GoalAccountingOutcome {
    AlreadyAccounted(ThreadGoal),
    Unchanged(Option<ThreadGoal>),
    Updated(ThreadGoal),
}

impl Clone for GoalAccountingOutcome {
    fn clone(&self) -> (copy: Self)
        ensures
            copy@ == self@,
    {
        match self {
            GoalAccountingOutcome::AlreadyAccounted(goal) => GoalAccountingOutcome::AlreadyAccounted(goal.clone()),
            GoalAccountingOutcome::Unchanged(Some(goal)) => GoalAccountingOutcome::Unchanged(Some(goal.clone())),
            GoalAccountingOutcome::Unchanged(None) => GoalAccountingOutcome::Unchanged(None),
            GoalAccountingOutcome::Updated(goal) => GoalAccountingOutcome::Updated(goal.clone()),
        }
    }
}

pub enum GoalAccountingOutcomeView {
    AlreadyAccounted(ThreadGoalView),
    Unchanged(Option<ThreadGoalView>),
    Updated(ThreadGoalView),
}

impl View for GoalAccountingOutcome {
    type V = GoalAccountingOutcomeView;

    open spec fn view(&self) -> GoalAccountingOutcomeView {
        match self {
            GoalAccountingOutcome::AlreadyAccounted(goal) => GoalAccountingOutcomeView::AlreadyAccounted(goal@),
            GoalAccountingOutcome::Unchanged(goal) => GoalAccountingOutcomeView::Unchanged(opt_view(*goal)),
            GoalAccountingOutcome::Updated(goal) => GoalAccountingOutcomeView::Updated(goal@),
        }
    }
}

/// Which statuses an event may be charged to.
#[derive(Clone, Copy, Debug, PartialEq, Eq, Structural)]
pub enum GoalAccountingMode {
    ActiveStatusOnly,
    ActiveOnly,
    ActiveOrComplete,
    ActiveOrStopped,
}

/// The stored name of a mode.
pub open spec fn mode_text(mode: GoalAccountingMode) -> Seq<char> {
    match mode {
        GoalAccountingMode::ActiveStatusOnly => "active_status_only"@,
        GoalAccountingMode::ActiveOnly => "active_only"@,
        GoalAccountingMode::ActiveOrComplete => "active_or_complete"@,
        GoalAccountingMode::ActiveOrStopped => "active_or_stopped"@,
    }
}

/// The statuses that a mode charges.
pub open spec fn mode_accepts(mode: GoalAccountingMode, status: ThreadGoalStatus) -> bool {
    ||| status == ThreadGoalStatus::Active
    ||| mode == GoalAccountingMode::ActiveOnly && status == ThreadGoalStatus::BudgetLimited
    ||| mode == GoalAccountingMode::ActiveOrComplete && (status == ThreadGoalStatus::BudgetLimited || status == ThreadGoalStatus::Complete)
    ||| mode == GoalAccountingMode::ActiveOrStopped && status != ThreadGoalStatus::Complete
}

/// The statuses that a mode turns into `BudgetLimited` when usage reaches the budget.
pub open spec fn mode_limits(mode: GoalAccountingMode, status: ThreadGoalStatus) -> bool {
    &&& status != ThreadGoalStatus::Complete
    &&& mode == GoalAccountingMode::ActiveOrStopped || status == ThreadGoalStatus::Active
}

/// Two modes with the same stored name are the same mode.
pub(super) proof fn lemma_mode_text_injective(a: GoalAccountingMode, b: GoalAccountingMode)
    requires
        mode_text(a) == mode_text(b),
    ensures
        a == b,
{
    reveal_strlit("active_status_only");
    reveal_strlit("active_only");
    reveal_strlit("active_or_complete");
    reveal_strlit("active_or_stopped");
    assert("active_status_only"@.len() == 18 && "active_or_complete"@.len() == 18);
    assert("active_only"@.len() == 11 && "active_or_stopped"@.len() == 17);
    assert("active_status_only"@[7] == 's' && "active_or_complete"@[7] == 'o');
}

impl GoalAccountingMode {
    pub fn as_str(self) -> (text: &'static str)
        ensures
            text@ == mode_text(self),
    {
        match self {
            Self::ActiveStatusOnly => "active_status_only",
            Self::ActiveOnly => "active_only",
            Self::ActiveOrComplete => "active_or_complete",
            Self::ActiveOrStopped => "active_or_stopped",
        }
    }

    pub fn accepts(self, status: ThreadGoalStatus) -> (accepted: bool)
        ensures
            accepted == mode_accepts(self, status),
    {
        status == ThreadGoalStatus::Active
            || match self {
                Self::ActiveStatusOnly => false,
                Self::ActiveOnly => status == ThreadGoalStatus::BudgetLimited,
                Self::ActiveOrComplete => status == ThreadGoalStatus::BudgetLimited || status == ThreadGoalStatus::Complete,
                Self::ActiveOrStopped => status != ThreadGoalStatus::Complete,
            }
    }

    pub fn applies_budget_limit(self, status: ThreadGoalStatus) -> (applies: bool)
        ensures
            applies == mode_limits(self, status),
    {
        if status == ThreadGoalStatus::Complete {
            return false;
        }
        self == Self::ActiveOrStopped || status == ThreadGoalStatus::Active
    }
}

/// Selects which goal may receive one accounting event.
#[derive(Clone, Copy, Debug, PartialEq, Eq)]
pub enum GoalAccountingTarget<'a> {
    CurrentGoal,
    GoalId(&'a str),
}

pub enum GoalAccountingTargetView {
    CurrentGoal,
    GoalId(Seq<char>),
}

impl<'a> View for GoalAccountingTarget<'a> {
    type V = GoalAccountingTargetView;

    open spec fn view(&self) -> GoalAccountingTargetView {
        match self {
            GoalAccountingTarget::CurrentGoal => GoalAccountingTargetView::CurrentGoal,
            GoalAccountingTarget::GoalId(goal_id) => GoalAccountingTargetView::GoalId(goal_id@),
        }
    }
}

impl GoalAccountingTargetView {
    /// The target names the goal, or whatever goal is current.
    pub open spec fn selects(self, goal_id: Seq<char>) -> bool {
        match self {
            GoalAccountingTargetView::CurrentGoal => true,
            GoalAccountingTargetView::GoalId(expected) => expected == goal_id,
        }
    }
}

impl<'a> GoalAccountingTarget<'a> {
    pub fn matches(self, goal_id: &str) -> (matched: bool)
        ensures
            matched == self@.selects(goal_id@),
    {
        match self {
            Self::CurrentGoal => true,
            Self::GoalId(expected_goal_id) => same_text(expected_goal_id, goal_id),
        }
    }
}

/// Describes one retry-safe usage increment for a thread goal.
#[derive(Clone, Copy, Debug, PartialEq, Eq)]
pub struct GoalAccountingRequest<'a> {
    pub event_id: &'a str,
    pub time_delta_seconds: i64,
    pub token_delta: i64,
    pub mode: GoalAccountingMode,
    pub target: GoalAccountingTarget<'a>,
}

#[verifier::ext_equal]
pub struct GoalAccountingRequestView {
    pub event_id: Seq<char>,
    pub time_delta_seconds: i64,
    pub token_delta: i64,
    pub mode: GoalAccountingMode,
    pub target: GoalAccountingTargetView,
}

impl<'a> View for GoalAccountingRequest<'a> {
    type V = GoalAccountingRequestView;

    open spec fn view(&self) -> GoalAccountingRequestView {
        GoalAccountingRequestView {
            event_id: self.event_id@,
            time_delta_seconds: self.time_delta_seconds,
            token_delta: self.token_delta,
            mode: self.mode,
            target: self.target@,
        }
    }
}

/// Negative deltas count as none.
pub open spec fn counted(delta: i64) -> i64 {
    if delta < 0 {
        0
    } else {
        delta
    }
}

fn counted_delta(delta: i64) -> (r: i64)
    ensures
        r == counted(delta),
{
    if delta < 0 {
        0
    } else {
        delta
    }
}

/// An event that was charged to a goal.
#[derive(Debug, PartialEq, Eq)]
pub struct GoalAccountingEvent {
    pub thread_id: ThreadId,
    pub event_id: String,
    pub goal_id: String,
    pub time_delta_seconds: i64,
    pub token_delta: i64,
    pub mode: String,
}

#[verifier::ext_equal]
pub struct GoalAccountingEventView {
    pub thread_id: ThreadId,
    pub event_id: Seq<char>,
    pub goal_id: Seq<char>,
    pub time_delta_seconds: i64,
    pub token_delta: i64,
    pub mode: Seq<char>,
}

impl View for GoalAccountingEvent {
    type V = GoalAccountingEventView;

    open spec fn view(&self) -> GoalAccountingEventView {
        GoalAccountingEventView {
            thread_id: self.thread_id,
            event_id: self.event_id@,
            goal_id: self.goal_id@,
            time_delta_seconds: self.time_delta_seconds,
            token_delta: self.token_delta,
            mode: self.mode@,
        }
    }
}

impl Row for GoalAccountingEvent {
    type Key = (ThreadId, String);

    open spec fn key_of(row: GoalAccountingEventView) -> (ThreadId, Seq<char>) {
        (row.thread_id, row.event_id)
    }

    fn has_key(&self, key: &(ThreadId, String)) -> (found: bool) {
        assert(key@ == (key.0, key.1@));
        self.thread_id == key.0 && self.event_id == key.1
    }

    fn same_key(&self, other: &Self) -> (same: bool) {
        self.thread_id == other.thread_id && self.event_id == other.event_id
    }

    fn duplicate(&self) -> (copy: Self) {
        GoalAccountingEvent {
            thread_id: self.thread_id,
            event_id: self.event_id.clone(),
            goal_id: self.goal_id.clone(),
            time_delta_seconds: self.time_delta_seconds,
            token_delta: self.token_delta,
            mode: self.mode.clone(),
        }
    }
}

/// The recorded event is the one that the request describes, charged to the current goal.
pub open spec fn event_matches(
    event: GoalAccountingEventView,
    request: GoalAccountingRequestView,
    current_goal_id: Seq<char>,
) -> bool {
    &&& event.goal_id == current_goal_id
    &&& request.target.selects(event.goal_id)
    &&& event.time_delta_seconds == counted(request.time_delta_seconds)
    &&& event.token_delta == counted(request.token_delta)
    &&& event.mode == mode_text(request.mode)
}

impl GoalAccountingEvent {
    pub fn matches(&self, request: GoalAccountingRequest<'_>, current_goal_id: &str) -> (matched: bool)
        ensures
            matched == event_matches(self@, request@, current_goal_id@),
    {
        same_text(self.goal_id.as_str(), current_goal_id) && request.target.matches(self.goal_id.as_str())
            && self.time_delta_seconds == counted_delta(request.time_delta_seconds)
            && self.token_delta == counted_delta(request.token_delta)
            && same_text(self.mode.as_str(), request.mode.as_str())
    }
}

/// The status of a goal once `token_delta` is charged to it.
pub open spec fn accounted_status(
    goal: ThreadGoalView,
    token_delta: int,
    mode: GoalAccountingMode,
) -> ThreadGoalStatus {
    if mode_limits(mode, goal.status) && reaches_budget(goal.tokens_used + token_delta, goal.token_budget) {
        ThreadGoalStatus::BudgetLimited
    } else {
        goal.status
    }
}

pub fn status_after_accounting(
    goal: &ThreadGoal,
    token_delta: i64,
    mode: GoalAccountingMode,
) -> (status: ThreadGoalStatus)
    requires
        goal@.token_budget is Some && mode_limits(mode, goal@.status) ==> i64::MIN <= goal@.tokens_used + token_delta <= i64::MAX,
    ensures
        status == accounted_status(goal@, token_delta as int, mode),
{
    match goal.token_budget {
        Some(budget) if mode.applies_budget_limit(goal.status) && goal.tokens_used + token_delta >= budget => {
            ThreadGoalStatus::BudgetLimited
        },
        _ => goal.status,
    }
}

/// The event that a request records.
pub open spec fn recorded_event(
    thread_id: ThreadId,
    goal_id: Seq<char>,
    request: GoalAccountingRequestView,
) -> GoalAccountingEventView {
    GoalAccountingEventView {
        thread_id,
        event_id: request.event_id,
        goal_id,
        time_delta_seconds: counted(request.time_delta_seconds),
        token_delta: counted(request.token_delta),
        mode: mode_text(request.mode),
    }
}

/// The goal with the request charged to it.
pub open spec fn charged_goal(
    goal: ThreadGoalView,
    request: GoalAccountingRequestView,
    now_ms: i64,
) -> ThreadGoalView {
    ThreadGoalView {
        status: accounted_status(goal, counted(request.token_delta) as int, request.mode),
        tokens_used: (goal.tokens_used + counted(request.token_delta)) as i64,
        time_used_seconds: (goal.time_used_seconds + counted(request.time_delta_seconds)) as i64,
        updated_at: now_ms,
        ..goal
    }
}

/// The counters can hold the usage with the request charged to it.
pub open spec fn usage_fits(goal: ThreadGoalView, request: GoalAccountingRequestView) -> bool {
    &&& goal.tokens_used + counted(request.token_delta) <= i64::MAX
    &&& goal.time_used_seconds + counted(request.time_delta_seconds) <= i64::MAX
}

/// What accounting a request returns, and the state it leaves.
pub open spec fn accounting(
    state: GoalStoreView,
    thread_id: ThreadId,
    request: GoalAccountingRequestView,
    now_ms: i64,
) -> (GoalStoreView, Result<GoalAccountingOutcomeView, GoalStoreErrorKind>) {
    if is_blank(request.event_id) {
        (state, Err(GoalStoreErrorKind::InvalidRequest))
    } else if state.closed {
        (state, Err(GoalStoreErrorKind::Persistence))
    } else if counted(request.time_delta_seconds) == 0 && counted(request.token_delta) == 0 {
        (state, Ok(GoalAccountingOutcomeView::Unchanged(state.goal(thread_id))))
    } else {
        match state.goal(thread_id) {
            None => (state, Ok(GoalAccountingOutcomeView::Unchanged(None))),
            Some(goal) => {
                let key = (thread_id, request.event_id);
                if state.events.contains_key(key) {
                    if event_matches(state.events[key], request, goal.goal_id) {
                        (state, Ok(GoalAccountingOutcomeView::AlreadyAccounted(goal)))
                    } else {
                        (state, Err(GoalStoreErrorKind::Conflict))
                    }
                } else if !request.target.selects(goal.goal_id) || !mode_accepts(request.mode, goal.status) {
                    (state, Ok(GoalAccountingOutcomeView::Unchanged(Some(goal))))
                } else if !usage_fits(goal, request) {
                    (state, Err(GoalStoreErrorKind::Persistence))
                } else {
                    (
                        GoalStoreView {
                            goals: state.goals.insert(thread_id, charged_goal(goal, request, now_ms)),
                            events: state.events.insert(key, recorded_event(thread_id, goal.goal_id, request)),
                            ..state
                        },
                        Ok(GoalAccountingOutcomeView::Updated(charged_goal(goal, request, now_ms))),
                    )
                }
            },
        }
    }
}

/// The public result of accounting, by kind of error.
pub open spec fn outcome_of(
    result: GoalStoreResult<GoalAccountingOutcome>,
) -> Result<GoalAccountingOutcomeView, GoalStoreErrorKind> {
    match result {
        Ok(outcome) => Ok(outcome@),
        Err(error) => Err(error@.0),
    }
}

/// Failures by public kind.
pub open spec fn failure_outcome(
    result: Result<GoalAccountingOutcome, GoalStoreFailure>,
) -> Result<GoalAccountingOutcomeView, GoalStoreErrorKind> {
    match result {
        Ok(outcome) => Ok(outcome@),
        Err(failure) => Err(super::error::failure_kind(failure)),
    }
}

impl GoalStore {
    /// Charge one event to the goal of a thread, once however often it is sent.
    pub fn account_thread_goal_usage(
        &mut self,
        thread_id: ThreadId,
        request: GoalAccountingRequest<'_>,
    ) -> (result: GoalStoreResult<GoalAccountingOutcome>)
        ensures
            exists|now_ms: i64| (final(self)@, outcome_of(result)) == #[trigger] accounting(old(self)@, thread_id, request@, now_ms),
            result matches Err(error) ==> error@.1 == GoalStoreOperation::AccountThreadGoalUsage,
    {
        let now_ms = now_millis();
        self.account_thread_goal_usage_at(thread_id, request, now_ms)
    }

    /// Charge one event to the goal of a thread at `now_ms`.
    pub fn account_thread_goal_usage_at(
        &mut self,
        thread_id: ThreadId,
        request: GoalAccountingRequest<'_>,
        now_ms: i64,
    ) -> (result: GoalStoreResult<GoalAccountingOutcome>)
        ensures
            (final(self)@, outcome_of(result)) == accounting(old(self)@, thread_id, request@, now_ms),
            result matches Err(error) ==> error@.1 == GoalStoreOperation::AccountThreadGoalUsage,
    {
        public_goal_store_result(
            GoalStoreOperation::AccountThreadGoalUsage,
            self.account_usage(thread_id, request, now_ms),
        )
    }

    fn account_usage(
        &mut self,
        thread_id: ThreadId,
        request: GoalAccountingRequest<'_>,
        now_ms: i64,
    ) -> (result: Result<GoalAccountingOutcome, GoalStoreFailure>)
        ensures
            (final(self)@, failure_outcome(result)) == accounting(old(self)@, thread_id, request@, now_ms),
    {
        if is_blank_text(request.event_id) {
            return Err(GoalStoreFailure::AccountingEventIdRequired);
        }
        let time_delta_seconds: i64 = counted_delta(request.time_delta_seconds);
        let token_delta: i64 = counted_delta(request.token_delta);
        let current = match self.read_goal(thread_id) {
            Ok(goal) => goal,
            Err(failure) => {
                return Err(failure);
            },
        };
        if time_delta_seconds == 0 && token_delta == 0 {
            return Ok(GoalAccountingOutcome::Unchanged(current));
        }
        let current = match current {
            Some(goal) => goal,
            None => {
                return Ok(GoalAccountingOutcome::Unchanged(None));
            },
        };
        let key = (thread_id, request.event_id.to_owned());
        if let Some(recorded) = self.events.get(&key) {
            if !recorded.matches(request, current.goal_id.as_str()) {
                return Err(GoalStoreFailure::AccountingEventConflict);
            }
            return Ok(GoalAccountingOutcome::AlreadyAccounted(current));
        }
        if !request.target.matches(current.goal_id.as_str()) || !request.mode.accepts(current.status) {
            return Ok(GoalAccountingOutcome::Unchanged(Some(current)));
        }
        let tokens_used = current.tokens_used.checked_add(token_delta);
        let time_used_seconds = current.time_used_seconds.checked_add(time_delta_seconds);
        match (tokens_used, time_used_seconds) {
            (Some(tokens_used), Some(time_used_seconds)) => {
                let status = status_after_accounting(&current, token_delta, request.mode);
                self.events.put(GoalAccountingEvent {
                    thread_id,
                    event_id: request.event_id.to_owned(),
                    goal_id: current.goal_id.clone(),
                    time_delta_seconds,
                    token_delta,
                    mode: request.mode.as_str().to_owned(),
                });
                let ghost goal = current@;
                let updated = ThreadGoal {
                    status,
                    tokens_used,
                    time_used_seconds,
                    updated_at: now_ms,
                    ..current
                };
                assert(updated@ == charged_goal(goal, request@, now_ms));
                self.goals.put(updated.clone());
                assert(self@.events == old(self)@.events.insert((thread_id, request@.event_id), recorded_event(thread_id, goal.goal_id, request@)));
                Ok(GoalAccountingOutcome::Updated(updated))
            },
            _ => Err(GoalStoreFailure::Unavailable),
        }
    }
}

} // verus!
