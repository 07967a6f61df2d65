use codex_state::goals::accounting::status_after_accounting;
use codex_state::goals::status_after_budget_limit;
use codex_state::GoalAccountingMode;
use codex_state::GoalAccountingOutcome;
use codex_state::GoalAccountingRequest;
use codex_state::GoalAccountingTarget;
use codex_state::GoalStore;
use codex_state::GoalStoreErrorKind;
use codex_state::GoalStoreOperation;
use codex_state::GoalUpdate;
use codex_state::ThreadGoal;
use codex_state::ThreadGoalStatus;
use codex_state::ThreadId;

const THREAD: ThreadId = ThreadId { value: 1 };
const OTHER: ThreadId = ThreadId { value: 2 };

fn store_with_goal(status: ThreadGoalStatus, budget: Option<i64>) -> GoalStore {
    let mut store = GoalStore::new();
    store
        .replace_thread_goal_at(THREAD, "goal-1".to_string(), "objective", status, budget, 1_000)
        .expect("open store");
    store
}

fn request(event_id: &str, seconds: i64, tokens: i64, mode: GoalAccountingMode) -> GoalAccountingRequest<'_> {
    GoalAccountingRequest {
        event_id,
        time_delta_seconds: seconds,
        token_delta: tokens,
        mode,
        target: GoalAccountingTarget::CurrentGoal,
    }
}

fn goal(store: &GoalStore) -> ThreadGoal {
    store.get_thread_goal(THREAD).expect("open store").expect("goal")
}

fn update(status: Option<ThreadGoalStatus>, token_budget: Option<Option<i64>>) -> GoalUpdate {
    GoalUpdate { objective: None, status, token_budget, expected_goal_id: None }
}

#[test]
fn replaced_goal_has_exactly_these_values() {
    let store = store_with_goal(ThreadGoalStatus::Active, Some(10));
    assert_eq!(
        goal(&store),
        ThreadGoal {
            thread_id: THREAD,
            goal_id: "goal-1".to_string(),
            objective: "objective".to_string(),
            status: ThreadGoalStatus::Active,
            token_budget: Some(10),
            tokens_used: 0,
            time_used_seconds: 0,
            created_at: 1_000,
            updated_at: 1_000,
        }
    );
}

#[test]
fn retry_is_charged_once() {
    let mut store = store_with_goal(ThreadGoalStatus::Active, Some(100));
    let event = request("event", 3, 30, GoalAccountingMode::ActiveOnly);
    let first = store.account_thread_goal_usage_at(THREAD, event, 2_000).expect("charged");
    let charged = goal(&store);
    assert_eq!(first, GoalAccountingOutcome::Updated(charged.clone()));
    assert_eq!((charged.tokens_used, charged.time_used_seconds, charged.updated_at), (30, 3, 2_000));

    let second = store.account_thread_goal_usage_at(THREAD, event, 3_000).expect("known");
    assert_eq!(second, GoalAccountingOutcome::AlreadyAccounted(charged.clone()));
    assert_eq!(goal(&store), charged);
}

#[test]
fn reused_event_conflicts() {
    let mut store = store_with_goal(ThreadGoalStatus::Active, Some(100));
    let event = request("event", 3, 30, GoalAccountingMode::ActiveOnly);
    store.account_thread_goal_usage_at(THREAD, event, 2_000).expect("charged");
    let before = goal(&store);
    for reuse in [
        GoalAccountingRequest { token_delta: 31, ..event },
        GoalAccountingRequest { time_delta_seconds: 4, ..event },
        GoalAccountingRequest { mode: GoalAccountingMode::ActiveOrStopped, ..event },
        GoalAccountingRequest { target: GoalAccountingTarget::GoalId("another"), ..event },
    ] {
        let error = store.account_thread_goal_usage_at(THREAD, reuse, 3_000).expect_err("conflict");
        assert_eq!(error.kind(), GoalStoreErrorKind::Conflict);
        assert_eq!(error.operation(), GoalStoreOperation::AccountThreadGoalUsage);
        assert_eq!(goal(&store), before);
    }
}

#[test]
fn usage_adds_up_and_negative_usage_counts_as_none() {
    let mut store = store_with_goal(ThreadGoalStatus::Active, None);
    store
        .account_thread_goal_usage_at(THREAD, request("a", 5, -7, GoalAccountingMode::ActiveOnly), 2_000)
        .expect("charged");
    store
        .account_thread_goal_usage_at(THREAD, request("b", -5, 9, GoalAccountingMode::ActiveOnly), 3_000)
        .expect("charged");
    assert_eq!((goal(&store).time_used_seconds, goal(&store).tokens_used), (5, 9));

    let nothing = store
        .account_thread_goal_usage_at(THREAD, request("c", -5, 0, GoalAccountingMode::ActiveOnly), 4_000)
        .expect("nothing to charge");
    assert_eq!(nothing, GoalAccountingOutcome::Unchanged(Some(goal(&store))));
}

#[test]
fn distinct_events_commute() {
    let a = request("a", 4, 40, GoalAccountingMode::ActiveOnly);
    let b = request("b", 6, 60, GoalAccountingMode::ActiveOrStopped);
    let mut forth = store_with_goal(ThreadGoalStatus::Active, Some(90));
    forth.account_thread_goal_usage_at(THREAD, a, 2_000).expect("charged");
    forth.account_thread_goal_usage_at(THREAD, b, 2_000).expect("charged");
    let mut back = store_with_goal(ThreadGoalStatus::Active, Some(90));
    back.account_thread_goal_usage_at(THREAD, b, 2_000).expect("charged");
    back.account_thread_goal_usage_at(THREAD, a, 2_000).expect("charged");
    assert_eq!(goal(&forth), goal(&back));
    assert_eq!(goal(&forth).status, ThreadGoalStatus::BudgetLimited);
}

#[test]
fn order_matters_where_only_active_goals_are_charged() {
    let a = request("a", 0, 90, GoalAccountingMode::ActiveStatusOnly);
    let b = request("b", 0, 90, GoalAccountingMode::ActiveStatusOnly);
    let mut store = store_with_goal(ThreadGoalStatus::Active, Some(90));
    store.account_thread_goal_usage_at(THREAD, a, 2_000).expect("charged");
    let outcome = store.account_thread_goal_usage_at(THREAD, b, 3_000).expect("not charged");
    assert!(matches!(outcome, GoalAccountingOutcome::Unchanged(Some(_))));
    assert_eq!(goal(&store).tokens_used, 90);
}

#[test]
fn active_goals_stay_within_budget() {
    let mut store = store_with_goal(ThreadGoalStatus::Active, Some(10));
    store
        .account_thread_goal_usage_at(THREAD, request("a", 0, 9, GoalAccountingMode::ActiveOnly), 2_000)
        .expect("charged");
    assert_eq!(goal(&store).status, ThreadGoalStatus::Active);
    store
        .account_thread_goal_usage_at(THREAD, request("b", 0, 1, GoalAccountingMode::ActiveOnly), 3_000)
        .expect("charged");
    assert_eq!(goal(&store).status, ThreadGoalStatus::BudgetLimited);
    let reactivated = store
        .update_thread_goal_at(THREAD, update(Some(ThreadGoalStatus::Active), None), 4_000)
        .expect("open store")
        .expect("goal");
    assert_eq!(reactivated.status, ThreadGoalStatus::BudgetLimited);
    let raised = store
        .update_thread_goal_at(THREAD, update(Some(ThreadGoalStatus::Active), Some(Some(11))), 5_000)
        .expect("open store")
        .expect("goal");
    assert_eq!(raised.status, ThreadGoalStatus::Active);
}

#[test]
fn other_threads_are_untouched() {
    let mut store = store_with_goal(ThreadGoalStatus::Active, Some(10));
    store
        .replace_thread_goal_at(OTHER, "goal-2".to_string(), "other", ThreadGoalStatus::Active, None, 1_500)
        .expect("open store");
    let other = store.get_thread_goal(OTHER).expect("open store");
    store
        .account_thread_goal_usage_at(THREAD, request("a", 1, 1, GoalAccountingMode::ActiveOnly), 2_000)
        .expect("charged");
    store.delete_thread_goal(THREAD).expect("open store");
    assert_eq!(store.get_thread_goal(OTHER).expect("open store"), other);
}

#[test]
fn stale_updates_and_usage_are_ignored() {
    let mut store = store_with_goal(ThreadGoalStatus::Active, Some(10));
    let before = goal(&store);
    let stale = GoalUpdate {
        objective: Some("stale".to_string()),
        status: None,
        token_budget: None,
        expected_goal_id: Some("goal-0".to_string()),
    };
    assert_eq!(store.update_thread_goal_at(THREAD, stale, 2_000).expect("open store"), None);
    let usage = GoalAccountingRequest {
        target: GoalAccountingTarget::GoalId("goal-0"),
        ..request("a", 1, 1, GoalAccountingMode::ActiveOnly)
    };
    assert_eq!(
        store.account_thread_goal_usage_at(THREAD, usage, 3_000).expect("open store"),
        GoalAccountingOutcome::Unchanged(Some(before.clone()))
    );
    assert_eq!(goal(&store), before);
    assert_eq!(
        store.update_thread_goal_at(OTHER, update(Some(ThreadGoalStatus::Paused), None), 4_000).expect("open store"),
        None
    );
}

#[test]
fn update_changes_only_what_it_names() {
    let mut store = store_with_goal(ThreadGoalStatus::Active, Some(10));
    let before = goal(&store);
    let updated = store
        .update_thread_goal_at(THREAD, update(None, Some(None)), 2_000)
        .expect("open store")
        .expect("goal");
    assert_eq!(updated, ThreadGoal { token_budget: None, updated_at: 2_000, ..before });
    let read = store
        .update_thread_goal_at(THREAD, update(None, None), 3_000)
        .expect("open store")
        .expect("goal");
    assert_eq!(read, updated);
}

#[test]
fn budget_limit_outlasts_pausing() {
    let mut store = store_with_goal(ThreadGoalStatus::Active, Some(0));
    for status in [ThreadGoalStatus::Paused, ThreadGoalStatus::Blocked] {
        let updated = store
            .update_thread_goal_at(THREAD, update(Some(status), None), 2_000)
            .expect("open store")
            .expect("goal");
        assert_eq!(updated.status, ThreadGoalStatus::BudgetLimited);
    }
}

#[test]
fn stored_goal_is_read_back_until_it_is_deleted() {
    let mut store = store_with_goal(ThreadGoalStatus::Paused, None);
    assert_eq!(
        store
            .insert_thread_goal_at(THREAD, "goal-2".to_string(), "second", ThreadGoalStatus::Active, None, 2_000)
            .expect("open store"),
        None
    );
    let stored = goal(&store);
    assert_eq!(store.delete_thread_goal(THREAD).expect("open store"), Some(stored));
    assert_eq!(store.get_thread_goal(THREAD).expect("open store"), None);
    assert!(store
        .insert_thread_goal_at(THREAD, "goal-2".to_string(), "second", ThreadGoalStatus::Active, None, 2_000)
        .expect("open store")
        .is_some());
}

#[test]
fn stopped_goals_are_not_stopped_again() {
    for status in [
        ThreadGoalStatus::Paused,
        ThreadGoalStatus::Blocked,
        ThreadGoalStatus::UsageLimited,
        ThreadGoalStatus::Complete,
    ] {
        let mut store = store_with_goal(status, None);
        assert_eq!(
            store.update_active_thread_goal_status(THREAD, ThreadGoalStatus::UsageLimited, 2_000).expect("open store"),
            None
        );
        assert_eq!(goal(&store).status, status);
    }
    let mut limited = store_with_goal(ThreadGoalStatus::BudgetLimited, None);
    assert_eq!(
        limited.update_active_thread_goal_status(THREAD, ThreadGoalStatus::Paused, 2_000).expect("open store"),
        None
    );
}

#[test]
fn blank_event_identifiers_are_refused_even_by_a_closed_store() {
    let mut store = store_with_goal(ThreadGoalStatus::Active, None);
    store.close();
    let error = store
        .account_thread_goal_usage_at(THREAD, request(" \t\u{3000}", 1, 1, GoalAccountingMode::ActiveOnly), 2_000)
        .expect_err("blank");
    assert_eq!(error.kind(), GoalStoreErrorKind::InvalidRequest);
    assert_eq!(
        error.message(),
        "Runtime State could not complete the `account thread goal usage` operation because the request is invalid"
    );
    let error = store
        .account_thread_goal_usage_at(THREAD, request("event", 1, 1, GoalAccountingMode::ActiveOnly), 2_000)
        .expect_err("closed");
    assert_eq!(error.kind(), GoalStoreErrorKind::Persistence);
    assert_eq!(
        error.message(),
        "Runtime State could not complete the `account thread goal usage` operation; verify goal persistence health, then retry"
    );
}

#[test]
fn usage_that_no_counter_can_hold_is_not_charged() {
    let mut store = store_with_goal(ThreadGoalStatus::Active, None);
    store
        .account_thread_goal_usage_at(THREAD, request("a", 0, i64::MAX, GoalAccountingMode::ActiveOnly), 2_000)
        .expect("charged");
    let error = store
        .account_thread_goal_usage_at(THREAD, request("b", 0, 1, GoalAccountingMode::ActiveOnly), 3_000)
        .expect_err("overflow");
    assert_eq!(error.kind(), GoalStoreErrorKind::Persistence);
    assert_eq!(goal(&store).tokens_used, i64::MAX);
}

#[test]
fn statuses_after_limits() {
    use_status(ThreadGoalStatus::Active, 10, Some(10), ThreadGoalStatus::BudgetLimited);
    use_status(ThreadGoalStatus::Active, 9, Some(10), ThreadGoalStatus::Active);
    use_status(ThreadGoalStatus::Active, 9, None, ThreadGoalStatus::Active);
    use_status(ThreadGoalStatus::Paused, 10, Some(10), ThreadGoalStatus::Paused);

    let paused = goal(&store_with_goal(ThreadGoalStatus::Paused, Some(10)));
    assert_eq!(
        status_after_accounting(&paused, 10, GoalAccountingMode::ActiveOrStopped),
        ThreadGoalStatus::BudgetLimited
    );
    assert_eq!(
        status_after_accounting(&paused, 10, GoalAccountingMode::ActiveOrComplete),
        ThreadGoalStatus::Paused
    );
    let complete = goal(&store_with_goal(ThreadGoalStatus::Complete, Some(10)));
    assert_eq!(
        status_after_accounting(&complete, 10, GoalAccountingMode::ActiveOrStopped),
        ThreadGoalStatus::Complete
    );
}

fn use_status(status: ThreadGoalStatus, tokens_used: i64, budget: Option<i64>, expected: ThreadGoalStatus) {
    assert_eq!(status_after_budget_limit(status, tokens_used, budget), expected);
}

#[test]
fn statuses_have_stored_names() {
    for status in [
        ThreadGoalStatus::Active,
        ThreadGoalStatus::Paused,
        ThreadGoalStatus::Blocked,
        ThreadGoalStatus::UsageLimited,
        ThreadGoalStatus::BudgetLimited,
        ThreadGoalStatus::Complete,
    ] {
        assert_eq!(ThreadGoalStatus::from_stored(status.as_str()), Some(status));
    }
    assert_eq!(ThreadGoalStatus::from_stored("done"), None);
    assert_eq!(ThreadGoalStatus::UsageLimited.as_str(), "usage_limited");
}
