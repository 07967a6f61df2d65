use codex_state::GoalAccountingMode;
use codex_state::GoalAccountingOutcome;
use codex_state::GoalAccountingRequest;
use codex_state::GoalAccountingTarget;
use codex_state::GoalStore;
use codex_state::GoalStoreError;
use codex_state::GoalStoreErrorKind;
use codex_state::GoalStoreOperation;
use codex_state::GoalStoreResult;
use codex_state::GoalUpdate;
use codex_state::RuntimeStateBackend;
use codex_state::StateRuntime;
use codex_state::ThreadGoal;
use codex_state::ThreadGoalStatus;
use codex_state::ThreadId;

fn provoke_goal_accounting_conflict(
    store: &mut GoalStore,
    thread_id: ThreadId,
) -> GoalStoreResult<GoalStoreError> {
    let goal = store
        .replace_thread_goal(
            thread_id,
            "compare public goal errors",
            ThreadGoalStatus::Active,
            Some(1_000),
        )?;
    let invalid_request = store
        .account_thread_goal_usage(
            thread_id,
            GoalAccountingRequest {
                event_id: " ",
                time_delta_seconds: 1,
                token_delta: 10,
                mode: GoalAccountingMode::ActiveOnly,
                target: GoalAccountingTarget::GoalId(goal.goal_id.as_str()),
            },
        )
        .expect_err("a blank accounting event id should be rejected");
    assert_eq!(invalid_request.kind(), GoalStoreErrorKind::InvalidRequest);
    assert_eq!(
        invalid_request.operation(),
        GoalStoreOperation::AccountThreadGoalUsage
    );
    let request = GoalAccountingRequest {
        event_id: "public-error-contract",
        time_delta_seconds: 3,
        token_delta: 30,
        mode: GoalAccountingMode::ActiveOnly,
        target: GoalAccountingTarget::GoalId(goal.goal_id.as_str()),
    };
    store.account_thread_goal_usage(thread_id, request)?;

    Ok(store
        .account_thread_goal_usage(
            thread_id,
            GoalAccountingRequest {
                token_delta: 31,
                ..request
            },
        )
        .expect_err("reusing an accounting event with different usage should conflict"))
}

fn collect_closed_goal_store_errors(
    store: &mut GoalStore,
    goal: &ThreadGoal,
) -> Vec<GoalStoreError> {
    let thread_id = goal.thread_id;
    store.close();

    vec![
        store
            .get_thread_goal(thread_id)
            .expect_err("get must fail after the goal store closes"),
        store
            .replace_thread_goal(
                thread_id,
                "replace after close",
                ThreadGoalStatus::Active,
                None,
            )
            .expect_err("replace must fail after the goal store closes"),
        store
            .insert_thread_goal(
                thread_id,
                "insert after close",
                ThreadGoalStatus::Active,
                None,
            )
            .expect_err("insert must fail after the goal store closes"),
        store
            .update_thread_goal(
                thread_id,
                GoalUpdate {
                    objective: Some("update after close".to_string()),
                    status: None,
                    token_budget: None,
                    expected_goal_id: Some(goal.goal_id.clone()),
                },
            )
            .expect_err("update must fail after the goal store closes"),
        store
            .pause_active_thread_goal(thread_id)
            .expect_err("pause must fail after the goal store closes"),
        store
            .usage_limit_active_thread_goal(thread_id)
            .expect_err("usage limit must fail after the goal store closes"),
        store
            .delete_thread_goal(thread_id)
            .expect_err("delete must fail after the goal store closes"),
        store
            .replace_thread_goal_snapshot(goal)
            .expect_err("snapshot replacement must fail after the goal store closes"),
        store
            .has_thread_goal_continuation_deferral(thread_id)
            .expect_err("deferral read must fail after the goal store closes"),
        store
            .clear_thread_goal_continuation_deferral(thread_id)
            .expect_err("deferral clear must fail after the goal store closes"),
        store
            .account_thread_goal_usage(
                thread_id,
                GoalAccountingRequest {
                    event_id: "account-after-close",
                    time_delta_seconds: 1,
                    token_delta: 10,
                    mode: GoalAccountingMode::ActiveOnly,
                    target: GoalAccountingTarget::GoalId(goal.goal_id.as_str()),
                },
            )
            .expect_err("accounting must fail after the goal store closes"),
    ]
}

struct AccountingModeContract {
    name: &'static str,
    mode: GoalAccountingMode,
    accepted_statuses: &'static [ThreadGoalStatus],
}

const GOAL_STATUSES: [ThreadGoalStatus; 6] = [
    ThreadGoalStatus::Active,
    ThreadGoalStatus::Paused,
    ThreadGoalStatus::Blocked,
    ThreadGoalStatus::UsageLimited,
    ThreadGoalStatus::BudgetLimited,
    ThreadGoalStatus::Complete,
];

const ACCOUNTING_MODE_CONTRACTS: [AccountingModeContract; 4] = [
    AccountingModeContract {
        name: "active-status-only",
        mode: GoalAccountingMode::ActiveStatusOnly,
        accepted_statuses: &[ThreadGoalStatus::Active],
    },
    AccountingModeContract {
        name: "active-only",
        mode: GoalAccountingMode::ActiveOnly,
        accepted_statuses: &[ThreadGoalStatus::Active, ThreadGoalStatus::BudgetLimited],
    },
    AccountingModeContract {
        name: "active-or-complete",
        mode: GoalAccountingMode::ActiveOrComplete,
        accepted_statuses: &[
            ThreadGoalStatus::Active,
            ThreadGoalStatus::BudgetLimited,
            ThreadGoalStatus::Complete,
        ],
    },
    AccountingModeContract {
        name: "active-or-stopped",
        mode: GoalAccountingMode::ActiveOrStopped,
        accepted_statuses: &[
            ThreadGoalStatus::Active,
            ThreadGoalStatus::Paused,
            ThreadGoalStatus::Blocked,
            ThreadGoalStatus::UsageLimited,
            ThreadGoalStatus::BudgetLimited,
        ],
    },
];

fn assert_accounting_status_matrix(
    store: &mut GoalStore,
    thread_id: ThreadId,
) -> GoalStoreResult<()> {
    for contract in ACCOUNTING_MODE_CONTRACTS {
        for status in GOAL_STATUSES {
            let objective = format!("{} {status:?}", contract.name);
            let goal = store
                .replace_thread_goal(
                    thread_id,
                    &objective,
                    status,
                    Some(10),
                )?;
            let outcome = store
                .account_thread_goal_usage(
                    thread_id,
                    GoalAccountingRequest {
                        event_id: &objective,
                        time_delta_seconds: 1,
                        token_delta: 11,
                        mode: contract.mode,
                        target: GoalAccountingTarget::GoalId(goal.goal_id.as_str()),
                    },
                )?;

            if contract.accepted_statuses.contains(&status) {
                let GoalAccountingOutcome::Updated(accounted) = outcome else {
                    panic!(
                        "{} should account a {status:?} goal, got {outcome:?}",
                        contract.name
                    );
                };
                let expected = ThreadGoal {
                    status: if status == ThreadGoalStatus::Complete {
                        ThreadGoalStatus::Complete
                    } else {
                        ThreadGoalStatus::BudgetLimited
                    },
                    tokens_used: 11,
                    time_used_seconds: 1,
                    updated_at: accounted.updated_at,
                    ..goal
                };
                assert_eq!(accounted, expected);
                assert_eq!(store.get_thread_goal(thread_id)?, Some(expected));
            } else {
                assert_eq!(
                    outcome,
                    GoalAccountingOutcome::Unchanged(Some(goal.clone()))
                );
                assert_eq!(store.get_thread_goal(thread_id)?, Some(goal));
            }
        }
    }
    Ok(())
}

fn run_goal_lifecycle_contract(
    store: &mut GoalStore,
    thread_id: ThreadId,
) -> GoalStoreResult<()> {
    let replacement = store
        .replace_thread_goal(
            thread_id,
            "verify replica visibility",
            ThreadGoalStatus::Paused,
            None,
        )?;
    assert_eq!(
        store.get_thread_goal(thread_id)?,
        Some(replacement.clone())
    );

    assert_eq!(
        store
            .insert_thread_goal(
                thread_id,
                "must not replace a stopped goal",
                ThreadGoalStatus::Active,
                Some(20_000),
            )?,
        None
    );
    let resumed = store
        .update_thread_goal(
            thread_id,
            GoalUpdate {
                objective: Some("resume through another replica".to_string()),
                status: Some(ThreadGoalStatus::Active),
                token_budget: Some(Some(20_000)),
                expected_goal_id: Some(replacement.goal_id.clone()),
            },
        )?
        .expect("current goal should update");
    assert_eq!(resumed.status, ThreadGoalStatus::Active);
    let blocked = store
        .update_thread_goal(
            thread_id,
            GoalUpdate {
                objective: None,
                status: Some(ThreadGoalStatus::Blocked),
                token_budget: None,
                expected_goal_id: Some(replacement.goal_id.clone()),
            },
        )?
        .expect("active goal should become blocked");
    assert_eq!(store.get_thread_goal(thread_id)?, Some(blocked));
    let reactivated = store
        .update_thread_goal(
            thread_id,
            GoalUpdate {
                objective: None,
                status: Some(ThreadGoalStatus::Active),
                token_budget: None,
                expected_goal_id: Some(replacement.goal_id.clone()),
            },
        )?
        .expect("blocked goal should resume");
    assert_eq!(store.get_thread_goal(thread_id)?, Some(reactivated));
    assert_eq!(
        store
            .pause_active_thread_goal(thread_id)?
            .unwrap()
            .status,
        ThreadGoalStatus::Paused
    );
    let completed = store
        .update_thread_goal(
            thread_id,
            GoalUpdate {
                objective: None,
                status: Some(ThreadGoalStatus::Complete),
                token_budget: None,
                expected_goal_id: Some(replacement.goal_id.clone()),
            },
        )?
        .expect("current goal should complete");
    assert_eq!(completed.status, ThreadGoalStatus::Complete);
    let inserted = store
        .insert_thread_goal(
            thread_id,
            "replace only the completed goal",
            ThreadGoalStatus::Active,
            Some(0),
        )?
        .expect("completed goal should be replaceable");
    assert_eq!(inserted.status, ThreadGoalStatus::BudgetLimited);
    assert_eq!(
        store
            .update_thread_goal(
                thread_id,
                GoalUpdate {
                    objective: Some("stale update must not apply".to_string()),
                    status: Some(ThreadGoalStatus::Complete),
                    token_budget: Some(None),
                    expected_goal_id: Some(replacement.goal_id),
                },
            )?,
        None
    );
    assert_eq!(
        store.get_thread_goal(thread_id)?,
        Some(inserted.clone())
    );
    let preserved = store
        .update_thread_goal(
            thread_id,
            GoalUpdate {
                objective: None,
                status: Some(ThreadGoalStatus::Paused),
                token_budget: None,
                expected_goal_id: Some(inserted.goal_id.clone()),
            },
        )?
        .expect("budget-limited goal should remain addressable");
    assert_eq!(preserved.status, ThreadGoalStatus::BudgetLimited);
    let preserved = store
        .update_thread_goal(
            thread_id,
            GoalUpdate {
                objective: None,
                status: Some(ThreadGoalStatus::Blocked),
                token_budget: None,
                expected_goal_id: Some(inserted.goal_id.clone()),
            },
        )?
        .expect("budget-limited goal should remain addressable");
    assert_eq!(preserved.status, ThreadGoalStatus::BudgetLimited);
    assert_eq!(store.get_thread_goal(thread_id)?, Some(preserved));
    let usage_limited = store
        .usage_limit_active_thread_goal(thread_id)?
        .expect("usage limit supersedes a budget limit");
    assert_eq!(usage_limited.status, ThreadGoalStatus::UsageLimited);
    assert_eq!(
        store.delete_thread_goal(thread_id)?,
        Some(usage_limited)
    );
    assert_eq!(store.get_thread_goal(thread_id)?, None);

    let deferred_goal = store
        .replace_thread_goal(
            thread_id,
            "continue after an explicit turn",
            ThreadGoalStatus::Active,
            Some(100),
        )?;
    store.replace_thread_goal_snapshot(&deferred_goal)?;
    assert!(
        store
            .has_thread_goal_continuation_deferral(thread_id)?
    );
    store
        .clear_thread_goal_continuation_deferral(thread_id)?;
    assert!(
        !store
            .has_thread_goal_continuation_deferral(thread_id)?
    );

    let first_accounting = store.account_thread_goal_usage(
        thread_id,
        GoalAccountingRequest {
            event_id: "distinct-accounting-1",
            time_delta_seconds: 4,
            token_delta: 40,
            mode: GoalAccountingMode::ActiveOnly,
            target: GoalAccountingTarget::GoalId(deferred_goal.goal_id.as_str()),
        },
    );
    let second_accounting = store.account_thread_goal_usage(
        thread_id,
        GoalAccountingRequest {
            event_id: "distinct-accounting-2",
            time_delta_seconds: 6,
            token_delta: 60,
            mode: GoalAccountingMode::ActiveOnly,
            target: GoalAccountingTarget::GoalId(deferred_goal.goal_id.as_str()),
        },
    );
    assert!(matches!(
        first_accounting?,
        GoalAccountingOutcome::Updated(_)
    ));
    assert!(matches!(
        second_accounting?,
        GoalAccountingOutcome::Updated(_)
    ));
    let accounted = store
        .get_thread_goal(thread_id)?
        .expect("accounted goal should exist");
    assert_eq!(accounted.tokens_used, 100);
    assert_eq!(accounted.time_used_seconds, 10);
    assert_eq!(accounted.status, ThreadGoalStatus::BudgetLimited);
    assert_eq!(store.get_thread_goal(thread_id)?, Some(accounted));

    let idempotent_goal = store
        .replace_thread_goal(
            thread_id,
            "charge a retried event once",
            ThreadGoalStatus::Active,
            Some(1_000),
        )?;
    let request = GoalAccountingRequest {
        event_id: "retried-accounting",
        time_delta_seconds: 7,
        token_delta: 70,
        mode: GoalAccountingMode::ActiveOnly,
        target: GoalAccountingTarget::GoalId(idempotent_goal.goal_id.as_str()),
    };
    let (first_retry, second_retry) = (
        store.account_thread_goal_usage(thread_id, request),
        store.account_thread_goal_usage(thread_id, request),
    );
    let outcomes = [first_retry?, second_retry?];
    assert!(matches!(
        (&outcomes[0], &outcomes[1]),
        (
            GoalAccountingOutcome::Updated(_),
            GoalAccountingOutcome::AlreadyAccounted(_)
        ) | (
            GoalAccountingOutcome::AlreadyAccounted(_),
            GoalAccountingOutcome::Updated(_)
        )
    ));
    let idempotently_accounted = store
        .get_thread_goal(thread_id)?
        .expect("idempotently accounted goal should exist");
    assert_eq!(idempotently_accounted.tokens_used, 70);
    assert_eq!(idempotently_accounted.time_used_seconds, 7);
    assert_eq!(
        store.get_thread_goal(thread_id)?,
        Some(idempotently_accounted.clone())
    );
    store
        .account_thread_goal_usage(
            thread_id,
            GoalAccountingRequest {
                token_delta: 71,
                ..request
            },
        )
        .expect_err("reusing an accounting event with different usage should fail");
    assert_eq!(
        store.get_thread_goal(thread_id)?,
        Some(idempotently_accounted)
    );

    assert_accounting_status_matrix(store, thread_id)?;
    Ok(())
}

#[test]
fn sqlite_goal_lifecycle_satisfies_shared_contract() -> GoalStoreResult<()> {
    let mut runtime = StateRuntime::new(RuntimeStateBackend::Sqlite);
    let thread_id = ThreadId { value: uuid::Uuid::new_v4().as_u128() };

    run_goal_lifecycle_contract(runtime.thread_goals(), thread_id)?;

    runtime.close();
    Ok(())
}

#[test]
fn sqlite_goal_errors_expose_the_runtime_state_contract() -> GoalStoreResult<()> {
    let mut runtime = StateRuntime::new(RuntimeStateBackend::Sqlite);
    let thread_id = ThreadId { value: uuid::Uuid::new_v4().as_u128() };

    let error = provoke_goal_accounting_conflict(runtime.thread_goals(), thread_id)?;

    assert_eq!(error.kind(), GoalStoreErrorKind::Conflict);
    assert_eq!(
        error.operation(),
        GoalStoreOperation::AccountThreadGoalUsage
    );
    assert_eq!(
        error.message(),
        "Runtime State could not complete the `account thread goal usage` operation because the accounting event conflicts with persisted goal usage"
    );
    let goal = runtime
        .thread_goals()
        .get_thread_goal(thread_id)?
        .expect("goal should exist before the store closes");
    let persistence_errors = collect_closed_goal_store_errors(runtime.thread_goals(), &goal);
    assert_eq!(
        persistence_errors
            .iter()
            .map(GoalStoreError::kind)
            .collect::<Vec<_>>(),
        vec![GoalStoreErrorKind::Persistence; 11]
    );
    assert_eq!(
        persistence_errors
            .iter()
            .map(GoalStoreError::operation)
            .collect::<Vec<_>>(),
        vec![
            GoalStoreOperation::GetThreadGoal,
            GoalStoreOperation::ReplaceThreadGoal,
            GoalStoreOperation::InsertThreadGoal,
            GoalStoreOperation::UpdateThreadGoal,
            GoalStoreOperation::PauseActiveThreadGoal,
            GoalStoreOperation::UsageLimitActiveThreadGoal,
            GoalStoreOperation::DeleteThreadGoal,
            GoalStoreOperation::ReplaceThreadGoalSnapshot,
            GoalStoreOperation::HasThreadGoalContinuationDeferral,
            GoalStoreOperation::ClearThreadGoalContinuationDeferral,
            GoalStoreOperation::AccountThreadGoalUsage,
        ]
    );
    runtime.close();
    Ok(())
}
