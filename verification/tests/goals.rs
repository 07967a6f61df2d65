use codex_state::GoalAccountingMode;
use codex_state::GoalAccountingOutcome;
use codex_state::GoalAccountingRequest;
use codex_state::GoalAccountingTarget;
use codex_state::GoalUpdate;
use codex_state::RuntimeStateBackend;
use codex_state::StateRuntime;
use codex_state::ThreadGoal;
use codex_state::ThreadGoalStatus;
use codex_state::ThreadHistoryMode;
use codex_state::ThreadId;
use codex_state::ThreadMetadata;

fn test_runtime() -> StateRuntime {
    StateRuntime::new(RuntimeStateBackend::Sqlite)
}

fn test_thread_id() -> ThreadId {
    let id = uuid::Uuid::parse_str("00000000-0000-0000-0000-000000000123").expect("valid thread id");
    ThreadId { value: id.as_u128() }
}

fn accounting(
    event_id: &str,
    time_delta_seconds: i64,
    token_delta: i64,
    mode: GoalAccountingMode,
) -> GoalAccountingRequest<'_> {
    GoalAccountingRequest {
        event_id,
        time_delta_seconds,
        token_delta,
        mode,
        target: GoalAccountingTarget::CurrentGoal,
    }
}

fn active_accounting(event_id: &str, time_delta_seconds: i64, token_delta: i64) -> GoalAccountingRequest<'_> {
    accounting(event_id, time_delta_seconds, token_delta, GoalAccountingMode::ActiveOnly)
}

fn test_thread_metadata(id: ThreadId) -> ThreadMetadata {
    ThreadMetadata {
        id,
        rollout_path: "rollout.jsonl".to_string(),
        created_at: 1_700_000_000_000,
        updated_at: 1_700_000_000_000,
        recency_at: 1_700_000_000_000,
        source: "cli".to_string(),
        history_mode: ThreadHistoryMode::Legacy,
        thread_source: None,
        agent_nickname: None,
        agent_role: None,
        agent_path: None,
        model_provider: "test-provider".to_string(),
        model: None,
        reasoning_effort: None,
        cwd: "/workspace".to_string(),
        cli_version: "0.0.0".to_string(),
        title: String::new(),
        name: None,
        preview: Some("hello".to_string()),
        sandbox_policy: "read-only".to_string(),
        approval_mode: "on-request".to_string(),
        tokens_used: 0,
        first_user_message: Some("hello".to_string()),
        archived_at: None,
        section: None,
        section_position: None,
        section_entered_at: None,
        is_pinned: false,
        git_sha: None,
        git_branch: None,
        git_origin_url: None,
        repository_identity: None,
    }
}

fn upsert_test_thread(runtime: &mut StateRuntime, thread_id: ThreadId) {
    runtime
        .upsert_thread(&test_thread_metadata(thread_id))
        .expect("test thread should be upserted");
}

#[test]
fn replace_update_and_get_thread_goal() {
    let mut runtime = test_runtime();
    let thread_id = test_thread_id();
    upsert_test_thread(&mut runtime, thread_id);

    let goal = runtime
        .thread_goals()
        .replace_thread_goal(
            thread_id,
            "optimize the benchmark",
            ThreadGoalStatus::Active,
            Some(100_000),
        )
        .expect("goal replacement should succeed");
    assert_eq!(
        Some(goal.clone()),
        runtime
            .thread_goals()
            .get_thread_goal(thread_id)
            .unwrap()
    );
    let metadata = runtime
        .get_thread(thread_id)
        .expect("thread metadata should load")
        .expect("thread should exist");
    assert_eq!(metadata.preview.as_deref(), Some("hello"));

    let updated = runtime
        .thread_goals()
        .update_thread_goal(
            thread_id,
            GoalUpdate {
                objective: None,
                status: Some(ThreadGoalStatus::Paused),
                token_budget: Some(Some(200_000)),
                expected_goal_id: None,
            },
        )
        .expect("goal update should succeed")
        .expect("goal should exist");
    let expected = ThreadGoal {
        status: ThreadGoalStatus::Paused,
        token_budget: Some(200_000),
        updated_at: updated.updated_at,
        ..goal.clone()
    };
    assert_eq!(expected, updated);

    let replaced = runtime
        .thread_goals()
        .replace_thread_goal(
            thread_id,
            "ship the new result",
            ThreadGoalStatus::Active,
            None,
        )
        .expect("goal replacement should succeed");
    assert_eq!("ship the new result", replaced.objective);
    assert_eq!(ThreadGoalStatus::Active, replaced.status);
    assert_eq!(None, replaced.token_budget);
    assert_eq!(0, replaced.tokens_used);
    assert_eq!(0, replaced.time_used_seconds);

    assert_eq!(
        Some(replaced),
        runtime
            .thread_goals()
            .delete_thread_goal(thread_id)
            .unwrap()
    );
    assert_eq!(
        None,
        runtime
            .thread_goals()
            .get_thread_goal(thread_id)
            .unwrap()
    );
    assert_eq!(
        None,
        runtime
            .thread_goals()
            .delete_thread_goal(thread_id)
            .unwrap()
    );
}

#[test]
fn replace_thread_goal_applies_budget_limit_immediately() {
    let mut runtime = test_runtime();
    let thread_id = test_thread_id();
    upsert_test_thread(&mut runtime, thread_id);

    let replaced = runtime
        .thread_goals()
        .replace_thread_goal(
            thread_id,
            "stay within budget",
            ThreadGoalStatus::Active,
            Some(0),
        )
        .expect("goal replacement should succeed");

    assert_eq!(ThreadGoalStatus::BudgetLimited, replaced.status);
    assert_eq!(Some(0), replaced.token_budget);
    assert_eq!(0, replaced.tokens_used);
    assert_eq!(0, replaced.time_used_seconds);
}

#[test]
fn insert_thread_goal_does_not_replace_existing_goal() {
    let mut runtime = test_runtime();
    let thread_id = test_thread_id();
    upsert_test_thread(&mut runtime, thread_id);

    let inserted = runtime
        .thread_goals()
        .insert_thread_goal(
            thread_id,
            "optimize the benchmark",
            ThreadGoalStatus::Active,
            Some(100_000),
        )
        .expect("goal insertion should succeed")
        .expect("goal should be inserted");

    let duplicate = runtime
        .thread_goals()
        .insert_thread_goal(
            thread_id,
            "replace the benchmark",
            ThreadGoalStatus::Active,
            Some(200_000),
        )
        .expect("duplicate insert should not fail");

    assert_eq!(None, duplicate);
    assert_eq!(
        Some(inserted),
        runtime
            .thread_goals()
            .get_thread_goal(thread_id)
            .unwrap()
    );
}

#[test]
fn insert_thread_goal_applies_budget_limit_immediately() {
    let mut runtime = test_runtime();
    let thread_id = test_thread_id();
    upsert_test_thread(&mut runtime, thread_id);

    let inserted = runtime
        .thread_goals()
        .insert_thread_goal(
            thread_id,
            "stay within budget",
            ThreadGoalStatus::Active,
            Some(0),
        )
        .expect("goal insertion should succeed")
        .expect("goal should be inserted");

    assert_eq!(ThreadGoalStatus::BudgetLimited, inserted.status);
    assert_eq!(Some(0), inserted.token_budget);
    assert_eq!(0, inserted.tokens_used);
    assert_eq!(0, inserted.time_used_seconds);
}

#[test]
fn update_thread_goal_ignores_replaced_goal_version() {
    let mut runtime = test_runtime();
    let thread_id = test_thread_id();
    upsert_test_thread(&mut runtime, thread_id);

    let original = runtime
        .thread_goals()
        .replace_thread_goal(
            thread_id,
            "old objective",
            ThreadGoalStatus::Active,
            Some(100),
        )
        .expect("goal replacement should succeed");
    let replacement = runtime
        .thread_goals()
        .replace_thread_goal(
            thread_id,
            "new objective",
            ThreadGoalStatus::Active,
            Some(10),
        )
        .expect("goal replacement should succeed");

    let stale_update = runtime
        .thread_goals()
        .update_thread_goal(
            thread_id,
            GoalUpdate {
                objective: None,
                status: Some(ThreadGoalStatus::Complete),
                token_budget: None,
                expected_goal_id: Some(original.goal_id),
            },
        )
        .expect("goal update should succeed");

    assert_eq!(None, stale_update);
    assert_eq!(
        Some(replacement.clone()),
        runtime
            .thread_goals()
            .get_thread_goal(thread_id)
            .expect("goal read should succeed")
    );

    let fresh_update = runtime
        .thread_goals()
        .update_thread_goal(
            thread_id,
            GoalUpdate {
                objective: None,
                status: Some(ThreadGoalStatus::Complete),
                token_budget: None,
                expected_goal_id: Some(replacement.goal_id),
            },
        )
        .expect("goal update should succeed")
        .expect("fresh update should match the replacement goal");
    assert_eq!(ThreadGoalStatus::Complete, fresh_update.status);
}

#[test]
fn usage_accounting_ignores_replaced_goal_version() {
    let mut runtime = test_runtime();
    let thread_id = test_thread_id();
    upsert_test_thread(&mut runtime, thread_id);

    let original = runtime
        .thread_goals()
        .replace_thread_goal(
            thread_id,
            "old objective",
            ThreadGoalStatus::Active,
            Some(100),
        )
        .expect("goal replacement should succeed");
    let replacement = runtime
        .thread_goals()
        .replace_thread_goal(
            thread_id,
            "new objective",
            ThreadGoalStatus::Active,
            Some(10),
        )
        .expect("goal replacement should succeed");

    let outcome = runtime
        .thread_goals()
        .account_thread_goal_usage(
            thread_id,
            GoalAccountingRequest {
                event_id: "stale-goal-accounting",
                time_delta_seconds: 5,
                token_delta: 5,
                mode: GoalAccountingMode::ActiveOnly,
                target: GoalAccountingTarget::GoalId(original.goal_id.as_str()),
            },
        )
        .expect("usage accounting should succeed");

    let GoalAccountingOutcome::Unchanged(Some(goal)) = outcome else {
        panic!("stale goal version should not be updated");
    };
    assert_ne!(replacement.goal_id, original.goal_id);
    assert_eq!(replacement.created_at, goal.created_at);
    assert_eq!("new objective", goal.objective);
    assert_eq!(0, goal.tokens_used);
    assert_eq!(0, goal.time_used_seconds);
}

#[test]
fn update_thread_goal_objective_preserves_usage_and_created_at() {
    let mut runtime = test_runtime();
    let thread_id = test_thread_id();
    upsert_test_thread(&mut runtime, thread_id);

    runtime
        .thread_goals()
        .replace_thread_goal(
            thread_id,
            "draft the report",
            ThreadGoalStatus::Active,
            Some(100),
        )
        .expect("goal replacement should succeed");
    let outcome = runtime
        .thread_goals()
        .account_thread_goal_usage(
            thread_id,
            active_accounting(
                "objective-accounting",
                12,
                30,
            ),
        )
        .expect("usage accounting should succeed");
    let GoalAccountingOutcome::Updated(accounted) = outcome else {
        panic!("active goal should account usage");
    };

    let updated = runtime
        .thread_goals()
        .update_thread_goal(
            thread_id,
            GoalUpdate {
                objective: Some("draft the report clearly".to_string()),
                status: Some(ThreadGoalStatus::Paused),
                token_budget: Some(Some(200)),
                expected_goal_id: Some(accounted.goal_id.clone()),
            },
        )
        .expect("goal update should succeed")
        .expect("goal should exist");
    let expected = ThreadGoal {
        objective: "draft the report clearly".to_string(),
        status: ThreadGoalStatus::Paused,
        token_budget: Some(200),
        updated_at: updated.updated_at,
        ..accounted
    };
    assert_eq!(expected, updated);
}

#[test]
fn concurrent_partial_updates_preserve_independent_fields() {
    let mut runtime = test_runtime();
    let thread_id = test_thread_id();
    upsert_test_thread(&mut runtime, thread_id);
    runtime
        .thread_goals()
        .replace_thread_goal(
            thread_id,
            "optimize the benchmark",
            ThreadGoalStatus::Active,
            Some(100_000),
        )
        .expect("goal replacement should succeed");

    let status_update = runtime.thread_goals().update_thread_goal(
        thread_id,
        GoalUpdate {
            objective: None,
            status: Some(ThreadGoalStatus::Paused),
            token_budget: None,
            expected_goal_id: None,
        },
    );
    let budget_update = runtime.thread_goals().update_thread_goal(
        thread_id,
        GoalUpdate {
            objective: None,
            status: None,
            token_budget: Some(Some(200_000)),
            expected_goal_id: None,
        },
    );
    status_update.expect("status update should succeed");
    budget_update.expect("budget update should succeed");

    let goal = runtime
        .thread_goals()
        .get_thread_goal(thread_id)
        .expect("goal read should succeed")
        .expect("goal should exist");
    assert_eq!(ThreadGoalStatus::Paused, goal.status);
    assert_eq!(Some(200_000), goal.token_budget);
}

#[test]
fn pause_active_thread_goal_does_not_clobber_terminal_status() {
    let mut runtime = test_runtime();
    let thread_id = test_thread_id();
    upsert_test_thread(&mut runtime, thread_id);
    let goal = runtime
        .thread_goals()
        .replace_thread_goal(
            thread_id,
            "optimize the benchmark",
            ThreadGoalStatus::Active,
            Some(100_000),
        )
        .expect("goal replacement should succeed");

    let paused = runtime
        .thread_goals()
        .pause_active_thread_goal(thread_id)
        .expect("active pause should succeed")
        .expect("active goal should be paused");
    let expected = ThreadGoal {
        status: ThreadGoalStatus::Paused,
        updated_at: paused.updated_at,
        ..goal
    };
    assert_eq!(expected, paused);

    let complete = runtime
        .thread_goals()
        .update_thread_goal(
            thread_id,
            GoalUpdate {
                objective: None,
                status: Some(ThreadGoalStatus::Complete),
                token_budget: None,
                expected_goal_id: None,
            },
        )
        .expect("goal update should succeed")
        .expect("goal should exist");
    let pause_result = runtime
        .thread_goals()
        .pause_active_thread_goal(thread_id)
        .expect("terminal pause attempt should succeed");
    assert_eq!(None, pause_result);
    assert_eq!(
        Some(complete),
        runtime
            .thread_goals()
            .get_thread_goal(thread_id)
            .expect("goal read should succeed")
    );
}

#[test]
fn usage_limit_active_thread_goal_updates_active_or_budget_limited_goals() {
    let mut runtime = test_runtime();
    let thread_id = test_thread_id();
    upsert_test_thread(&mut runtime, thread_id);
    let goal = runtime
        .thread_goals()
        .replace_thread_goal(
            thread_id,
            "optimize the benchmark",
            ThreadGoalStatus::Active,
            None,
        )
        .expect("goal replacement should succeed");

    let usage_limited = runtime
        .thread_goals()
        .usage_limit_active_thread_goal(thread_id)
        .expect("usage limiting should succeed")
        .expect("active goal should become usage limited");
    let expected = ThreadGoal {
        status: ThreadGoalStatus::UsageLimited,
        updated_at: usage_limited.updated_at,
        ..goal
    };
    assert_eq!(expected, usage_limited);

    let second_update = runtime
        .thread_goals()
        .usage_limit_active_thread_goal(thread_id)
        .expect("repeated usage limiting should succeed");
    assert_eq!(None, second_update);

    let budget_limited = runtime
        .thread_goals()
        .replace_thread_goal(
            thread_id,
            "keep the usage failure visible",
            ThreadGoalStatus::BudgetLimited,
            Some(1),
        )
        .expect("goal replacement should succeed");
    let usage_limited = runtime
        .thread_goals()
        .usage_limit_active_thread_goal(thread_id)
        .expect("usage limiting should succeed")
        .expect("budget-limited goal should become usage limited");
    let expected = ThreadGoal {
        status: ThreadGoalStatus::UsageLimited,
        updated_at: usage_limited.updated_at,
        ..budget_limited
    };
    assert_eq!(expected, usage_limited);
}

#[test]
fn usage_accounting_updates_active_goals_and_accounts_budget_limited_in_flight_usage() {
    let mut runtime = test_runtime();
    let thread_id = test_thread_id();
    upsert_test_thread(&mut runtime, thread_id);
    runtime
        .thread_goals()
        .replace_thread_goal(
            thread_id,
            "stay within budget",
            ThreadGoalStatus::Active,
            Some(20),
        )
        .expect("goal replacement should succeed");

    let outcome = runtime
        .thread_goals()
        .account_thread_goal_usage(
            thread_id,
            active_accounting(
                "active-accounting",
                7,
                5,
            ),
        )
        .expect("usage accounting should succeed");
    let GoalAccountingOutcome::Updated(goal) = outcome else {
        panic!("active goal should be updated");
    };
    assert_eq!(ThreadGoalStatus::Active, goal.status);
    assert_eq!(5, goal.tokens_used);
    assert_eq!(7, goal.time_used_seconds);

    let outcome = runtime
        .thread_goals()
        .account_thread_goal_usage(
            thread_id,
            active_accounting(
                "budget-crossing-accounting",
                3,
                15,
            ),
        )
        .expect("usage accounting should succeed");
    let GoalAccountingOutcome::Updated(goal) = outcome else {
        panic!("budget crossing should update the goal");
    };
    assert_eq!(ThreadGoalStatus::BudgetLimited, goal.status);
    assert_eq!(20, goal.tokens_used);
    assert_eq!(10, goal.time_used_seconds);

    let outcome = runtime
        .thread_goals()
        .account_thread_goal_usage(
            thread_id,
            active_accounting(
                "budget-limited-accounting",
                5,
                5,
            ),
        )
        .expect("usage accounting should succeed");
    let GoalAccountingOutcome::Updated(goal) = outcome else {
        panic!("budget-limited goal should still account in-flight active usage");
    };
    assert_eq!(ThreadGoalStatus::BudgetLimited, goal.status);
    assert_eq!(25, goal.tokens_used);
    assert_eq!(15, goal.time_used_seconds);
}

#[test]
fn active_status_only_usage_accounting_does_not_update_budget_limited_goals() {
    let mut runtime = test_runtime();
    let thread_id = test_thread_id();
    upsert_test_thread(&mut runtime, thread_id);
    runtime
        .thread_goals()
        .replace_thread_goal(
            thread_id,
            "stay stopped",
            ThreadGoalStatus::BudgetLimited,
            Some(20),
        )
        .expect("goal replacement should succeed");

    let outcome = runtime
        .thread_goals()
        .account_thread_goal_usage(
            thread_id,
            accounting(
                "active-status-accounting",
                5,
                5,
                GoalAccountingMode::ActiveStatusOnly,
            ),
        )
        .expect("usage accounting should succeed");
    let GoalAccountingOutcome::Unchanged(Some(goal)) = outcome else {
        panic!("budget-limited goal should not be updated");
    };
    assert_eq!(ThreadGoalStatus::BudgetLimited, goal.status);
    assert_eq!(0, goal.tokens_used);
    assert_eq!(0, goal.time_used_seconds);
}

#[test]
fn stopped_usage_accounting_promotes_paused_goal_over_budget() {
    let mut runtime = test_runtime();
    let thread_id = test_thread_id();
    upsert_test_thread(&mut runtime, thread_id);
    runtime
        .thread_goals()
        .replace_thread_goal(
            thread_id,
            "stop before overrun",
            ThreadGoalStatus::Active,
            Some(20),
        )
        .expect("goal replacement should succeed");
    runtime
        .thread_goals()
        .update_thread_goal(
            thread_id,
            GoalUpdate {
                objective: None,
                status: Some(ThreadGoalStatus::Paused),
                token_budget: None,
                expected_goal_id: None,
            },
        )
        .expect("goal update should succeed");

    let outcome = runtime
        .thread_goals()
        .account_thread_goal_usage(
            thread_id,
            accounting(
                "stopped-accounting",
                3,
                25,
                GoalAccountingMode::ActiveOrStopped,
            ),
        )
        .expect("usage accounting should succeed");
    let GoalAccountingOutcome::Updated(goal) = outcome else {
        panic!("stopped goal should account final usage");
    };
    assert_eq!(ThreadGoalStatus::BudgetLimited, goal.status);
    assert_eq!(25, goal.tokens_used);
    assert_eq!(3, goal.time_used_seconds);
}

#[test]
fn budget_updates_immediately_stop_active_goals_already_over_budget() {
    let mut runtime = test_runtime();
    let thread_id = test_thread_id();
    upsert_test_thread(&mut runtime, thread_id);
    runtime
        .thread_goals()
        .replace_thread_goal(
            thread_id,
            "stay within budget",
            ThreadGoalStatus::Active,
            Some(100),
        )
        .expect("goal replacement should succeed");
    runtime
        .thread_goals()
        .account_thread_goal_usage(
            thread_id,
            active_accounting(
                "budget-accounting",
                1,
                50,
            ),
        )
        .expect("usage accounting should succeed");

    let lowered = runtime
        .thread_goals()
        .update_thread_goal(
            thread_id,
            GoalUpdate {
                objective: None,
                status: None,
                token_budget: Some(Some(40)),
                expected_goal_id: None,
            },
        )
        .expect("goal update should succeed")
        .expect("goal should exist");

    assert_eq!(ThreadGoalStatus::BudgetLimited, lowered.status);
    assert_eq!(Some(40), lowered.token_budget);
    assert_eq!(50, lowered.tokens_used);
}

#[test]
fn activating_goal_already_over_budget_keeps_it_budget_limited() {
    let mut runtime = test_runtime();
    let thread_id = test_thread_id();
    upsert_test_thread(&mut runtime, thread_id);
    runtime
        .thread_goals()
        .replace_thread_goal(
            thread_id,
            "stay within budget",
            ThreadGoalStatus::Active,
            Some(40),
        )
        .expect("goal replacement should succeed");
    runtime
        .thread_goals()
        .account_thread_goal_usage(
            thread_id,
            active_accounting(
                "budget-accounting",
                1,
                50,
            ),
        )
        .expect("usage accounting should succeed");

    let reactivated = runtime
        .thread_goals()
        .update_thread_goal(
            thread_id,
            GoalUpdate {
                objective: Some("stay within budget, with clearer wording".to_string()),
                status: Some(ThreadGoalStatus::Active),
                token_budget: None,
                expected_goal_id: None,
            },
        )
        .expect("goal update should succeed")
        .expect("goal should exist");

    assert_eq!(ThreadGoalStatus::BudgetLimited, reactivated.status);
    assert_eq!(
        "stay within budget, with clearer wording",
        reactivated.objective
    );
    assert_eq!(Some(40), reactivated.token_budget);
    assert_eq!(50, reactivated.tokens_used);
}

#[test]
fn pausing_budget_limited_goal_preserves_terminal_status() {
    let mut runtime = test_runtime();
    let thread_id = test_thread_id();
    upsert_test_thread(&mut runtime, thread_id);
    runtime
        .thread_goals()
        .replace_thread_goal(
            thread_id,
            "stay within budget",
            ThreadGoalStatus::Active,
            Some(40),
        )
        .expect("goal replacement should succeed");
    runtime
        .thread_goals()
        .account_thread_goal_usage(
            thread_id,
            active_accounting(
                "budget-accounting",
                1,
                50,
            ),
        )
        .expect("usage accounting should succeed");

    let paused = runtime
        .thread_goals()
        .update_thread_goal(
            thread_id,
            GoalUpdate {
                objective: None,
                status: Some(ThreadGoalStatus::Paused),
                token_budget: None,
                expected_goal_id: None,
            },
        )
        .expect("goal update should succeed")
        .expect("goal should exist");

    assert_eq!(ThreadGoalStatus::BudgetLimited, paused.status);
    assert_eq!(Some(40), paused.token_budget);
    assert_eq!(50, paused.tokens_used);
}

#[test]
fn blocking_budget_limited_goal_preserves_terminal_status() {
    let mut runtime = test_runtime();
    let thread_id = test_thread_id();
    upsert_test_thread(&mut runtime, thread_id);
    runtime
        .thread_goals()
        .replace_thread_goal(
            thread_id,
            "stay within budget",
            ThreadGoalStatus::Active,
            Some(40),
        )
        .expect("goal replacement should succeed");
    let outcome = runtime
        .thread_goals()
        .account_thread_goal_usage(
            thread_id,
            active_accounting(
                "budget-accounting",
                1,
                50,
            ),
        )
        .expect("usage accounting should succeed");
    let GoalAccountingOutcome::Updated(budget_limited) = outcome else {
        panic!("budget crossing should update the goal");
    };

    let blocked = runtime
        .thread_goals()
        .update_thread_goal(
            thread_id,
            GoalUpdate {
                objective: None,
                status: Some(ThreadGoalStatus::Blocked),
                token_budget: None,
                expected_goal_id: None,
            },
        )
        .expect("goal update should succeed")
        .expect("goal should exist");

    let expected = ThreadGoal {
        updated_at: blocked.updated_at,
        ..budget_limited
    };
    assert_eq!(expected, blocked);
}

#[test]
fn usage_accounting_can_finalize_completed_goal_for_completing_turn() {
    let mut runtime = test_runtime();
    let thread_id = test_thread_id();
    upsert_test_thread(&mut runtime, thread_id);
    runtime
        .thread_goals()
        .replace_thread_goal(
            thread_id,
            "finish the report",
            ThreadGoalStatus::Complete,
            Some(1_000),
        )
        .expect("goal replacement should succeed");

    let active_only = runtime
        .thread_goals()
        .account_thread_goal_usage(
            thread_id,
            active_accounting(
                "completed-active-only",
                30,
                200,
            ),
        )
        .expect("usage accounting should succeed");
    let GoalAccountingOutcome::Unchanged(Some(goal)) = active_only else {
        panic!("completed goal should not be updated by active-only accounting");
    };
    assert_eq!(ThreadGoalStatus::Complete, goal.status);
    assert_eq!(0, goal.tokens_used);
    assert_eq!(0, goal.time_used_seconds);

    let completing_turn = runtime
        .thread_goals()
        .account_thread_goal_usage(
            thread_id,
            accounting(
                "completed-final-accounting",
                30,
                200,
                GoalAccountingMode::ActiveOrComplete,
            ),
        )
        .expect("usage accounting should succeed");
    let GoalAccountingOutcome::Updated(goal) = completing_turn else {
        panic!("completed goal should be updated for final accounting");
    };
    assert_eq!(ThreadGoalStatus::Complete, goal.status);
    assert_eq!(200, goal.tokens_used);
    assert_eq!(30, goal.time_used_seconds);
}

#[test]
fn usage_accounting_can_finalize_stopped_goal_for_in_flight_turn() {
    let mut runtime = test_runtime();
    let thread_id = test_thread_id();
    upsert_test_thread(&mut runtime, thread_id);
    runtime
        .thread_goals()
        .replace_thread_goal(
            thread_id,
            "finish the report",
            ThreadGoalStatus::Active,
            Some(1_000),
        )
        .expect("goal replacement should succeed");
    runtime
        .thread_goals()
        .update_thread_goal(
            thread_id,
            GoalUpdate {
                objective: None,
                status: Some(ThreadGoalStatus::Paused),
                token_budget: None,
                expected_goal_id: None,
            },
        )
        .expect("goal update should succeed")
        .expect("goal should exist");

    let active_only = runtime
        .thread_goals()
        .account_thread_goal_usage(
            thread_id,
            active_accounting(
                "stopped-active-only",
                30,
                200,
            ),
        )
        .expect("usage accounting should succeed");
    let GoalAccountingOutcome::Unchanged(Some(goal)) = active_only else {
        panic!("paused goal should not be updated by active-only accounting");
    };
    assert_eq!(ThreadGoalStatus::Paused, goal.status);
    assert_eq!(0, goal.tokens_used);
    assert_eq!(0, goal.time_used_seconds);

    let in_flight_turn = runtime
        .thread_goals()
        .account_thread_goal_usage(
            thread_id,
            accounting(
                "stopped-final-accounting",
                30,
                200,
                GoalAccountingMode::ActiveOrStopped,
            ),
        )
        .expect("usage accounting should succeed");
    let GoalAccountingOutcome::Updated(goal) = in_flight_turn else {
        panic!("stopped goal should be updated for in-flight accounting");
    };
    assert_eq!(ThreadGoalStatus::Paused, goal.status);
    assert_eq!(200, goal.tokens_used);
    assert_eq!(30, goal.time_used_seconds);
}

#[test]
fn usage_accounting_adds_concurrent_token_deltas() {
    let mut runtime = test_runtime();
    let thread_id = test_thread_id();
    upsert_test_thread(&mut runtime, thread_id);
    runtime
        .thread_goals()
        .replace_thread_goal(
            thread_id,
            "count every token",
            ThreadGoalStatus::Active,
            Some(1_000),
        )
        .expect("goal replacement should succeed");

    let first = runtime.thread_goals().account_thread_goal_usage(
        thread_id,
        active_accounting(
            "concurrent-accounting-1",
            4,
            40,
        ),
    );
    let second = runtime.thread_goals().account_thread_goal_usage(
        thread_id,
        active_accounting(
            "concurrent-accounting-2",
            6,
            60,
        ),
    );
    first.expect("first usage accounting should succeed");
    second.expect("second usage accounting should succeed");

    let goal = runtime
        .thread_goals()
        .get_thread_goal(thread_id)
        .expect("goal read should succeed")
        .expect("goal should exist");
    assert_eq!(100, goal.tokens_used);
    assert_eq!(10, goal.time_used_seconds);
}

#[test]
fn deleting_thread_deletes_goal() {
    let mut runtime = test_runtime();
    let thread_id = test_thread_id();
    upsert_test_thread(&mut runtime, thread_id);
    runtime
        .thread_goals()
        .replace_thread_goal(
            thread_id,
            "clean up with the thread",
            ThreadGoalStatus::Active,
            None,
        )
        .expect("goal replacement should succeed");

    runtime
        .delete_thread(thread_id)
        .expect("thread deletion should succeed");

    assert_eq!(
        None,
        runtime
            .thread_goals()
            .get_thread_goal(thread_id)
            .expect("goal read should succeed")
    );
}
