use codex_state::MemoryStoreError;
use codex_state::RuntimeStateBackend;
use codex_state::Stage1JobClaim;
use codex_state::Stage1JobClaimOutcome;
use codex_state::Stage1StartupClaimParams;
use codex_state::StateRuntime;
use codex_state::ThreadHistoryMode;
use codex_state::ThreadId;
use codex_state::ThreadMetadata;
use codex_state::ThreadRow;

/// The time of every operation, in seconds.
const NOW: i64 = 1_800_000_000;

/// Milliseconds.
const HOUR: i64 = 3_600_000;
const DAY: i64 = 24 * HOUR;

fn thread_id(text: &str) -> ThreadId {
    ThreadId { value: uuid::Uuid::parse_str(text).expect("valid thread id").as_u128() }
}

fn test_thread_metadata(id: ThreadId) -> ThreadMetadata {
    ThreadMetadata {
        id,
        rollout_path: "rollout.jsonl".to_string(),
        created_at: 1_700_000_000_000,
        updated_at: 1_700_000_000_000,
        recency_at: 1_700_000_000_000,
        source: "cli".to_string(),
        history_mode: ThreadHistoryMode::Legacy,
        thread_source: None,
        agent_nickname: None,
        agent_role: None,
        agent_path: None,
        model_provider: "test-provider".to_string(),
        model: None,
        reasoning_effort: None,
        cwd: "/workspace".to_string(),
        cli_version: "0.0.0".to_string(),
        title: String::new(),
        name: None,
        preview: Some("hello".to_string()),
        sandbox_policy: "read-only".to_string(),
        approval_mode: "on-request".to_string(),
        tokens_used: 0,
        first_user_message: Some("hello".to_string()),
        archived_at: None,
        section: None,
        section_position: None,
        section_entered_at: None,
        is_pinned: false,
        git_sha: None,
        git_branch: None,
        git_origin_url: None,
        repository_identity: None,
    }
}

const CURRENT: usize = 0;
const NEWEST: usize = 1;
const OLDER: usize = 2;
const TOO_FRESH: usize = 4;
const POLLUTED: usize = 7;

struct StartupSeed {
    metadata: ThreadMetadata,
    memory_mode: &'static str,
}

fn startup_seeds(now: i64) -> Vec<StartupSeed> {
    let specifications = [
        ("0198c4cf-8587-7d32-8d1c-2c14d3320010", 2, "cli", "enabled"),
        ("0198c4cf-8587-7d32-8d1c-2c14d3320011", 2, "cli", "enabled"),
        ("0198c4cf-8587-7d32-8d1c-2c14d3320012", 3, "cli", "enabled"),
        ("0198c4cf-8587-7d32-8d1c-2c14d3320013", 4, "exec", "enabled"),
        ("0198c4cf-8587-7d32-8d1c-2c14d3320014", 0, "cli", "enabled"),
        (
            "0198c4cf-8587-7d32-8d1c-2c14d3320015",
            24 * 31,
            "cli",
            "enabled",
        ),
        ("0198c4cf-8587-7d32-8d1c-2c14d3320016", 5, "cli", "disabled"),
        ("0198c4cf-8587-7d32-8d1c-2c14d3320017", 6, "cli", "enabled"),
    ];
    specifications
        .into_iter()
        .enumerate()
        .map(|(index, (id, idle_hours, source, memory_mode))| {
            let thread_id = thread_id(id);
            let mut metadata = test_thread_metadata(thread_id);
            metadata.cwd = format!("/contract/workspaces/startup-{index}");
            metadata.rollout_path = format!(
                "/contract/rollouts/startup-{index}-{id}.jsonl"
            );
            metadata.created_at = now - 40 * DAY;
            metadata.updated_at = if index == TOO_FRESH {
                now - HOUR / 2
            } else {
                now - idle_hours * HOUR
            };
            metadata.recency_at = metadata.updated_at;
            metadata.source = source.to_string();
            metadata.history_mode = ThreadHistoryMode::Paginated;
            metadata.thread_source = Some("user".to_string());
            metadata.agent_nickname = Some(format!("startup-{index}"));
            metadata.agent_role = Some("worker".to_string());
            metadata.agent_path = Some(format!("/contract/agents/{index}"));
            metadata.model_provider = "startup-provider".to_string();
            metadata.model = Some("gpt-5.4".to_string());
            metadata.reasoning_effort = Some("high".to_string());
            metadata.cli_version = "1.2.3".to_string();
            let preview = format!("startup preview {index}");
            metadata.title = preview.clone();
            metadata.name = Some(format!("startup name {index}"));
            metadata.preview = Some(preview.clone());
            metadata.sandbox_policy = "read-only".to_string();
            metadata.tokens_used = 100 + index as i64;
            metadata.first_user_message = Some(preview);
            metadata.git_sha = Some(format!("sha-{index}"));
            metadata.git_branch = Some(format!("startup/branch-{index}"));
            metadata.git_origin_url = Some(format!("https://example.test/{index}.git"));
            StartupSeed {
                metadata,
                memory_mode,
            }
        })
        .collect()
}

fn startup_params<'a>(allowed_sources: &'a [String]) -> Stage1StartupClaimParams<'a> {
    Stage1StartupClaimParams {
        scan_limit: 20,
        max_claimed: 10,
        max_age_days: 30,
        min_rollout_idle_hours: 1,
        allowed_sources,
        lease_seconds: 60,
    }
}

fn claimed_thread(claims: &[Stage1JobClaim]) -> Vec<ThreadMetadata> {
    claims.iter().map(|claim| claim.thread.clone()).collect()
}

fn run_stage1_startup_contract(
    runtime: &mut StateRuntime,
    seeds: &[StartupSeed],
) -> Result<(), MemoryStoreError> {
    assert!(
        runtime
            .mark_thread_memory_mode_polluted(seeds[POLLUTED].metadata.id, NOW)?
    );
    assert!(
        !runtime
            .mark_thread_memory_mode_polluted(seeds[POLLUTED].metadata.id, NOW)?
    );

    let allowed_sources = ["cli".to_string()];
    let mut zero_scan = startup_params(&allowed_sources);
    zero_scan.scan_limit = 0;
    assert_eq!(
        runtime
            .claim_stage1_jobs_for_startup(seeds[CURRENT].metadata.id, zero_scan, NOW * 1000).expect("claim at startup"),
        Vec::<Stage1JobClaim>::new()
    );
    let mut one_claim = startup_params(&allowed_sources);
    one_claim.scan_limit = 1;
    one_claim.max_claimed = 1;
    let newest_claims = runtime
        .claim_stage1_jobs_for_startup(seeds[CURRENT].metadata.id, one_claim, NOW * 1000).expect("claim at startup");
    assert_eq!(
        claimed_thread(&newest_claims),
        vec![seeds[NEWEST].metadata.clone()]
    );
    assert!(
        runtime.memories()
            .mark_stage1_job_succeeded_no_output(
                seeds[NEWEST].metadata.id,
                &newest_claims[0].ownership_token,
                NOW,
            )?
    );

    let first_claims = runtime.claim_stage1_jobs_for_startup(
        seeds[CURRENT].metadata.id,
        startup_params(&allowed_sources),
        NOW * 1000,
    ).expect("claim at startup");
    let second_claims = runtime.claim_stage1_jobs_for_startup(
        seeds[CURRENT].metadata.id,
        startup_params(&allowed_sources),
        NOW * 1000,
    ).expect("claim at startup");
    let mut concurrent_threads = claimed_thread(&first_claims);
    concurrent_threads.extend(claimed_thread(&second_claims));
    assert_eq!(concurrent_threads, vec![seeds[OLDER].metadata.clone()]);

    runtime.memories().clear_memory_data().expect("clear memory");
    let reset_claims = runtime
        .claim_stage1_jobs_for_startup(seeds[CURRENT].metadata.id, startup_params(&allowed_sources), NOW * 1000).expect("claim at startup");
    assert_eq!(
        claimed_thread(&reset_claims),
        vec![
            seeds[NEWEST].metadata.clone(),
            seeds[OLDER].metadata.clone(),
        ]
    );

    let newest = reset_claims
        .iter()
        .find(|claim| claim.thread.id == seeds[NEWEST].metadata.id)
        .expect("newest eligible thread should be claimed after reset");
    assert!(
        runtime.memories()
            .mark_stage1_job_succeeded(
                newest.thread.id,
                &newest.ownership_token,
                newest.thread.updated_at / 1000,
                "startup raw memory",
                "startup summary",
                Some("startup-delete"),
                NOW,
            )?
    );
    runtime.memories().delete_thread_memory(newest.thread.id, NOW)?;
    assert!(matches!(
        runtime.memories()
            .try_claim_stage1_job(
                newest.thread.id,
                seeds[CURRENT].metadata.id,
                newest.thread.updated_at / 1000,
                60,
                10,
                NOW,
            ).expect("claim job"),
        Stage1JobClaimOutcome::Claimed { .. }
    ));
    Ok(())
}

fn seed_sqlite(runtime: &mut StateRuntime, seeds: &[StartupSeed]) {
    for seed in seeds {
        runtime.put_thread_row(ThreadRow {
            metadata: seed.metadata.clone(),
            memory_mode: seed.memory_mode.to_string(),
            memory_mode_ordinal: -1,
            stream_version: 0,
            polluted_at_stream_version: None,
            has_rollout_path: true,
        });
    }
}

#[test]
fn sqlite_stage1_startup_satisfies_shared_contract() -> Result<(), MemoryStoreError> {
    let mut runtime = StateRuntime::new(RuntimeStateBackend::Sqlite);
    let seeds = startup_seeds(NOW * 1000);
    seed_sqlite(&mut runtime, &seeds);

    run_stage1_startup_contract(&mut runtime, &seeds)
}
