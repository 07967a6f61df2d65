use codex_state::MemoryStore;
use codex_state::MemoryStoreError;
use codex_state::RuntimeStateBackend;
use codex_state::Stage1Output;
use codex_state::Stage1OutputRow;
use codex_state::StateRuntime;
use codex_state::Table;
use codex_state::ThreadHistoryMode;
use codex_state::ThreadId;
use codex_state::ThreadMetadata;

/// The time of every operation, in seconds.
const NOW: i64 = 1_800_000_000;

fn thread_id(text: &str) -> ThreadId {
    ThreadId { value: uuid::Uuid::parse_str(text).expect("valid thread id").as_u128() }
}

fn test_thread_metadata(id: ThreadId) -> ThreadMetadata {
    ThreadMetadata {
        id,
        rollout_path: "rollout.jsonl".to_string(),
        created_at: 1_700_000_000_000,
        updated_at: 1_700_000_000_000,
        recency_at: 1_700_000_000_000,
        source: "cli".to_string(),
        history_mode: ThreadHistoryMode::Legacy,
        thread_source: None,
        agent_nickname: None,
        agent_role: None,
        agent_path: None,
        model_provider: "test-provider".to_string(),
        model: None,
        reasoning_effort: None,
        cwd: "/workspace".to_string(),
        cli_version: "0.0.0".to_string(),
        title: String::new(),
        name: None,
        preview: Some("hello".to_string()),
        sandbox_policy: "read-only".to_string(),
        approval_mode: "on-request".to_string(),
        tokens_used: 0,
        first_user_message: Some("hello".to_string()),
        archived_at: None,
        section: None,
        section_position: None,
        section_entered_at: None,
        is_pinned: false,
        git_sha: None,
        git_branch: None,
        git_origin_url: None,
        repository_identity: None,
    }
}

const USED: usize = 0;
const FRESH: usize = 1;
const FRESH_TIE: usize = 2;
const SELECTED_BASELINE: usize = 5;

struct OutputSeed {
    output: Stage1Output,
    usage_count: Option<i64>,
    last_usage: Option<i64>,
    selected_for_phase2: bool,
    enabled: bool,
}

fn contract_seeds() -> Vec<OutputSeed> {
    let specifications = [
        (
            "0198c4cf-8587-7d32-8d1c-2c14d331f101",
            2_000_000_001,
            None,
            None,
            false,
            true,
        ),
        (
            "0198c4cf-8587-7d32-8d1c-2c14d331f102",
            2_000_000_002,
            None,
            None,
            false,
            true,
        ),
        (
            "0198c4cf-8587-7d32-8d1c-2c14d331f103",
            2_000_000_002,
            None,
            None,
            false,
            true,
        ),
        (
            "0198c4cf-8587-7d32-8d1c-2c14d331f104",
            1_000_000_002,
            None,
            None,
            false,
            true,
        ),
        (
            "0198c4cf-8587-7d32-8d1c-2c14d331f105",
            1_900_000_000,
            Some(5),
            Some(1_000_000_001),
            false,
            true,
        ),
        (
            "0198c4cf-8587-7d32-8d1c-2c14d331f106",
            1_000_000_003,
            None,
            None,
            true,
            true,
        ),
        (
            "0198c4cf-8587-7d32-8d1c-2c14d331f107",
            2_100_000_000,
            None,
            None,
            false,
            false,
        ),
    ];
    specifications
        .into_iter()
        .enumerate()
        .map(
            |(
                index,
                (
                    id,
                    source_updated_at,
                    usage_count,
                    last_usage,
                    selected_for_phase2,
                    enabled,
                ),
            )| {
                OutputSeed {
                    output: Stage1Output {
                        thread_id: thread_id(id),
                        rollout_path: format!(
                            "/contract/rollouts/output-{index}.jsonl"
                        ),
                        source_updated_at: source_updated_at,
                        raw_memory: format!("raw memory {index}"),
                        rollout_summary: format!("rollout summary {index}"),
                        rollout_slug: if index % 2 == 0 { Some(format!("output-{index}")) } else { None },
                        cwd: format!("/contract/workspaces/workspace-{index}"),
                        git_branch: Some(format!("contract/branch-{index}")),
                        generated_at: source_updated_at + 10,
                    },
                    usage_count,
                    last_usage,
                    selected_for_phase2,
                    enabled,
                }
            },
        )
        .collect()
}

fn run_stage1_output_data_contract(
    runtime: &mut StateRuntime,
    seeds: &[OutputSeed],
) -> Result<(), MemoryStoreError> {
    assert_eq!(
        runtime.list_stage1_outputs_for_global(0).expect("list outputs"),
        Vec::<Stage1Output>::new()
    );
    assert_eq!(
        runtime.list_stage1_outputs_for_global(2).expect("list outputs"),
        vec![seeds[FRESH_TIE].output.clone(), seeds[FRESH].output.clone()]
    );

    let missing = thread_id("0198c4cf-8587-7d32-8d1c-2c14d331f108");
    assert_eq!(
        runtime.memories()
            .record_stage1_output_usage(&[
                seeds[USED].output.thread_id,
                seeds[USED].output.thread_id,
                seeds[FRESH].output.thread_id,
                missing,
            ], NOW)?,
        3
    );
    let expected_candidates = vec![
        seeds[USED].output.clone(),
        seeds[FRESH].output.clone(),
        seeds[FRESH_TIE].output.clone(),
    ];
    assert_eq!(
        runtime
            .get_phase2_input_selection(10, 30, NOW)?,
        expected_candidates
    );

    assert_eq!(
        runtime.memories()
            .prune_stage1_outputs_for_retention(30, 1, NOW)?,
        1
    );
    assert_eq!(
        runtime.memories()
            .prune_stage1_outputs_for_retention(30, 100, NOW)?,
        1
    );
    assert_eq!(
        runtime.memories()
            .prune_stage1_outputs_for_retention(30, 100, NOW)?,
        0
    );
    assert_eq!(
        runtime.list_stage1_outputs_for_global(100).expect("list outputs"),
        vec![
            seeds[FRESH_TIE].output.clone(),
            seeds[FRESH].output.clone(),
            seeds[USED].output.clone(),
            seeds[SELECTED_BASELINE].output.clone(),
        ]
    );
    assert_eq!(
        runtime
            .get_phase2_input_selection(10, 30, NOW)?,
        expected_candidates
    );
    Ok(())
}

fn seed_sqlite(runtime: &mut StateRuntime, seeds: &[OutputSeed]) {
    let mut outputs = Table::new();
    for seed in seeds {
        let mut metadata = test_thread_metadata(seed.output.thread_id);
        metadata.cwd = seed.output.cwd.clone();
        metadata.rollout_path = seed.output.rollout_path.clone();
        metadata.git_branch = seed.output.git_branch.clone();
        runtime
            .upsert_thread(&metadata)
            .expect("test thread should be upserted");
        if !seed.enabled {
            runtime
                .set_thread_memory_mode(seed.output.thread_id, "polluted")
                .expect("memory mode should be set");
        }
        outputs.put(Stage1OutputRow {
            thread_id: seed.output.thread_id,
            source_updated_at: seed.output.source_updated_at,
            raw_memory: seed.output.raw_memory.clone(),
            rollout_summary: seed.output.rollout_summary.clone(),
            rollout_slug: seed.output.rollout_slug.clone(),
            generated_at: seed.output.generated_at,
            usage_count: seed.usage_count,
            last_usage: seed.last_usage,
            selected_for_phase2: seed.selected_for_phase2,
            selected_for_phase2_source_updated_at: seed
                .selected_for_phase2
                .then_some(seed.output.source_updated_at),
        });
    }
    *runtime.memories() = MemoryStore::from_rows(RuntimeStateBackend::Sqlite, Table::new(), None, outputs, Vec::new());
}

#[test]
fn sqlite_stage1_output_data_satisfies_shared_contract() -> Result<(), MemoryStoreError> {
    let mut runtime = StateRuntime::new(RuntimeStateBackend::Sqlite);
    let seeds = contract_seeds();
    seed_sqlite(&mut runtime, &seeds);

    run_stage1_output_data_contract(&mut runtime, &seeds)
}
