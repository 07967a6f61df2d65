use codex_state::ExternalAgentConfigImportDetailsRecord;
use codex_state::ExternalAgentConfigImportFailureRecord;
use codex_state::ExternalAgentConfigImportStore;
use codex_state::ExternalAgentConfigImportSuccessRecord;
use codex_state::ExternalAgentMemoryImport;
use codex_state::MemoryArtifact;
use codex_state::MemoryArtifactSet;
use codex_state::Phase2JobClaimOutcome;
use codex_state::RuntimeStateBackend;
use codex_state::StateRuntime;
use codex_state::ThreadId;

const IMPORTED_MEMORY_INSTRUCTIONS_PATH: &str = "extensions/external_agent_import/instructions.md";

#[test]
fn external_agent_memory_import_validates_replacement_scope() {
    let removal = ExternalAgentMemoryImport::new(
        vec!["project-a".to_string()],
        MemoryArtifactSet::new(Vec::new()).expect("valid"),
    ).expect("valid");
    assert_eq!(removal.project_keys(), &["project-a".to_string()]);
    assert_eq!(removal.artifacts(), &MemoryArtifactSet::new(Vec::new()).expect("valid"));

    let outside_scope = MemoryArtifactSet::new(vec![MemoryArtifact::new(
        "extensions/external_agent_import/resources/project-b/MEMORY.md",
        Vec::new(),
    ).expect("valid")]).expect("valid");
    assert!(ExternalAgentMemoryImport::new(vec!["project-a".to_string()], outside_scope).is_err());
    assert!(
        ExternalAgentMemoryImport::new(
            vec!["..".to_string()],
            MemoryArtifactSet::new(Vec::new()).expect("valid"),
        )
        .is_err()
    );
}

#[test]
fn external_agent_memory_import_overlay_applies_later_project_replacements() {
    let first = ExternalAgentMemoryImport::new(
        vec!["project-a".to_string()],
        MemoryArtifactSet::new(vec![
            MemoryArtifact::new(IMPORTED_MEMORY_INSTRUCTIONS_PATH, b"rules".to_vec()).expect("valid"),
            MemoryArtifact::new(
                "extensions/external_agent_import/resources/project-a/MEMORY.md",
                b"alpha".to_vec(),
            ).expect("valid"),
        ]).expect("valid"),
    ).expect("valid");
    let second = ExternalAgentMemoryImport::new(
        vec!["project-b".to_string()],
        MemoryArtifactSet::new(vec![MemoryArtifact::new(
            "extensions/external_agent_import/resources/project-b/MEMORY.md",
            b"bravo".to_vec(),
        ).expect("valid")]).expect("valid"),
    ).expect("valid");
    let remove_first = ExternalAgentMemoryImport::new(
        vec!["project-a".to_string()],
        MemoryArtifactSet::new(Vec::new()).expect("valid"),
    ).expect("valid");

    let merged = first.overlay(second).expect("valid").overlay(remove_first).expect("valid");
    assert_eq!(
        merged
            .artifacts()
            .artifacts()
            .iter()
            .map(MemoryArtifact::path)
            .collect::<Vec<_>>(),
        vec![
            IMPORTED_MEMORY_INSTRUCTIONS_PATH,
            "extensions/external_agent_import/resources/project-b/MEMORY.md",
        ]
    );
    assert_eq!(
        merged.project_keys(),
        &["project-a".to_string(), "project-b".to_string()]
    );
}

fn run_external_agent_config_import_contract(
    store: &mut ExternalAgentConfigImportStore,
) {
    let successes = vec![
        ExternalAgentConfigImportSuccessRecord {
            item_type: "MEMORY".to_string(),
            cwd: Some("/workspace/alpha".to_string()),
            source: Some("project-alpha/MEMORY.md".to_string()),
            target: Some(
                "extensions/external_agent_import/resources/project-alpha/MEMORY.md".to_string(),
            ),
            title: None,
        },
        ExternalAgentConfigImportSuccessRecord {
            item_type: "SKILLS".to_string(),
            cwd: None,
            source: Some("review".to_string()),
            target: Some("review".to_string()),
            title: None,
        },
    ];
    let failures = vec![ExternalAgentConfigImportFailureRecord {
        item_type: "MEMORY".to_string(),
        error_type: Some("memory_import".to_string()),
        sub_error_type: Some("invalid_scope".to_string()),
        failure_stage: "import".to_string(),
        message: "project scope is unavailable".to_string(),
        cwd: Some("/workspace/beta".to_string()),
        source: Some("project-beta".to_string()),
    }];

    store
        .record_completed("import-alpha", &successes, &failures);
    store
        .record_completed("import-alpha", &successes, &failures);

    assert_eq!(
        store.details("import-alpha"),
        Some(ExternalAgentConfigImportDetailsRecord {
            successes: successes.clone(),
            failures: failures.clone(),
        })
    );
    let alpha_completed_at = store.history()[0].completed_at_ms;
    while chrono::Utc::now().timestamp_millis() <= alpha_completed_at {
        std::hint::spin_loop();
    }
    store.record_completed("import-beta", &[], &[]);

    let history = store.history();
    assert_eq!(
        history
            .iter()
            .map(|record| record.import_id.as_str())
            .collect::<Vec<_>>(),
        vec!["import-beta", "import-alpha"]
    );
    assert_eq!(history[0].successes, vec![]);
    assert_eq!(history[0].failures, vec![]);
    assert_eq!(history[1].successes, successes);
    assert_eq!(history[1].failures, failures);
    assert!(history[1].completed_at_ms > 0);
}

#[test]
fn sqlite_matches_external_agent_config_import_contract() {
    let mut runtime = StateRuntime::new(RuntimeStateBackend::Sqlite);

    run_external_agent_config_import_contract(runtime.external_agent_config_imports());
}

#[test]
fn records_completion_by_import_id() {
    let mut runtime = StateRuntime::new(RuntimeStateBackend::Sqlite);

    runtime
        .record_external_agent_config_import_completed(
            "import-1",
            Some("provider-1"),
            &[ExternalAgentConfigImportSuccessRecord {
                item_type: "CONFIG".to_string(),
                cwd: None,
                source: Some("settings.json".to_string()),
                target: Some("config.toml".to_string()),
                title: None,
            }],
            &[],
        );
    runtime
        .record_external_agent_config_import_completed(
            "import-1",
            Some("provider-2"),
            &[
                ExternalAgentConfigImportSuccessRecord {
                    item_type: "CONFIG".to_string(),
                    cwd: None,
                    source: Some("settings.json".to_string()),
                    target: Some("config.toml".to_string()),
                    title: None,
                },
                ExternalAgentConfigImportSuccessRecord {
                    item_type: "MCP_SERVER_CONFIG".to_string(),
                    cwd: None,
                    source: Some("github".to_string()),
                    target: Some("github".to_string()),
                    title: None,
                },
            ],
            &[ExternalAgentConfigImportFailureRecord {
                item_type: "MCP_SERVER_CONFIG".to_string(),
                error_type: None,
                sub_error_type: Some("failed_to_copy_plugin_file".to_string()),
                failure_stage: "import".to_string(),
                message: "failed".to_string(),
                cwd: None,
                source: Some("broken".to_string()),
            }],
        );

    assert_eq!(
        runtime
            .external_agent_config_import_details_record("import-1"),
        Some(ExternalAgentConfigImportDetailsRecord {
            successes: vec![
                ExternalAgentConfigImportSuccessRecord {
                    item_type: "CONFIG".to_string(),
                    cwd: None,
                    source: Some("settings.json".to_string()),
                    target: Some("config.toml".to_string()),
                    title: None,
                },
                ExternalAgentConfigImportSuccessRecord {
                    item_type: "MCP_SERVER_CONFIG".to_string(),
                    cwd: None,
                    source: Some("github".to_string()),
                    target: Some("github".to_string()),
                    title: None,
                }
            ],
            failures: vec![ExternalAgentConfigImportFailureRecord {
                item_type: "MCP_SERVER_CONFIG".to_string(),
                error_type: None,
                sub_error_type: Some("failed_to_copy_plugin_file".to_string()),
                failure_stage: "import".to_string(),
                message: "failed".to_string(),
                cwd: None,
                source: Some("broken".to_string()),
            }],
        })
    );
    assert_eq!(
        runtime
            .external_agent_config_import_history_records()
            .into_iter()
            .map(|record| (
                record.import_id,
                record.provider_id,
                record.successes,
                record.failures,
                record.completed_at_ms > 0
            ))
            .collect::<Vec<_>>(),
        vec![(
            "import-1".to_string(),
            Some("provider-2".to_string()),
            vec![
                ExternalAgentConfigImportSuccessRecord {
                    item_type: "CONFIG".to_string(),
                    cwd: None,
                    source: Some("settings.json".to_string()),
                    target: Some("config.toml".to_string()),
                    title: None,
                },
                ExternalAgentConfigImportSuccessRecord {
                    item_type: "MCP_SERVER_CONFIG".to_string(),
                    cwd: None,
                    source: Some("github".to_string()),
                    target: Some("github".to_string()),
                    title: None,
                }
            ],
            vec![ExternalAgentConfigImportFailureRecord {
                item_type: "MCP_SERVER_CONFIG".to_string(),
                error_type: None,
                sub_error_type: Some("failed_to_copy_plugin_file".to_string()),
                failure_stage: "import".to_string(),
                message: "failed".to_string(),
                cwd: None,
                source: Some("broken".to_string()),
            }],
            true
        )]
    );
}

#[test]
fn reads_all_history_records() {
    let mut runtime = StateRuntime::new(RuntimeStateBackend::Sqlite);

    runtime
        .record_external_agent_config_import_completed(
            "import-1",
            None,
            &[],
            &[],
        );
    runtime
        .record_external_agent_config_import_completed(
            "import-2",
            None,
            &[],
            &[],
        );

    let mut records = runtime
        .external_agent_config_import_history_records();
    records.sort_by(|left, right| left.import_id.cmp(&right.import_id));
    assert_eq!(
        records
            .into_iter()
            .map(|record| record.import_id)
            .collect::<Vec<_>>(),
        vec!["import-1".to_string(), "import-2".to_string()]
    );
}

#[test]
fn sqlite_memory_import_completion_enqueues_consolidation() {
    let mut runtime = StateRuntime::new(RuntimeStateBackend::Sqlite);
    let memory_import = ExternalAgentMemoryImport::new(
        vec!["project-a".to_string()],
        MemoryArtifactSet::new(vec![MemoryArtifact::new(
            "extensions/external_agent_import/resources/project-a/MEMORY.md",
            b"shared".to_vec(),
        ).expect("valid")]).expect("valid"),
    ).expect("valid");

    runtime
        .record_external_agent_config_import_completed_with_memory_import("import-memory", None, &[], &[], &memory_import)
        .expect("valid");

    let claim = runtime
        .memories()
        .try_claim_global_phase2_job(ThreadId { value: uuid::Uuid::new_v4().as_u128() }, 60, chrono::Utc::now().timestamp()).expect("claim global job");
    let Phase2JobClaimOutcome::Claimed {
        input_watermark, ..
    } = claim
    else {
        panic!("expected memory import consolidation claim, got {claim:?}");
    };
    assert!(input_watermark > 0);
}
