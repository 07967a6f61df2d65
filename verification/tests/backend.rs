use codex_state::PostgresNamespaceConfig;
use codex_state::RemoteControlEnrollmentRecord;
use codex_state::RuntimeStateBackendConfig;
use codex_state::SqliteConfig;
use codex_state::StateRuntime;
use codex_state::ThreadId;

fn run_runtime_state_smoke_contract(config: RuntimeStateBackendConfig) {
    let expected_local_rollout_history = !config.is_postgresql();
    let mut runtime = StateRuntime::new(config.backend());
    assert_eq!(
        runtime.uses_local_rollout_history(),
        expected_local_rollout_history
    );
    runtime.backfill_coordinator().state().expect("open store");
    assert_eq!(
        runtime.find_rollout_path_by_id(ThreadId { value: uuid::Uuid::new_v4().as_u128() }, None),
        None
    );

    let enrollment = RemoteControlEnrollmentRecord {
        websocket_url: "wss://example.com/runtime-state-contract".to_string(),
        account_id: "contract-account".to_string(),
        app_server_client_name: Some("contract-client".to_string()),
        server_id: "contract-server".to_string(),
        environment_id: "contract-environment".to_string(),
        server_name: "Runtime State Contract".to_string(),
        remote_control_enabled: Some(true),
    };
    runtime
        .upsert_remote_control_enrollment(&enrollment)
        .expect("open store");
    let persisted_enrollment = runtime
        .get_remote_control_enrollment(
            &enrollment.websocket_url,
            &enrollment.account_id,
            enrollment.app_server_client_name.as_deref(),
        )
        .expect("open store");

    runtime.close();
    assert_eq!(persisted_enrollment, Some(enrollment));
}

#[test]
fn sqlite_satisfies_runtime_state_smoke_contract() {
    run_runtime_state_smoke_contract(RuntimeStateBackendConfig::Sqlite(SqliteConfig {
        sqlite_home: "/home/contract".to_string(),
    }));
}

#[test]
fn postgres_contract_satisfies_runtime_state_smoke_without_local_filesystem_access() {
    run_runtime_state_smoke_contract(RuntimeStateBackendConfig::Postgresql {
        codex_home: "/home/contract".to_string(),
        namespace: PostgresNamespaceConfig {
            database_url: "postgres://localhost/contract".to_string(),
            schema: "runtime_backend".to_string(),
        },
    });
}
