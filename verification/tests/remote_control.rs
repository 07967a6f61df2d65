use codex_state::EnrollmentError;
use codex_state::RemoteControlEnrollmentRecord;
use codex_state::RemoteControlEnrollmentStore;
use codex_state::RuntimeStateBackend;
use codex_state::StateRuntime;

#[test]
fn remote_control_enrollment_round_trips_by_target_and_account() {
    let mut runtime = StateRuntime::new(RuntimeStateBackend::Sqlite);

    runtime
        .upsert_remote_control_enrollment(&RemoteControlEnrollmentRecord {
            websocket_url: "wss://example.com/backend-api/wham/remote/control/server"
                .to_string(),
            account_id: "account-a".to_string(),
            app_server_client_name: Some("desktop-client".to_string()),
            server_id: "srv_e_first".to_string(),
            environment_id: "env_first".to_string(),
            server_name: "first-server".to_string(),
            remote_control_enabled: Some(false),
        })
        .expect("insert first enrollment");
    runtime
        .upsert_remote_control_enrollment(&RemoteControlEnrollmentRecord {
            websocket_url: "wss://example.com/backend-api/wham/remote/control/server"
                .to_string(),
            account_id: "account-b".to_string(),
            app_server_client_name: Some("desktop-client".to_string()),
            server_id: "srv_e_second".to_string(),
            environment_id: "env_second".to_string(),
            server_name: "second-server".to_string(),
            remote_control_enabled: Some(true),
        })
        .expect("insert second enrollment");

    assert_eq!(
        runtime
            .get_remote_control_enrollment(
                "wss://example.com/backend-api/wham/remote/control/server",
                "account-a",
                Some("desktop-client"),
            )
            .expect("load first enrollment"),
        Some(RemoteControlEnrollmentRecord {
            websocket_url: "wss://example.com/backend-api/wham/remote/control/server"
                .to_string(),
            account_id: "account-a".to_string(),
            app_server_client_name: Some("desktop-client".to_string()),
            server_id: "srv_e_first".to_string(),
            environment_id: "env_first".to_string(),
            server_name: "first-server".to_string(),
            remote_control_enabled: Some(false),
        })
    );
    assert_eq!(
        runtime
            .get_remote_control_enrollment(
                "wss://example.com/backend-api/wham/remote/control/server",
                "account-missing",
                Some("desktop-client"),
            )
            .expect("load missing enrollment"),
        None
    );
    assert_eq!(
        runtime
            .get_remote_control_enrollment(
                "wss://example.com/backend-api/wham/remote/control/server",
                "account-a",
                Some("other-client"),
            )
            .expect("load wrong client enrollment"),
        None
    );
}

#[test]
fn delete_remote_control_enrollment_removes_only_matching_entry() {
    let mut runtime = StateRuntime::new(RuntimeStateBackend::Sqlite);

    runtime
        .upsert_remote_control_enrollment(&RemoteControlEnrollmentRecord {
            websocket_url: "wss://example.com/backend-api/wham/remote/control/server"
                .to_string(),
            account_id: "account-a".to_string(),
            app_server_client_name: None,
            server_id: "srv_e_first".to_string(),
            environment_id: "env_first".to_string(),
            server_name: "first-server".to_string(),
            remote_control_enabled: Some(false),
        })
        .expect("insert first enrollment");
    runtime
        .upsert_remote_control_enrollment(&RemoteControlEnrollmentRecord {
            websocket_url: "wss://example.com/backend-api/wham/remote/control/server"
                .to_string(),
            account_id: "account-b".to_string(),
            app_server_client_name: None,
            server_id: "srv_e_second".to_string(),
            environment_id: "env_second".to_string(),
            server_name: "second-server".to_string(),
            remote_control_enabled: Some(true),
        })
        .expect("insert second enrollment");

    assert_eq!(
        runtime
            .delete_remote_control_enrollment(
                "wss://example.com/backend-api/wham/remote/control/server",
                "account-a",
                None,
            )
            .expect("delete first enrollment"),
        1
    );
    assert_eq!(
        runtime
            .get_remote_control_enrollment(
                "wss://example.com/backend-api/wham/remote/control/server",
                "account-a",
                None,
            )
            .expect("load deleted enrollment"),
        None
    );
    assert_eq!(
        runtime
            .get_remote_control_enrollment(
                "wss://example.com/backend-api/wham/remote/control/server",
                "account-b",
                None,
            )
            .expect("load retained enrollment"),
        Some(RemoteControlEnrollmentRecord {
            websocket_url: "wss://example.com/backend-api/wham/remote/control/server"
                .to_string(),
            account_id: "account-b".to_string(),
            app_server_client_name: None,
            server_id: "srv_e_second".to_string(),
            environment_id: "env_second".to_string(),
            server_name: "second-server".to_string(),
            remote_control_enabled: Some(true),
        })
    );
}

#[test]
fn remote_control_facade_errors_are_backend_independent_and_sanitized() {
    let mut runtime = StateRuntime::new(RuntimeStateBackend::Sqlite);
    let store = runtime.remote_control_enrollment_store();
    store.close();

    let error = store
        .get(
            "wss://example.com/backend-api/wham/remote/control/server",
            "account-a",
            None,
        )
        .expect_err("closed enrollment persistence should fail without backend details");
    let message = error.message();
    assert_eq!(
        message,
        "Runtime State could not complete the `get remote control enrollment` operation; verify enrollment persistence health, then retry"
    );
    for backend_term in ["postgres", "sqlite", "sql"] {
        assert!(!message.to_ascii_lowercase().contains(backend_term));
    }
}

const WEBSOCKET_URL: &str = "wss://example.com/backend-api/wham/remote/control/server";

fn enrollment(
    server_id: &str,
    environment_id: &str,
    server_name: &str,
    remote_control_enabled: Option<bool>,
) -> RemoteControlEnrollmentRecord {
    RemoteControlEnrollmentRecord {
        websocket_url: WEBSOCKET_URL.to_string(),
        account_id: "account-a".to_string(),
        app_server_client_name: None,
        server_id: server_id.to_string(),
        environment_id: environment_id.to_string(),
        server_name: server_name.to_string(),
        remote_control_enabled,
    }
}

fn load(
    store: &RemoteControlEnrollmentStore,
) -> Result<Option<RemoteControlEnrollmentRecord>, EnrollmentError> {
    store
        .get(
            WEBSOCKET_URL,
            "account-a",
            None,
        )
}

fn run_remote_control_enrollment_contract(
    store: &mut RemoteControlEnrollmentStore,
) -> Result<(), EnrollmentError> {
    assert_eq!(load(store)?, None);

    let original = enrollment("server-first", "environment-first", "First", Some(false));
    store.upsert(&original)?;
    assert_eq!(load(store)?, Some(original.clone()));

    let replacement = enrollment("server-second", "environment-second", "Second", Some(true));
    store.upsert(&replacement)?;
    let replacement_with_preserved_preference = RemoteControlEnrollmentRecord {
        remote_control_enabled: Some(false),
        ..replacement
    };
    assert_eq!(
        load(store)?,
        Some(replacement_with_preserved_preference.clone())
    );

    assert_eq!(
        store
            .set_enabled(
                WEBSOCKET_URL,
                "account-a",
                None,
                true,
            )?,
        1
    );
    assert_eq!(
        load(store)?,
        Some(RemoteControlEnrollmentRecord {
            remote_control_enabled: Some(true),
            ..replacement_with_preserved_preference
        })
    );
    assert_eq!(
        store
            .delete(
                WEBSOCKET_URL,
                "account-a",
                None
            )?,
        1
    );
    assert_eq!(load(store)?, None);
    Ok(())
}

#[test]
fn sqlite_remote_control_enrollments_satisfy_shared_contract() -> Result<(), EnrollmentError> {
    let mut runtime = StateRuntime::new(RuntimeStateBackend::Sqlite);

    run_remote_control_enrollment_contract(runtime.remote_control_enrollment_store())
}
