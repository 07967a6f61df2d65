use codex_state::memory_store::canonical_memory_mode;
use codex_state::rows::datetime_from_epoch_seconds;
use codex_state::rows::decode_thread_ids;
use codex_state::rows::epoch_millis_to_datetime;
use codex_state::rows::row_of_thread_goal;
use codex_state::rows::stage1_output_from_row;
use codex_state::rows::state_from_row;
use codex_state::rows::thread_goal_from_row;
use codex_state::BackfillState;
use codex_state::BackfillStateRow;
use codex_state::BackfillStatus;
use codex_state::HistoryItem;
use codex_state::RowError;
use codex_state::Stage1Output;
use codex_state::Stage1OutputJoinRow;
use codex_state::ThreadGoal;
use codex_state::ThreadGoalRow;
use codex_state::ThreadGoalStatus;
use codex_state::ThreadId;

const TEXT: &str = "0198c4cf-8587-7d32-8d1c-2c14d331f10a";
const THREAD: ThreadId = ThreadId { value: 0x0198_c4cf_8587_7d32_8d1c_2c14_d331_f10a };

fn stored_goal() -> ThreadGoal {
    ThreadGoal {
        thread_id: THREAD,
        goal_id: "goal".to_string(),
        objective: "objective".to_string(),
        status: ThreadGoalStatus::UsageLimited,
        token_budget: Some(7),
        tokens_used: 3,
        time_used_seconds: 4,
        created_at: 5,
        updated_at: 6,
    }
}

fn goal_row() -> ThreadGoalRow {
    row_of_thread_goal(&stored_goal())
}

#[test]
fn goal_is_read_back_from_its_row() {
    let row = goal_row();
    assert_eq!(row.thread_id, TEXT);
    assert_eq!(row.status, "usage_limited");
    assert_eq!(thread_goal_from_row(&row), Ok(stored_goal()));
}

#[test]
fn rows_that_store_no_goal_are_refused() {
    let unknown = ThreadGoalRow { thread_id: "thread-1".to_string(), ..goal_row() };
    assert_eq!(thread_goal_from_row(&unknown), Err(RowError::ThreadId));
    let unnamed = ThreadGoalRow { status: "done".to_string(), ..goal_row() };
    assert_eq!(thread_goal_from_row(&unnamed), Err(RowError::Status));
    let timeless = ThreadGoalRow { updated_at_ms: i64::MAX, ..goal_row() };
    assert_eq!(thread_goal_from_row(&timeless), Err(RowError::Timestamp(i64::MAX)));
    let early = ThreadGoalRow { created_at_ms: i64::MIN, ..goal_row() };
    assert_eq!(thread_goal_from_row(&early), Err(RowError::Timestamp(i64::MIN)));
}

#[test]
fn row_errors_have_texts() {
    assert_eq!(RowError::Timestamp(-12).message(), "invalid unix timestamp: -12");
    assert_eq!(RowError::Timestamp(i64::MIN).message(), "invalid unix timestamp: -9223372036854775808");
    assert_eq!(RowError::ThreadId.message(), "invalid thread id");
    assert_eq!(RowError::Status.message(), "unknown status");
}

#[test]
fn times_end_where_the_calendar_ends() {
    assert_eq!(epoch_millis_to_datetime(8_210_266_876_799_999), Ok(8_210_266_876_799_999));
    assert!(epoch_millis_to_datetime(8_210_266_876_800_000).is_err());
    assert_eq!(epoch_millis_to_datetime(-8_334_601_228_800_000), Ok(-8_334_601_228_800_000));
    assert!(epoch_millis_to_datetime(-8_334_601_228_800_001).is_err());
    assert_eq!(datetime_from_epoch_seconds(8_210_266_876_799), Ok(8_210_266_876_799));
    assert!(datetime_from_epoch_seconds(8_210_266_876_800).is_err());
    assert_eq!(datetime_from_epoch_seconds(-8_334_601_228_800), Ok(-8_334_601_228_800));
    assert!(datetime_from_epoch_seconds(-8_334_601_228_801).is_err());
}

#[test]
fn backfill_states_are_read() {
    let row = BackfillStateRow {
        status: "complete".to_string(),
        last_watermark: Some("sessions/a".to_string()),
        last_success_at: Some(12),
    };
    assert_eq!(
        state_from_row(&row),
        Ok(BackfillState {
            status: BackfillStatus::Complete,
            last_watermark: Some("sessions/a".to_string()),
            last_success_at: Some(12),
        })
    );
    let unnamed = BackfillStateRow { status: "done".to_string(), last_watermark: None, last_success_at: None };
    assert_eq!(state_from_row(&unnamed), Err(RowError::Status));
    let timeless = BackfillStateRow { status: "running".to_string(), last_watermark: None, last_success_at: Some(i64::MAX) };
    assert_eq!(state_from_row(&timeless), Err(RowError::Timestamp(i64::MAX)));
    for status in [BackfillStatus::Pending, BackfillStatus::Running, BackfillStatus::Complete] {
        assert_eq!(BackfillStatus::parse(status.as_str()), Some(status));
    }
}

fn join_row() -> Stage1OutputJoinRow {
    Stage1OutputJoinRow {
        thread_id: TEXT.to_string(),
        rollout_path: "/rollout.jsonl".to_string(),
        source_updated_at: 10,
        raw_memory: "raw".to_string(),
        rollout_summary: "summary".to_string(),
        rollout_slug: None,
        cwd: "/workspace".to_string(),
        git_branch: Some("main".to_string()),
        generated_at: 20,
    }
}

#[test]
fn outputs_are_read() {
    assert_eq!(
        stage1_output_from_row(&join_row()),
        Ok(Stage1Output {
            thread_id: THREAD,
            rollout_path: "/rollout.jsonl".to_string(),
            source_updated_at: 10,
            raw_memory: "raw".to_string(),
            rollout_summary: "summary".to_string(),
            rollout_slug: None,
            cwd: "/workspace".to_string(),
            git_branch: Some("main".to_string()),
            generated_at: 20,
        })
    );
    let unknown = Stage1OutputJoinRow { thread_id: String::new(), ..join_row() };
    assert_eq!(stage1_output_from_row(&unknown), Err(RowError::ThreadId));
    let timeless = Stage1OutputJoinRow { generated_at: i64::MAX, ..join_row() };
    assert_eq!(stage1_output_from_row(&timeless), Err(RowError::Timestamp(i64::MAX)));
}

#[test]
fn identifiers_are_read_and_ordered_as_texts() {
    let texts = [
        TEXT.to_string(),
        "00000000-0000-0000-0000-000000000001".to_string(),
        "ffffffff-ffff-ffff-ffff-ffffffffffff".to_string(),
    ];
    let ids = decode_thread_ids(&texts).expect("identifiers");
    assert_eq!(ids, vec![THREAD, ThreadId { value: 1 }, ThreadId { value: u128::MAX }]);
    for (a, x) in texts.iter().zip(&ids) {
        for (b, y) in texts.iter().zip(&ids) {
            assert_eq!(a < b, x.value < y.value);
        }
    }
    assert_eq!(decode_thread_ids(&["thread".to_string()]), Err(RowError::ThreadId));
}

fn item(ordinal: i64, payload_id: Option<&str>, memory_mode: Option<&str>) -> HistoryItem {
    HistoryItem {
        ordinal,
        item_type: "session_meta".to_string(),
        payload_id: payload_id.map(str::to_string),
        memory_mode: memory_mode.map(str::to_string),
    }
}

#[test]
fn last_record_of_the_thread_decides_its_memory_mode() {
    assert_eq!(canonical_memory_mode(&[], THREAD), ("enabled".to_string(), -1));
    let mut items = vec![item(0, Some(TEXT), Some("disabled")), item(1, Some(TEXT), Some("polluted"))];
    assert_eq!(canonical_memory_mode(&items, THREAD), ("polluted".to_string(), 1));
    items.push(item(2, Some("0198c4cf-8587-7d32-8d1c-2c14d331f10b"), Some("enabled")));
    items.push(item(3, Some(TEXT), None));
    items.push(HistoryItem { item_type: "turn".to_string(), ..item(4, Some(TEXT), Some("enabled")) });
    assert_eq!(canonical_memory_mode(&items, THREAD), ("polluted".to_string(), 1));
    items.push(item(5, Some(TEXT), Some("enabled")));
    assert_eq!(canonical_memory_mode(&items, THREAD), ("enabled".to_string(), 5));
}
