//! The stores beside the threads: goals, memory, logs, backfill, imports and enrollments.

use super::StateRuntime;
use super::StateRuntimeView;
use crate::backfill::completed_row;
use crate::backfill::refuses_closed;
use crate::backfill::is_slot_free;
use crate::backfill::progress;
use crate::backfill::running_row;
use crate::backfill::BackfillCoordinator;
use crate::backfill::BackfillCoordinatorView;
use crate::backfill::BackfillError;
use crate::backfill::BackfillOperation;
use crate::backfill::BackfillRowView;
use crate::backfill::BackfillState;
use crate::backend::RuntimeStateBackend;
use crate::external_agent_config_imports::memory_completion;
use crate::external_agent_config_imports::store::is_history_of;
use crate::external_agent_config_imports::AllImports;
use crate::external_agent_config_imports::CompletionView;
use crate::external_agent_config_imports::ExternalAgentConfigImportDetailsRecord;
use crate::external_agent_config_imports::ExternalAgentConfigImportFailureRecord;
use crate::external_agent_config_imports::ExternalAgentConfigImportHistoryRecord;
use crate::external_agent_config_imports::ExternalAgentConfigImportStore;
use crate::external_agent_config_imports::ExternalAgentConfigImportSuccessRecord;
use crate::external_agent_config_imports::ExternalAgentMemoryImport;
use crate::external_agent_config_imports::ImportRecordError;
use crate::external_agent_config_imports::ImportRow;
use crate::external_agent_config_imports::ImportRowView;
use crate::external_agent_config_imports::LatestFirst;
use crate::goals::GoalStore;
use crate::goals::GoalStoreView;
use crate::log_store::feedback::reads_feedback;
use crate::log_store::insert::inserting;
use crate::log_store::insert::maintaining;
use crate::log_store::query::log_row;
use crate::log_store::query::is_greatest_id;
use crate::log_store::query::matching_logs;
use crate::log_store::query::queried_logs;
use crate::log_store::LogEntry;
use crate::log_store::LogQuery;
use crate::log_store::LogRow;
use crate::log_store::LogStoreError;
use crate::log_store::LogStoreView;
use crate::log_store::StoredLog;
use crate::memory_store::MemoryStore;
use crate::memory_store::MemoryStoreView;
use crate::outside::now_millis;
use crate::outside::thread_id_text;
use crate::outside::uuid_text;
use crate::remote_control::enrollment_key;
use crate::remote_control::merged_enrollment;
use crate::remote_control::EnrollmentError;
use crate::remote_control::EnrollmentOperation;
use crate::remote_control::EnrollmentStoreView;
use crate::remote_control::EnrollmentView;
use crate::remote_control::RemoteControlEnrollmentRecord;
use crate::remote_control::RemoteControlEnrollmentStore;
use crate::table::is_full_listing;
use crate::table::keyed_at;
use crate::table::Row;
use crate::text::holds_text;
use crate::text::str_view;
use crate::thread_id::opt_view;
use crate::thread_id::ThreadId;
use crate::threads::ThreadRow;
use crate::time::whole_seconds_of;
use vstd::prelude::*;

verus! {

/// `texts` holds the texts of the identifiers of the threads that exist.
pub open spec fn is_canonical_list(threads: Map<ThreadId, ThreadRow>, texts: Seq<String>) -> bool {
    forall|text: Seq<char>| #[trigger] holds_text(texts, text) <==> is_thread_text(threads, text)
}

/// The text is that of the identifier of a thread that exists.
pub open spec fn is_thread_text(threads: Map<ThreadId, ThreadRow>, text: Seq<char>) -> bool {
    exists|id: ThreadId| #[trigger] threads.contains_key(id) && uuid_text(id.value) == text
}

/// The state with another row of the backfill.
pub open spec fn with_backfill_row(state: StateRuntimeView, row: BackfillRowView) -> StateRuntimeView {
    StateRuntimeView { backfill: BackfillCoordinatorView { row, ..state.backfill }, ..state }
}

impl StateRuntime {
    /// Whether files on this machine hold the history of threads.
    pub fn uses_local_rollout_history(&self) -> (local: bool)
        ensures
            local == self@.backend is Sqlite,
    {
        self.is_local()
    }

    /// Closes the stores that can be closed. Their operations fail from now on.
    pub fn close(&mut self)
        ensures
            final(self)@ == (StateRuntimeView {
                goals: GoalStoreView { closed: true, ..old(self)@.goals },
                backfill: BackfillCoordinatorView { closed: true, ..old(self)@.backfill },
                enrollments: EnrollmentStoreView { closed: true, ..old(self)@.enrollments },
                memories: MemoryStoreView { closed: true, ..old(self)@.memories },
                logs: LogStoreView { closed: true, ..old(self)@.logs },
                ..old(self)@
            }),
    {
        self.memories.close();
        self.logs.close();
        self.goals.close();
        self.backfill.close();
        self.enrollments.close();
    }

    /// The goals of threads.
    pub fn thread_goals(&mut self) -> (goals: &mut GoalStore)
        ensures
            goals@ == old(self)@.goals,
            final(self)@ == (StateRuntimeView { goals: final(goals)@, ..old(self)@ }),
    {
        &mut self.goals
    }

    /// The memory.
    pub fn memories(&mut self) -> (memories: &mut MemoryStore)
        ensures
            memories@ == old(self)@.memories,
            final(self)@ == (StateRuntimeView { memories: final(memories)@, ..old(self)@ }),
    {
        &mut self.memories
    }

    /// The coordinator of the backfill.
    pub fn backfill_coordinator(&mut self) -> (backfill: &mut BackfillCoordinator)
        ensures
            backfill@ == old(self)@.backfill,
            final(self)@ == (StateRuntimeView { backfill: final(backfill)@, ..old(self)@ }),
    {
        &mut self.backfill
    }

    /// The completed imports.
    pub fn external_agent_config_imports(&mut self) -> (imports: &mut ExternalAgentConfigImportStore)
        ensures
            imports@ == old(self)@.imports,
            final(self)@ == (StateRuntimeView { imports: final(imports)@, ..old(self)@ }),
    {
        &mut self.imports
    }

    /// The enrollments for remote control.
    pub fn remote_control_enrollment_store(&mut self) -> (enrollments: &mut RemoteControlEnrollmentStore)
        ensures
            enrollments@ == old(self)@.enrollments,
            final(self)@ == (StateRuntimeView { enrollments: final(enrollments)@, ..old(self)@ }),
    {
        &mut self.enrollments
    }

    /// The texts of the identifiers of the threads that exist.
    fn canonical_thread_ids(&self) -> (texts: Vec<String>)
        ensures
            is_canonical_list(self@.threads, texts@),
    {
        let mut texts: Vec<String> = Vec::new();
        let size: usize = self.threads.len();
        let mut i: usize = 0;
        while i < size
            invariant
                i <= size,
                size == self.threads.rows().len(),
                texts@.len() == i,
                forall|k: int| 0 <= k < i ==> (#[trigger] texts@[k])@ == uuid_text(self.threads.rows()[k].metadata.id.value),
            decreases size - i,
        {
            let row = self.threads.at(i);
            texts.push(thread_id_text(row.metadata.id));
            i += 1;
        }
        proof {
            crate::table::lemma_rows(self.threads);
            assert forall|text: Seq<char>| #[trigger] holds_text(texts@, text) <==> is_thread_text(self@.threads, text) by {
                if holds_text(texts@, text) {
                    let k = choose|k: int| 0 <= k < texts@.len() && #[trigger] texts@[k]@ == text;
                    let row = self.threads.rows()[k];
                    assert(self@.threads.contains_key(ThreadRow::key_of(row)));
                }
                if is_thread_text(self@.threads, text) {
                    let id = choose|id: ThreadId| #[trigger] self@.threads.contains_key(id) && uuid_text(id.value) == text;
                    let k = choose|k: int| #[trigger] keyed_at::<ThreadRow>(self.threads.rows(), id, k) && self.threads.rows()[k] == self@.threads[id];
                    assert(texts@[k]@ == text);
                }
            }
        }
        texts
    }

    /// Records a log.
    pub fn insert_log(&mut self, entry: &LogEntry) -> (result: Result<(), LogStoreError>)
        ensures
            exists|canonical: Seq<String>| is_canonical_list(old(self)@.threads, canonical) && {
                let (logs, expected) = #[trigger] inserting(old(self)@.logs, seq![*entry], canonical);
                result == expected && final(self)@ == (StateRuntimeView { logs, ..old(self)@ })
            },
    {
        let canonical = self.canonical_thread_ids();
        let result = self.logs.insert_log(entry, canonical.as_slice());
        assert(is_canonical_list(old(self)@.threads, canonical@) && (self@.logs, result) == inserting(old(self)@.logs, seq![*entry], canonical@));
        result
    }

    /// Records logs.
    pub fn insert_logs(&mut self, entries: &[LogEntry]) -> (result: Result<(), LogStoreError>)
        ensures
            exists|canonical: Seq<String>| is_canonical_list(old(self)@.threads, canonical) && {
                let (logs, expected) = #[trigger] inserting(old(self)@.logs, entries@, canonical);
                result == expected && final(self)@ == (StateRuntimeView { logs, ..old(self)@ })
            },
    {
        let canonical = self.canonical_thread_ids();
        let result = self.logs.insert_logs(entries, canonical.as_slice());
        assert(is_canonical_list(old(self)@.threads, canonical@) && (self@.logs, result) == inserting(old(self)@.logs, entries@, canonical@));
        result
    }

    /// Drops the logs older than the time for which logs are kept.
    pub fn run_logs_startup_maintenance(&mut self) -> (result: Result<(), LogStoreError>)
        ensures
            exists|now: i64| {
                let (logs, expected) = #[trigger] maintaining(old(self)@.logs, now);
                result == expected && final(self)@ == (StateRuntimeView { logs, ..old(self)@ })
            },
    {
        let result = self.logs.run_startup_maintenance();
        assert(exists|now: i64| (self@.logs, result) == #[trigger] maintaining(old(self)@.logs, now));
        result
    }

    /// The wanted logs.
    pub fn query_logs(&self, query: &LogQuery) -> (result: Result<Vec<LogRow>, LogStoreError>)
        ensures
            match result {
                Ok(rows) => {
                    !self@.logs.closed && rows@ == queried_logs(self@.logs, *query).map_values(|row: StoredLog| log_row(row))
                },
                Err(error) => self@.logs.closed && error == LogStoreError::Closed,
            },
    {
        self.logs.query_logs(query)
    }

    /// The text of the logs that go with feedback on the given threads.
    pub fn query_feedback_logs_for_threads(&self, thread_ids: &[String]) -> (result: Result<Vec<u8>, LogStoreError>)
        ensures
            reads_feedback(self@.logs, thread_ids@, result),
    {
        self.logs.query_feedback_logs_for_threads(thread_ids)
    }

    /// The text of the logs that go with feedback on a thread.
    pub fn query_feedback_logs(&self, thread_id: &str) -> (result: Result<Vec<u8>, LogStoreError>)
        ensures
            exists|threads: Seq<String>|
                threads.len() == 1 && threads[0]@ == thread_id@ && #[trigger] reads_feedback(self@.logs, threads, result),
    {
        self.logs.query_feedback_logs(thread_id)
    }

    /// The greatest identifier of a wanted log; 0 if there is none.
    pub fn max_log_id(&self, query: &LogQuery) -> (result: Result<i64, LogStoreError>)
        ensures
            match result {
                Ok(id) => !self@.logs.closed && is_greatest_id(matching_logs(self@.logs, *query), id),
                Err(error) => self@.logs.closed && error == LogStoreError::Closed,
            },
    {
        self.logs.max_log_id(query)
    }

    /// How far the backfill is.
    pub fn get_backfill_state(&self) -> (result: Result<BackfillState, BackfillError>)
        ensures
            match result {
                Ok(state) => self@.backend is Sqlite && !self@.backfill.closed && state@ == self@.backfill.row.state,
                Err(error) => if self@.backend is Postgresql {
                    error == BackfillError::LocalOnly
                } else {
                    self@.backfill.closed && error == BackfillError::Persistence(BackfillOperation::State)
                },
            },
    {
        if matches!(self.backend, RuntimeStateBackend::Postgresql) {
            return Err(BackfillError::LocalOnly);
        }
        self.backfill.state()
    }

    /// Claims the worker slot of the backfill, unless it is complete or was worked on within the
    /// last `lease_seconds`.
    pub fn try_claim_backfill(&mut self, lease_seconds: i64) -> (result: Result<bool, BackfillError>)
        ensures
            match result {
                Ok(claimed) => {
                    &&& old(self)@.backend is Sqlite
                    &&& !old(self)@.backfill.closed
                    &&& exists|now: i64| claimed == #[trigger] is_slot_free(old(self)@.backfill.row, lease_seconds, now) && final(self)@ == if claimed {
                        with_backfill_row(
                            old(self)@,
                            running_row(old(self)@.backfill.row, old(self)@.backfill.row.state.last_watermark, now),
                        )
                    } else {
                        old(self)@
                    }
                },
                Err(error) => {
                    &&& final(self)@ == old(self)@
                    &&& if old(self)@.backend is Postgresql {
                        error == BackfillError::LocalOnly
                    } else {
                        refuses_closed(old(self)@.backfill, BackfillOperation::Claim, error)
                    }
                },
            },
    {
        if matches!(self.backend, RuntimeStateBackend::Postgresql) {
            return Err(BackfillError::LocalOnly);
        }
        let now: i64 = whole_seconds_of(now_millis());
        self.backfill.try_claim_slot_at(lease_seconds, now)
    }

    /// Records that the backfill is running.
    pub fn mark_backfill_running(&mut self) -> (result: Result<(), BackfillError>)
        ensures
            match result {
                Ok(_) => {
                    &&& old(self)@.backend is Sqlite
                    &&& !old(self)@.backfill.closed
                    &&& exists|now: i64| final(self)@ == with_backfill_row(
                        old(self)@,
                        #[trigger] running_row(old(self)@.backfill.row, old(self)@.backfill.row.state.last_watermark, now),
                    )
                },
                Err(error) => {
                    &&& final(self)@ == old(self)@
                    &&& if old(self)@.backend is Postgresql {
                        error == BackfillError::LocalOnly
                    } else {
                        refuses_closed(old(self)@.backfill, BackfillOperation::Run, error)
                    }
                },
            },
    {
        if matches!(self.backend, RuntimeStateBackend::Postgresql) {
            return Err(BackfillError::LocalOnly);
        }
        let now: i64 = whole_seconds_of(now_millis());
        let result = self.backfill.mark_running_at(None, now);
        assert(result is Ok ==> self@ == with_backfill_row(old(self)@, running_row(old(self)@.backfill.row, old(self)@.backfill.row.state.last_watermark, now)));
        result
    }

    /// Records the progress of the backfill.
    pub fn checkpoint_backfill(&mut self, watermark: &str) -> (result: Result<(), BackfillError>)
        ensures
            match result {
                Ok(_) => {
                    &&& old(self)@.backend is Sqlite
                    &&& !old(self)@.backfill.closed
                    &&& exists|now: i64| final(self)@ == with_backfill_row(
                        old(self)@,
                        #[trigger] running_row(old(self)@.backfill.row, Some(watermark@), now),
                    )
                },
                Err(error) => {
                    &&& final(self)@ == old(self)@
                    &&& if old(self)@.backend is Postgresql {
                        error == BackfillError::LocalOnly
                    } else {
                        refuses_closed(old(self)@.backfill, BackfillOperation::Checkpoint, error)
                    }
                },
            },
    {
        if matches!(self.backend, RuntimeStateBackend::Postgresql) {
            return Err(BackfillError::LocalOnly);
        }
        let now: i64 = whole_seconds_of(now_millis());
        let result = self.backfill.mark_running_at(Some(watermark), now);
        assert(result is Ok ==> self@ == with_backfill_row(old(self)@, running_row(old(self)@.backfill.row, Some(watermark@), now)));
        result
    }

    /// Records that the backfill is complete.
    pub fn mark_backfill_complete(&mut self, last_watermark: Option<&str>) -> (result: Result<(), BackfillError>)
        ensures
            match result {
                Ok(_) => {
                    &&& old(self)@.backend is Sqlite
                    &&& !old(self)@.backfill.closed
                    &&& exists|now: i64| final(self)@ == with_backfill_row(
                        old(self)@,
                        #[trigger] completed_row(old(self)@.backfill.row, str_view(last_watermark), now),
                    )
                },
                Err(error) => {
                    &&& final(self)@ == old(self)@
                    &&& if old(self)@.backend is Postgresql {
                        error == BackfillError::LocalOnly
                    } else {
                        refuses_closed(old(self)@.backfill, BackfillOperation::Complete, error)
                    }
                },
            },
    {
        if matches!(self.backend, RuntimeStateBackend::Postgresql) {
            return Err(BackfillError::LocalOnly);
        }
        let now: i64 = whole_seconds_of(now_millis());
        let result = self.backfill.mark_complete_at(last_watermark, now);
        assert(result is Ok ==> self@ == with_backfill_row(old(self)@, completed_row(old(self)@.backfill.row, str_view(last_watermark), now)));
        result
    }

    /// Records a completed import.
    pub fn record_external_agent_config_import_completed(
        &mut self,
        import_id: &str,
        provider_id: Option<&str>,
        successes: &[ExternalAgentConfigImportSuccessRecord],
        failures: &[ExternalAgentConfigImportFailureRecord],
    )
        ensures
            exists|now_ms: i64| final(self)@ == (StateRuntimeView {
                imports: #[trigger] old(self)@.imports.completed(
                    import_id@,
                    CompletionView { provider_id: str_view(provider_id), successes: successes@, failures: failures@ },
                    old(self)@.imports.memory_of(import_id@),
                    now_ms,
                ),
                ..old(self)@
            }),
    {
        self.imports.record_completed_with_provider(import_id, provider_id, successes, failures);
    }

    /// Records a completed import together with its memory.
    pub fn record_external_agent_config_import_completed_with_memory_import(
        &mut self,
        import_id: &str,
        provider_id: Option<&str>,
        successes: &[ExternalAgentConfigImportSuccessRecord],
        failures: &[ExternalAgentConfigImportFailureRecord],
        memory_import: &ExternalAgentMemoryImport,
    ) -> (result: Result<(), ImportRecordError>)
        ensures
            final(self)@ == (StateRuntimeView { imports: final(self)@.imports, memories: final(self)@.memories, ..old(self)@ }),
            exists|now_ms: i64, memory_now: i64, generation_id: Seq<char>| #[trigger] memory_completion(
                old(self)@.imports,
                old(self)@.memories,
                import_id@,
                CompletionView { provider_id: str_view(provider_id), successes: successes@, failures: failures@ },
                memory_import@,
                generation_id,
                now_ms,
                memory_now,
                final(self)@.imports,
                final(self)@.memories,
                result,
            ),
    {
        self.imports.record_completed_with_memory_import_and_provider(
            &mut self.memories,
            import_id,
            provider_id,
            successes,
            failures,
            memory_import,
        )
    }

    /// The outcome of an import.
    pub fn external_agent_config_import_details_record(&self, import_id: &str) -> (details: Option<ExternalAgentConfigImportDetailsRecord>)
        ensures
            match details {
                Some(details) => {
                    &&& self@.imports.found(import_id@) is Some
                    &&& details.successes@ == self@.imports.found(import_id@)->0.successes
                    &&& details.failures@ == self@.imports.found(import_id@)->0.failures
                },
                None => self@.imports.found(import_id@) is None,
            },
    {
        self.imports.details(import_id)
    }

    /// The completed imports, latest first.
    pub fn external_agent_config_import_history_records(&self) -> (history: Vec<ExternalAgentConfigImportHistoryRecord>)
        ensures
            exists|rows: Seq<ImportRowView>| {
                &&& #[trigger] is_full_listing::<ImportRow, AllImports, LatestFirst>(self@.imports.imports, AllImports {  }, LatestFirst {  }, rows)
                &&& is_history_of(rows, history@)
            },
    {
        self.imports.history()
    }

    /// The enrollment with the given values.
    pub fn get_remote_control_enrollment(
        &self,
        websocket_url: &str,
        account_id: &str,
        app_server_client_name: Option<&str>,
    ) -> (result: Result<Option<RemoteControlEnrollmentRecord>, EnrollmentError>)
        ensures
            match result {
                Ok(found) => !self@.enrollments.closed && opt_view(found) == self@.enrollments.found(
                    enrollment_key(websocket_url@, account_id@, str_view(app_server_client_name)),
                ),
                Err(error) => self@.enrollments.closed && error.operation == EnrollmentOperation::Get,
            },
    {
        self.enrollments.get(websocket_url, account_id, app_server_client_name)
    }

    /// Stores an enrollment. Whether remote control is enabled for one that is there stays.
    pub fn upsert_remote_control_enrollment(&mut self, enrollment: &RemoteControlEnrollmentRecord) -> (result: Result<(), EnrollmentError>)
        ensures
            match result {
                Ok(_) => {
                    &&& !old(self)@.enrollments.closed
                    &&& final(self)@ == (StateRuntimeView {
                        enrollments: old(self)@.enrollments.with(
                            merged_enrollment(
                                enrollment@,
                                old(self)@.enrollments.found(RemoteControlEnrollmentRecord::key_of(enrollment@)),
                            ),
                        ),
                        ..old(self)@
                    })
                },
                Err(error) => {
                    &&& old(self)@.enrollments.closed
                    &&& error.operation == EnrollmentOperation::Upsert
                    &&& final(self)@ == old(self)@
                },
            },
    {
        self.enrollments.upsert(enrollment)
    }

    /// Enables or disables remote control for an enrollment. Returns the number of enrollments
    /// that there are for the given values.
    pub fn set_remote_control_enabled(
        &mut self,
        websocket_url: &str,
        account_id: &str,
        app_server_client_name: Option<&str>,
        remote_control_enabled: bool,
    ) -> (result: Result<u64, EnrollmentError>)
        ensures
            ({
                let key = enrollment_key(websocket_url@, account_id@, str_view(app_server_client_name));
                match result {
                    Ok(count) => {
                        &&& !old(self)@.enrollments.closed
                        &&& match old(self)@.enrollments.found(key) {
                            Some(existing) => {
                                &&& count == 1
                                &&& final(self)@ == (StateRuntimeView {
                                    enrollments: EnrollmentStoreView {
                                        enrollments: old(self)@.enrollments.enrollments.insert(
                                            key,
                                            EnrollmentView { remote_control_enabled: Some(remote_control_enabled), ..existing },
                                        ),
                                        ..old(self)@.enrollments
                                    },
                                    ..old(self)@
                                })
                            },
                            None => count == 0 && final(self)@ == old(self)@,
                        }
                    },
                    Err(error) => {
                        &&& old(self)@.enrollments.closed
                        &&& error.operation == EnrollmentOperation::SetEnabled
                        &&& final(self)@ == old(self)@
                    },
                }
            }),
    {
        self.enrollments.set_enabled(websocket_url, account_id, app_server_client_name, remote_control_enabled)
    }

    /// Removes an enrollment. Returns the number of enrollments removed.
    pub fn delete_remote_control_enrollment(
        &mut self,
        websocket_url: &str,
        account_id: &str,
        app_server_client_name: Option<&str>,
    ) -> (result: Result<u64, EnrollmentError>)
        ensures
            ({
                let key = enrollment_key(websocket_url@, account_id@, str_view(app_server_client_name));
                match result {
                    Ok(count) => {
                        &&& !old(self)@.enrollments.closed
                        &&& count == if old(self)@.enrollments.enrollments.contains_key(key) {
                            1
                        } else {
                            0int
                        }
                        &&& final(self)@ == (StateRuntimeView {
                            enrollments: EnrollmentStoreView {
                                enrollments: old(self)@.enrollments.enrollments.remove(key),
                                ..old(self)@.enrollments
                            },
                            ..old(self)@
                        })
                    },
                    Err(error) => {
                        &&& old(self)@.enrollments.closed
                        &&& error.operation == EnrollmentOperation::Delete
                        &&& final(self)@ == old(self)@
                    },
                }
            }),
    {
        self.enrollments.delete(websocket_url, account_id, app_server_client_name)
    }
}

} // verus!
