//! The completed imports and their history.

use super::fingerprint::fingerprint_input;
use super::fingerprint::memory_import_fingerprint;
use super::fingerprint::sha256;
use super::memory_import::ExternalAgentImportError;
use super::memory_import::ExternalAgentMemoryImport;
use super::memory_import::ExternalAgentMemoryImportView;
use super::records::copy_failures;
use super::records::copy_successes;
use super::records::ExternalAgentConfigImportDetailsRecord;
use super::records::ExternalAgentConfigImportFailureRecord;
use super::records::ExternalAgentConfigImportHistoryRecord;
use super::records::ExternalAgentConfigImportSuccessRecord;
use crate::backend::RuntimeStateBackend;
use crate::memory_store::phase2::enqueued;
use crate::memory_store::artifacts::import_application;
use crate::memory_store::MemoryStore;
use crate::memory_store::MemoryStoreError;
use crate::memory_store::MemoryStoreView;
use crate::outside::new_identifier;
use crate::outside::now_millis;
use crate::sequences::same_bytes;
use crate::table::is_full_listing;
use crate::table::views;
use crate::table::Condition;
use crate::table::Ranking;
use crate::table::Row;
use crate::table::Table;
use crate::text::is_text_before;
use crate::text::lemma_text_before_asymmetric;
use crate::text::lemma_text_before_total;
use crate::text::lemma_text_before_transitive;
use crate::text::owned_text;
use crate::text::str_view;
use crate::text::text_before;
use crate::thread_id::opt_view;
use crate::threads::clone_text;
use crate::time::whole_seconds_of;
use vstd::prelude::*;
use vstd::string::*;

verus! {

/// A stored import.
#[derive(Debug, PartialEq, Eq)]
pub struct ImportRow {
    pub import_id: String,
    pub provider_id: Option<String>,
    pub completed_at_ms: i64,
    pub successes: Vec<ExternalAgentConfigImportSuccessRecord>,
    pub failures: Vec<ExternalAgentConfigImportFailureRecord>,
    /// Fingerprint of the memory that came along.
    pub memory_import_fingerprint: Option<Vec<u8>>,
    /// The generation that holds that memory.
    pub memory_generation_id: Option<String>,
}

#[verifier::ext_equal]
pub struct ImportRowView {
    pub import_id: Seq<char>,
    pub provider_id: Option<Seq<char>>,
    pub completed_at_ms: i64,
    pub successes: Seq<ExternalAgentConfigImportSuccessRecord>,
    pub failures: Seq<ExternalAgentConfigImportFailureRecord>,
    pub memory_import_fingerprint: Option<Seq<u8>>,
    pub memory_generation_id: Option<Seq<char>>,
}

impl View for ImportRow {
    type V = ImportRowView;

    open spec fn view(&self) -> ImportRowView {
        ImportRowView {
            import_id: self.import_id@,
            provider_id: opt_view(self.provider_id),
            completed_at_ms: self.completed_at_ms,
            successes: self.successes@,
            failures: self.failures@,
            memory_import_fingerprint: opt_view(self.memory_import_fingerprint),
            memory_generation_id: opt_view(self.memory_generation_id),
        }
    }
}

fn copy_bytes(bytes: &Vec<u8>) -> (copy: Vec<u8>)
    ensures
        copy@ == bytes@,
{
    let mut copy: Vec<u8> = Vec::new();
    copy.extend_from_slice(bytes.as_slice());
    assert(copy@ =~= bytes@);
    copy
}

impl Row for ImportRow {
    type Key = String;

    open spec fn key_of(row: ImportRowView) -> Seq<char> {
        row.import_id
    }

    fn has_key(&self, key: &String) -> (found: bool) {
        self.import_id == *key
    }

    fn same_key(&self, other: &Self) -> (same: bool) {
        self.import_id == other.import_id
    }

    fn duplicate(&self) -> (copy: Self) {
        ImportRow {
            import_id: self.import_id.clone(),
            provider_id: clone_text(&self.provider_id),
            completed_at_ms: self.completed_at_ms,
            successes: copy_successes(self.successes.as_slice()),
            failures: copy_failures(self.failures.as_slice()),
            memory_import_fingerprint: match &self.memory_import_fingerprint {
                Some(bytes) => Some(copy_bytes(bytes)),
                None => None,
            },
            memory_generation_id: clone_text(&self.memory_generation_id),
        }
    }
}

/// Every import.
pub struct AllImports {}

impl Condition<ImportRow> for AllImports {
    open spec fn holds(&self, row: ImportRowView) -> bool {
        true
    }

    fn test(&self, row: &ImportRow) -> (held: bool) {
        true
    }
}

/// Latest completion first, then by identifier.
pub struct LatestFirst {}

impl Ranking<ImportRow> for LatestFirst {
    open spec fn before(&self, a: ImportRowView, b: ImportRowView) -> bool {
        a.completed_at_ms > b.completed_at_ms || a.completed_at_ms == b.completed_at_ms && text_before(a.import_id, b.import_id)
    }

    fn is_before(&self, a: &ImportRow, b: &ImportRow) -> (r: bool) {
        a.completed_at_ms > b.completed_at_ms || a.completed_at_ms == b.completed_at_ms && is_text_before(a.import_id.as_str(), b.import_id.as_str())
    }

    proof fn asymmetric(&self, a: ImportRowView, b: ImportRowView) {
        if text_before(a.import_id, b.import_id) {
            lemma_text_before_asymmetric(a.import_id, b.import_id);
        }
    }

    proof fn negatively_transitive(&self, a: ImportRowView, b: ImportRowView, c: ImportRowView) {
        if text_before(c.import_id, a.import_id) && a.import_id != b.import_id && b.import_id != c.import_id {
            lemma_text_before_total(a.import_id, b.import_id);
            lemma_text_before_total(b.import_id, c.import_id);
            if text_before(a.import_id, b.import_id) && text_before(b.import_id, c.import_id) {
                lemma_text_before_transitive(a.import_id, b.import_id, c.import_id);
                lemma_text_before_asymmetric(a.import_id, c.import_id);
            }
        }
    }
}

/// Why an import was not recorded.
#[derive(Debug, PartialEq, Eq)]
pub enum ImportRecordError {
    /// The identifier stands for other memory already.
    Import(ExternalAgentImportError),
    Memory(MemoryStoreError),
}

impl ImportRecordError {
    pub open spec fn text(self) -> Seq<char> {
        match self {
            ImportRecordError::Import(error) => error.text(),
            ImportRecordError::Memory(error) => error.text(),
        }
    }

    pub fn message(&self) -> (text: String)
        ensures
            text@ == self.text(),
    {
        match self {
            ImportRecordError::Import(error) => error.message(),
            ImportRecordError::Memory(error) => error.message(),
        }
    }
}

/// The completed imports.
pub struct ExternalAgentConfigImportStore {
    backend: RuntimeStateBackend,
    imports: Table<ImportRow>,
}

#[verifier::ext_equal]
pub struct ImportStoreView {
    pub backend: RuntimeStateBackend,
    pub imports: Map<Seq<char>, ImportRowView>,
}

impl View for ExternalAgentConfigImportStore {
    type V = ImportStoreView;

    closed spec fn view(&self) -> ImportStoreView {
        ImportStoreView { backend: self.backend, imports: self.imports@ }
    }
}

/// What a completion brings.
#[verifier::ext_equal]
pub struct CompletionView {
    pub provider_id: Option<Seq<char>>,
    pub successes: Seq<ExternalAgentConfigImportSuccessRecord>,
    pub failures: Seq<ExternalAgentConfigImportFailureRecord>,
}

impl ImportStoreView {
    pub open spec fn found(self, import_id: Seq<char>) -> Option<ImportRowView> {
        if self.imports.contains_key(import_id) {
            Some(self.imports[import_id])
        } else {
            None
        }
    }

    /// The fingerprint and the generation recorded with an import.
    pub open spec fn memory_of(self, import_id: Seq<char>) -> (Option<Seq<u8>>, Option<Seq<char>>) {
        match self.found(import_id) {
            Some(row) => (row.memory_import_fingerprint, row.memory_generation_id),
            None => (None, None),
        }
    }

    /// The store with the completion in place of the one before.
    pub open spec fn completed(
        self,
        import_id: Seq<char>,
        completion: CompletionView,
        memory: (Option<Seq<u8>>, Option<Seq<char>>),
        now_ms: i64,
    ) -> ImportStoreView {
        let row = ImportRowView {
            import_id,
            provider_id: completion.provider_id,
            completed_at_ms: now_ms,
            successes: completion.successes,
            failures: completion.failures,
            memory_import_fingerprint: memory.0,
            memory_generation_id: memory.1,
        };
        ImportStoreView { imports: self.imports.insert(import_id, row), ..self }
    }
}

/// What recording a completion together with its memory leads to.
///
/// Where files on disk are authoritative, the completion is recorded and a consolidation is
/// enqueued. In a shared database the memory becomes part of the active generation, once for
/// each identifier. The completion is dated by `now_ms`, and what becomes of the memory by
/// `memory_now`: the two stores need not share a clock.
pub open spec fn memory_completion(
    store: ImportStoreView,
    memories: MemoryStoreView,
    import_id: Seq<char>,
    completion: CompletionView,
    import: ExternalAgentMemoryImportView,
    generation_id: Seq<char>,
    now_ms: i64,
    memory_now: i64,
    store_after: ImportStoreView,
    memories_after: MemoryStoreView,
    result: Result<(), ImportRecordError>,
) -> bool {
    let fingerprint = sha256(fingerprint_input(import));
    match store.backend {
        RuntimeStateBackend::Sqlite => {
            &&& store_after == store.completed(import_id, completion, store.memory_of(import_id), now_ms)
            &&& if memories.closed {
                result == Err::<(), ImportRecordError>(ImportRecordError::Memory(MemoryStoreError::Closed)) && memories_after == memories
            } else {
                match enqueued(memories.global_job, memory_now) {
                    Some(job) => result == Ok::<(), ImportRecordError>(()) && memories_after == memories.with_global_job(job),
                    None => {
                        &&& result == Err::<(), ImportRecordError>(ImportRecordError::Memory(MemoryStoreError::OutOfRange))
                        &&& memories_after == memories
                    },
                }
            }
        },
        RuntimeStateBackend::Postgresql => if memories.closed {
            &&& result == Err::<(), ImportRecordError>(ImportRecordError::Memory(MemoryStoreError::Closed))
            &&& store_after == store
            &&& memories_after == memories
        } else {
            match store.memory_of(import_id).0 {
                Some(existing) => {
                    &&& memories_after == memories
                    &&& if existing == fingerprint {
                        &&& result == Ok::<(), ImportRecordError>(())
                        &&& store_after == store.completed(import_id, completion, store.memory_of(import_id), now_ms)
                    } else {
                        &&& result == Err::<(), ImportRecordError>(ImportRecordError::Import(ExternalAgentImportError::Reused))
                        &&& store_after == store
                    }
                },
                None => match result {
                    Ok(_) => exists|published: Option<String>| {
                        &&& #[trigger] import_application(memories, import, generation_id, memory_now, memories_after, Ok(published))
                        &&& store_after == store.completed(import_id, completion, (Some(fingerprint), opt_view(published)), now_ms)
                    },
                    Err(ImportRecordError::Memory(error)) => {
                        &&& import_application(memories, import, generation_id, memory_now, memories_after, Err(error))
                        &&& store_after == store
                    },
                    Err(ImportRecordError::Import(_)) => false,
                },
            }
        },
    }
}

impl ExternalAgentConfigImportStore {
    pub fn new(backend: RuntimeStateBackend) -> (store: Self)
        ensures
            store@ == (ImportStoreView { backend, imports: Map::empty() }),
    {
        ExternalAgentConfigImportStore { backend, imports: Table::new() }
    }

    /// Stores a row in place of the one with the same identifier.
    pub fn put_row(&mut self, row: ImportRow)
        ensures
            final(self)@ == (ImportStoreView { imports: old(self)@.imports.insert(row@.import_id, row@), ..old(self)@ }),
    {
        self.imports.put(row);
    }

    /// The stored imports.
    pub fn imports(&self) -> (imports: &Table<ImportRow>)
        ensures
            imports@ == self@.imports,
    {
        &self.imports
    }

    /// Records a completed import.
    pub fn record_completed(
        &mut self,
        import_id: &str,
        successes: &[ExternalAgentConfigImportSuccessRecord],
        failures: &[ExternalAgentConfigImportFailureRecord],
    )
        ensures
            exists|now_ms: i64| final(self)@ == #[trigger] old(self)@.completed(
                import_id@,
                CompletionView { provider_id: None, successes: successes@, failures: failures@ },
                old(self)@.memory_of(import_id@),
                now_ms,
            ),
    {
        self.record_completed_with_provider(import_id, None, successes, failures)
    }

    /// Records a completed import from the given provider.
    pub fn record_completed_with_provider(
        &mut self,
        import_id: &str,
        provider_id: Option<&str>,
        successes: &[ExternalAgentConfigImportSuccessRecord],
        failures: &[ExternalAgentConfigImportFailureRecord],
    )
        ensures
            exists|now_ms: i64| final(self)@ == #[trigger] old(self)@.completed(
                import_id@,
                CompletionView { provider_id: str_view(provider_id), successes: successes@, failures: failures@ },
                old(self)@.memory_of(import_id@),
                now_ms,
            ),
    {
        let now_ms: i64 = now_millis();
        self.record_completed_at(import_id, provider_id, successes, failures, now_ms);
    }

    /// Records an import completed at the given time. One with the same identifier is replaced,
    /// but what is known of its memory stays.
    pub fn record_completed_at(
        &mut self,
        import_id: &str,
        provider_id: Option<&str>,
        successes: &[ExternalAgentConfigImportSuccessRecord],
        failures: &[ExternalAgentConfigImportFailureRecord],
        now_ms: i64,
    )
        ensures
            final(self)@ == old(self)@.completed(
                import_id@,
                CompletionView { provider_id: str_view(provider_id), successes: successes@, failures: failures@ },
                old(self)@.memory_of(import_id@),
                now_ms,
            ),
    {
        let key = import_id.to_owned();
        let (fingerprint, generation) = match self.imports.get(&key) {
            Some(row) => (
                match &row.memory_import_fingerprint {
                    Some(bytes) => Some(copy_bytes(bytes)),
                    None => None,
                },
                clone_text(&row.memory_generation_id),
            ),
            None => (None, None),
        };
        self.put_completed(key, provider_id, successes, failures, fingerprint, generation, now_ms);
    }

    fn put_completed(
        &mut self,
        import_id: String,
        provider_id: Option<&str>,
        successes: &[ExternalAgentConfigImportSuccessRecord],
        failures: &[ExternalAgentConfigImportFailureRecord],
        fingerprint: Option<Vec<u8>>,
        generation: Option<String>,
        now_ms: i64,
    )
        ensures
            final(self)@ == old(self)@.completed(
                import_id@,
                CompletionView { provider_id: str_view(provider_id), successes: successes@, failures: failures@ },
                (opt_view(fingerprint), opt_view(generation)),
                now_ms,
            ),
    {
        self.imports.put(
            ImportRow {
                import_id,
                provider_id: owned_text(provider_id),
                completed_at_ms: now_ms,
                successes: copy_successes(successes),
                failures: copy_failures(failures),
                memory_import_fingerprint: fingerprint,
                memory_generation_id: generation,
            },
        );
    }

    /// Records a completed import together with its memory.
    pub fn record_completed_with_memory_import(
        &mut self,
        memories: &mut MemoryStore,
        import_id: &str,
        successes: &[ExternalAgentConfigImportSuccessRecord],
        failures: &[ExternalAgentConfigImportFailureRecord],
        memory_import: &ExternalAgentMemoryImport,
    ) -> (result: Result<(), ImportRecordError>)
        ensures
            exists|now_ms: i64, memory_now: i64, generation_id: Seq<char>| #[trigger] memory_completion(
                old(self)@,
                old(memories)@,
                import_id@,
                CompletionView { provider_id: None, successes: successes@, failures: failures@ },
                memory_import@,
                generation_id,
                now_ms,
                memory_now,
                final(self)@,
                final(memories)@,
                result,
            ),
    {
        self.record_completed_with_memory_import_and_provider(memories, import_id, None, successes, failures, memory_import)
    }

    /// Records a completed import from the given provider together with its memory.
    pub fn record_completed_with_memory_import_and_provider(
        &mut self,
        memories: &mut MemoryStore,
        import_id: &str,
        provider_id: Option<&str>,
        successes: &[ExternalAgentConfigImportSuccessRecord],
        failures: &[ExternalAgentConfigImportFailureRecord],
        memory_import: &ExternalAgentMemoryImport,
    ) -> (result: Result<(), ImportRecordError>)
        ensures
            exists|now_ms: i64, memory_now: i64, generation_id: Seq<char>| #[trigger] memory_completion(
                old(self)@,
                old(memories)@,
                import_id@,
                CompletionView { provider_id: str_view(provider_id), successes: successes@, failures: failures@ },
                memory_import@,
                generation_id,
                now_ms,
                memory_now,
                final(self)@,
                final(memories)@,
                result,
            ),
    {
        let now_ms: i64 = now_millis();
        let memory_now: i64 = whole_seconds_of(now_millis());
        let generation_id = new_identifier();
        let ghost id = generation_id@;
        let result = self.record_completed_with_memory_import_at(
            memories,
            import_id,
            provider_id,
            successes,
            failures,
            memory_import,
            generation_id,
            now_ms,
            memory_now,
        );
        assert(memory_completion(
            old(self)@,
            old(memories)@,
            import_id@,
            CompletionView { provider_id: str_view(provider_id), successes: successes@, failures: failures@ },
            memory_import@,
            id,
            now_ms,
            memory_now,
            self@,
            memories@,
            result,
        ));
        result
    }

    /// Records an import completed at the given time, in milliseconds, together with its memory.
    /// `memory_now` is the time of the memory store, in seconds, and `generation_id` names the
    /// generation if a new one is made.
    pub fn record_completed_with_memory_import_at(
        &mut self,
        memories: &mut MemoryStore,
        import_id: &str,
        provider_id: Option<&str>,
        successes: &[ExternalAgentConfigImportSuccessRecord],
        failures: &[ExternalAgentConfigImportFailureRecord],
        memory_import: &ExternalAgentMemoryImport,
        generation_id: String,
        now_ms: i64,
        memory_now: i64,
    ) -> (result: Result<(), ImportRecordError>)
        ensures
            memory_completion(
                old(self)@,
                old(memories)@,
                import_id@,
                CompletionView { provider_id: str_view(provider_id), successes: successes@, failures: failures@ },
                memory_import@,
                generation_id@,
                now_ms,
                memory_now,
                final(self)@,
                final(memories)@,
                result,
            ),
    {
        if matches!(self.backend, RuntimeStateBackend::Sqlite) {
            self.record_completed_at(import_id, provider_id, successes, failures, now_ms);
            return match memories.enqueue_global_consolidation(memory_now) {
                Ok(_) => Ok(()),
                Err(error) => Err(ImportRecordError::Memory(error)),
            };
        }
        if memories.is_closed() {
            return Err(ImportRecordError::Memory(MemoryStoreError::Closed));
        }
        let fingerprint = memory_import_fingerprint(memory_import);
        let key = import_id.to_owned();
        let known = match self.imports.get(&key) {
            Some(row) => match &row.memory_import_fingerprint {
                Some(existing) => Some(same_bytes(existing.as_slice(), fingerprint.as_slice())),
                None => None,
            },
            None => None,
        };
        match known {
            Some(true) => {
                self.record_completed_at(import_id, provider_id, successes, failures, now_ms);
                Ok(())
            },
            Some(false) => Err(ImportRecordError::Import(ExternalAgentImportError::Reused)),
            None => match memories.apply_external_agent_import(memory_import, generation_id, memory_now) {
                Ok(published) => {
                    let ghost applied = published;
                    self.put_completed(key, provider_id, successes, failures, Some(fingerprint), published, now_ms);
                    assert(import_application(old(memories)@, memory_import@, generation_id@, memory_now, memories@, Ok(applied)));
                    Ok(())
                },
                Err(error) => Err(ImportRecordError::Memory(error)),
            },
        }
    }

    /// The outcome of an import.
    pub fn details(&self, import_id: &str) -> (details: Option<ExternalAgentConfigImportDetailsRecord>)
        ensures
            match details {
                Some(details) => {
                    &&& self@.found(import_id@) is Some
                    &&& details.successes@ == self@.found(import_id@)->0.successes
                    &&& details.failures@ == self@.found(import_id@)->0.failures
                },
                None => self@.found(import_id@) is None,
            },
    {
        let key = import_id.to_owned();
        match self.imports.get(&key) {
            Some(row) => Some(
                ExternalAgentConfigImportDetailsRecord {
                    successes: copy_successes(row.successes.as_slice()),
                    failures: copy_failures(row.failures.as_slice()),
                },
            ),
            None => None,
        }
    }

    /// The completed imports, latest first.
    pub fn history(&self) -> (history: Vec<ExternalAgentConfigImportHistoryRecord>)
        ensures
            exists|rows: Seq<ImportRowView>| {
                &&& #[trigger] is_full_listing::<ImportRow, AllImports, LatestFirst>(self@.imports, AllImports {  }, LatestFirst {  }, rows)
                &&& is_history_of(rows, history@)
            },
    {
        let rows = self.imports.select_all(&AllImports {  }, &LatestFirst {  });
        let mut history: Vec<ExternalAgentConfigImportHistoryRecord> = Vec::new();
        let mut i: usize = 0;
        while i < rows.len()
            invariant
                i <= rows@.len(),
                history@.len() == i,
                forall|k: int| 0 <= k < i ==> is_record_of(rows@[k]@, #[trigger] history@[k]),
            decreases rows@.len() - i,
        {
            let row = &rows[i];
            history.push(
                ExternalAgentConfigImportHistoryRecord {
                    import_id: row.import_id.clone(),
                    provider_id: clone_text(&row.provider_id),
                    completed_at_ms: row.completed_at_ms,
                    successes: copy_successes(row.successes.as_slice()),
                    failures: copy_failures(row.failures.as_slice()),
                },
            );
            i += 1;
        }
        proof {
            let listed = views(rows@);
            assert forall|k: int| 0 <= k < listed.len() implies is_record_of(#[trigger] listed[k], history@[k]) by {
                assert(is_record_of(rows@[k]@, history@[k]));
            }
            assert(is_full_listing::<ImportRow, AllImports, LatestFirst>(self@.imports, AllImports {  }, LatestFirst {  }, listed));
        }
        history
    }
}

/// The record says what the row holds.
pub open spec fn is_record_of(row: ImportRowView, record: ExternalAgentConfigImportHistoryRecord) -> bool {
    &&& record.import_id@ == row.import_id
    &&& opt_view(record.provider_id) == row.provider_id
    &&& record.completed_at_ms == row.completed_at_ms
    &&& record.successes@ == row.successes
    &&& record.failures@ == row.failures
}

/// The records say what the rows hold, one for one.
pub open spec fn is_history_of(rows: Seq<ImportRowView>, history: Seq<ExternalAgentConfigImportHistoryRecord>) -> bool {
    &&& history.len() == rows.len()
    &&& forall|k: int| 0 <= k < rows.len() ==> is_record_of(#[trigger] rows[k], history[k])
}

} // verus!
