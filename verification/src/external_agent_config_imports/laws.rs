//! Laws of the imports.

use super::fingerprint::fingerprint_input;
use super::fingerprint::sha256;
use super::memory_import::in_projects;
use super::memory_import::has_path;
use super::memory_import::overlaid;
use super::memory_import::ExternalAgentImportError;
use super::memory_import::ExternalAgentMemoryImportView;
use super::store::memory_completion;
use super::store::CompletionView;
use super::store::ImportRecordError;
use super::store::ImportStoreView;
use crate::backend::RuntimeStateBackend;
use crate::memory_store::MemoryArtifactView;
use crate::memory_store::MemoryStoreView;
use crate::sequences::lemma_concat_members;
use crate::sequences::lemma_filter_members;
use vstd::prelude::*;

verus! {

/// A completion is read back as it was recorded, and no other import changes.
pub proof fn law_completion_is_read_back(
    store: ImportStoreView,
    import_id: Seq<char>,
    completion: CompletionView,
    now_ms: i64,
    other: Seq<char>,
)
    ensures
        ({
            let after = store.completed(import_id, completion, store.memory_of(import_id), now_ms);
            &&& after.found(import_id) is Some
            &&& after.found(import_id)->0.provider_id == completion.provider_id
            &&& after.found(import_id)->0.completed_at_ms == now_ms
            &&& after.found(import_id)->0.successes == completion.successes
            &&& after.found(import_id)->0.failures == completion.failures
            &&& after.memory_of(import_id) == store.memory_of(import_id)
            &&& other != import_id ==> after.found(other) == store.found(other)
        }),
{
}

/// Recording an identifier again makes no second record.
pub proof fn law_repeated_import_is_one_record(
    store: ImportStoreView,
    import_id: Seq<char>,
    first: CompletionView,
    second: CompletionView,
    first_ms: i64,
    second_ms: i64,
)
    ensures
        ({
            let once = store.completed(import_id, first, store.memory_of(import_id), first_ms);
            let twice = once.completed(import_id, second, once.memory_of(import_id), second_ms);
            twice == store.completed(import_id, second, store.memory_of(import_id), second_ms)
        }),
{
    let once = store.completed(import_id, first, store.memory_of(import_id), first_ms);
    let twice = once.completed(import_id, second, once.memory_of(import_id), second_ms);
    assert(twice.imports =~= store.completed(import_id, second, store.memory_of(import_id), second_ms).imports);
}

/// In a shared database, a completion that is recorded again with the same memory leaves the
/// memory as it is.
pub proof fn law_retried_memory_import_applies_once(
    store: ImportStoreView,
    memories: MemoryStoreView,
    import_id: Seq<char>,
    first: CompletionView,
    second: CompletionView,
    import: ExternalAgentMemoryImportView,
    first_id: Seq<char>,
    second_id: Seq<char>,
    first_ms: i64,
    second_ms: i64,
    first_now: i64,
    second_now: i64,
    once: ImportStoreView,
    memories_once: MemoryStoreView,
    twice: ImportStoreView,
    memories_twice: MemoryStoreView,
    result: Result<(), ImportRecordError>,
)
    requires
        store.backend == RuntimeStateBackend::Postgresql,
        memory_completion(store, memories, import_id, first, import, first_id, first_ms, first_now, once, memories_once, Ok(())),
        memory_completion(once, memories_once, import_id, second, import, second_id, second_ms, second_now, twice, memories_twice, result),
    ensures
        result == Ok::<(), ImportRecordError>(()),
        memories_twice == memories_once,
        twice.memory_of(import_id) == once.memory_of(import_id),
{
    assert(once.memory_of(import_id).0 == Some(sha256(fingerprint_input(import))));
}

/// In a shared database, an identifier cannot be used again for memory with another
/// fingerprint: the completion fails and nothing changes, and where the database is open the
/// error says so.
pub proof fn law_reused_identifier_is_refused(
    store: ImportStoreView,
    memories: MemoryStoreView,
    import_id: Seq<char>,
    completion: CompletionView,
    import: ExternalAgentMemoryImportView,
    generation_id: Seq<char>,
    now_ms: i64,
    memory_now: i64,
    after: ImportStoreView,
    memories_after: MemoryStoreView,
    result: Result<(), ImportRecordError>,
)
    requires
        store.backend == RuntimeStateBackend::Postgresql,
        store.memory_of(import_id).0 is Some,
        store.memory_of(import_id).0 != Some(sha256(fingerprint_input(import))),
        memory_completion(store, memories, import_id, completion, import, generation_id, now_ms, memory_now, after, memories_after, result),
    ensures
        result is Err,
        !memories.closed ==> result == Err::<(), ImportRecordError>(ImportRecordError::Import(ExternalAgentImportError::Reused)),
        after == store,
        memories_after == memories,
{
}

/// A later import replaces the projects it selects, even by nothing, and retains all other
/// resources, except where it brings an artifact of the same path.
pub proof fn law_overlay_replaces_selected_projects(
    older: Seq<MemoryArtifactView>,
    newer_keys: Seq<Seq<char>>,
    newer: Seq<MemoryArtifactView>,
    artifact: MemoryArtifactView,
)
    ensures
        overlaid(older, newer_keys, newer).contains(artifact) <==> {
            ||| newer.contains(artifact)
            ||| older.contains(artifact) && !in_projects(artifact.path, newer_keys) && !has_path(newer, artifact.path)
        },
{
    let outlasting = |artifact: MemoryArtifactView| super::memory_import::outlasts(artifact, newer_keys, newer);
    lemma_filter_members(older, outlasting, artifact);
    lemma_concat_members(older.filter(outlasting), newer, artifact);
}

} // verus!
