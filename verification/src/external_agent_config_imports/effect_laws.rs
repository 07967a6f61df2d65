//! Laws of recording imports, told in the fields of what is recorded.

use super::fingerprint::framed;
use super::fingerprint::framed_artifacts;
use super::fingerprint::framed_keys;
use super::laws::law_overlay_replaces_selected_projects;
use super::memory_import::in_import_scope;
use super::memory_import::in_projects;
use super::memory_import::overlaid;
use super::memory_import::project_prefix;
use super::store::is_history_of;
use super::store::is_record_of;
use super::store::memory_completion;
use super::AllImports;
use super::CompletionView;
use super::ExternalAgentConfigImportDetailsRecord;
use super::ExternalAgentConfigImportFailureRecord;
use super::ExternalAgentConfigImportHistoryRecord;
use super::ExternalAgentConfigImportStore;
use super::ExternalAgentConfigImportSuccessRecord;
use super::ExternalAgentImportError;
use super::ExternalAgentMemoryImport;
use super::ImportRecordError;
use super::ImportRow;
use super::ImportRowView;
use super::LatestFirst;
use crate::memory_store::artifacts::import_application;
use crate::memory_store::generation_laws::lies_in_a_project;
use crate::memory_store::artifact_views;
use crate::memory_store::MemoryArtifact;
use crate::memory_store::MemoryArtifactSet;
use crate::memory_store::MemoryArtifactView;
use crate::memory_store::MemoryStore;
use crate::memory_store::MemoryStoreError;
use crate::table::is_full_listing;
use crate::table::row_selected;
use crate::table::Ranking;
use crate::text::lemma_text_before_total;
use crate::text::str_view;
use crate::text::text_before;
use crate::text::text_views;
use vstd::prelude::*;
use vstd::utf8::encode_utf8;

verus! {

/// The completion is recorded as it was given.
pub open spec fn is_recorded_as_given(
    row: ImportRowView,
    import_id: Seq<char>,
    provider_id: Option<&str>,
    successes: Seq<ExternalAgentConfigImportSuccessRecord>,
    failures: Seq<ExternalAgentConfigImportFailureRecord>,
) -> bool {
    &&& row.import_id == import_id
    &&& row.provider_id is Some <==> provider_id is Some
    &&& provider_id is Some ==> row.provider_id->0 == provider_id->0@
    &&& row.successes == successes
    &&& row.failures == failures
}

/// A completed import is recorded as it was given, at the given time and in place of one with the same
/// identifier. What is known of the memory of that one stays, and so do all others.
pub proof fn law_completion_is_recorded_as_given(
    store: &mut ExternalAgentConfigImportStore,
    import_id: &str,
    provider_id: Option<&str>,
    successes: &[ExternalAgentConfigImportSuccessRecord],
    failures: &[ExternalAgentConfigImportFailureRecord],
    now_ms: i64,
)
    requires
        call_ensures(ExternalAgentConfigImportStore::record_completed_at, (store, import_id, provider_id, successes, failures, now_ms), ()),
    ensures
        final(store)@.imports.contains_key(import_id@),
        is_recorded_as_given(final(store)@.imports[import_id@], import_id@, provider_id, successes@, failures@),
        final(store)@.imports[import_id@].completed_at_ms == now_ms,
        old(store)@.imports.contains_key(import_id@) ==> final(store)@.imports[import_id@].memory_import_fingerprint == old(store)@.imports[import_id@].memory_import_fingerprint
            && final(store)@.imports[import_id@].memory_generation_id == old(store)@.imports[import_id@].memory_generation_id,
        !old(store)@.imports.contains_key(import_id@) ==> final(store)@.imports[import_id@].memory_import_fingerprint is None
            && final(store)@.imports[import_id@].memory_generation_id is None,
        forall|other: Seq<char>| other != import_id@ ==> (#[trigger] final(store)@.imports.contains_key(other) <==> old(store)@.imports.contains_key(other)),
        forall|other: Seq<char>| other != import_id@ && #[trigger] old(store)@.imports.contains_key(other) ==> final(store)@.imports[other] == old(store)@.imports[other],
{
}

/// At the time of the clock an import is recorded as at a given time.
pub proof fn law_completion_now_is_recorded_as_given(
    store: &mut ExternalAgentConfigImportStore,
    import_id: &str,
    provider_id: Option<&str>,
    successes: &[ExternalAgentConfigImportSuccessRecord],
    failures: &[ExternalAgentConfigImportFailureRecord],
)
    requires
        ({
            ||| call_ensures(ExternalAgentConfigImportStore::record_completed_with_provider, (store, import_id, provider_id, successes, failures), ())
            ||| provider_id is None && call_ensures(ExternalAgentConfigImportStore::record_completed, (store, import_id, successes, failures), ())
        }),
    ensures
        final(store)@.imports.contains_key(import_id@),
        is_recorded_as_given(final(store)@.imports[import_id@], import_id@, provider_id, successes@, failures@),
        forall|other: Seq<char>| other != import_id@ && #[trigger] old(store)@.imports.contains_key(other) ==> final(store)@.imports.contains_key(other) && final(store)@.imports[other]
            == old(store)@.imports[other],
{
}

/// The details of an import are those recorded under its identifier.
pub proof fn law_details_are_those_recorded(store: &ExternalAgentConfigImportStore, import_id: &str, details: Option<ExternalAgentConfigImportDetailsRecord>)
    requires
        call_ensures(ExternalAgentConfigImportStore::details, (store, import_id), details),
    ensures
        details is Some <==> store@.imports.contains_key(import_id@),
        details is Some ==> details->0.successes@ == store@.imports[import_id@].successes && details->0.failures@ == store@.imports[import_id@].failures,
{
}

/// The history holds every recorded import once, the last completed first; of those completed at the same
/// time the identifiers are in order.
pub proof fn law_history_is_latest_first(store: &ExternalAgentConfigImportStore, history: Vec<ExternalAgentConfigImportHistoryRecord>)
    requires
        call_ensures(ExternalAgentConfigImportStore::history, (store,), history),
        forall|id: Seq<char>| #[trigger] store@.imports.contains_key(id) ==> store@.imports[id].import_id == id,
    ensures
        forall|i: int|
            #![trigger history@[i]]
            0 <= i < history@.len() ==> {
                let row = store@.imports[history@[i].import_id@];
                &&& store@.imports.contains_key(history@[i].import_id@)
                &&& history@[i].completed_at_ms == row.completed_at_ms
                &&& history@[i].successes@ == row.successes
                &&& history@[i].failures@ == row.failures
                &&& history@[i].provider_id is Some <==> row.provider_id is Some
                &&& history@[i].provider_id is Some ==> history@[i].provider_id->0@ == row.provider_id->0
            },
        forall|id: Seq<char>| #[trigger] store@.imports.contains_key(id) ==> exists|i: int| 0 <= i < history@.len() && (#[trigger] history@[i]).import_id@ == id,
        forall|i: int, j: int|
            #![trigger history@[i], history@[j]]
            0 <= i < j < history@.len() ==> {
                &&& history@[i].import_id@ != history@[j].import_id@
                &&& history@[i].completed_at_ms >= history@[j].completed_at_ms
                &&& history@[i].completed_at_ms == history@[j].completed_at_ms ==> text_before(history@[i].import_id@, history@[j].import_id@)
            },
{
    let rows = choose|rows: Seq<ImportRowView>| {
        &&& #[trigger] is_full_listing::<ImportRow, AllImports, LatestFirst>(store@.imports, AllImports {  }, LatestFirst {  }, rows)
        &&& is_history_of(rows, history@)
    };
    assert forall|i: int| #![trigger history@[i]] 0 <= i < history@.len() implies is_record_of(rows[i], history@[i]) && store@.imports.contains_key(history@[i].import_id@)
        && store@.imports[history@[i].import_id@] == rows[i] by {
        assert(row_selected::<ImportRow, AllImports>(store@.imports, AllImports {  }, rows[i]));
    }
    assert forall|id: Seq<char>| #[trigger] store@.imports.contains_key(id) implies exists|i: int| 0 <= i < history@.len() && (#[trigger] history@[i]).import_id@ == id by {
        let row = store@.imports[id];
        assert(row_selected::<ImportRow, AllImports>(store@.imports, AllImports {  }, row));
        let i = choose|i: int| 0 <= i < rows.len() && rows[i] == row;
        assert(history@[i].import_id@ == id);
    }
    assert forall|i: int, j: int| #![trigger history@[i], history@[j]] 0 <= i < j < history@.len() implies {
        &&& history@[i].import_id@ != history@[j].import_id@
        &&& history@[i].completed_at_ms >= history@[j].completed_at_ms
        &&& history@[i].completed_at_ms == history@[j].completed_at_ms ==> text_before(history@[i].import_id@, history@[j].import_id@)
    } by {
        assert(is_record_of(rows[i], history@[i]) && is_record_of(rows[j], history@[j]));
        assert(<ImportRow as crate::table::Row>::key_of(rows[i]) != <ImportRow as crate::table::Row>::key_of(rows[j]));
        assert(!Ranking::<ImportRow>::before(&LatestFirst {  }, rows[j], rows[i]));
        lemma_text_before_total(rows[i].import_id, rows[j].import_id);
    }
}

/// An import selects at least one project, each by a key without slashes, once and in order. It holds the
/// artifacts that it was given: the instructions, and what lies in the selected projects.
pub proof fn law_import_holds_selected_projects(project_keys: Vec<String>, artifacts: MemoryArtifactSet, result: Result<ExternalAgentMemoryImport, ExternalAgentImportError>)
    requires
        call_ensures(ExternalAgentMemoryImport::new, (project_keys, artifacts), result),
    ensures
        project_keys@.len() == 0 ==> result is Err,
        result is Ok ==> {
            let import = result->Ok_0@;
            &&& import.artifacts == artifacts@
            &&& forall|i: int| 0 <= i < project_keys@.len() ==> import.project_keys.contains(#[trigger] project_keys@[i]@)
            &&& forall|key: Seq<char>| #[trigger] import.project_keys.contains(key) ==> exists|i: int| 0 <= i < project_keys@.len() && #[trigger] project_keys@[i]@ == key
            &&& forall|i: int, j: int| #![trigger import.project_keys[i], import.project_keys[j]] 0 <= i < j < import.project_keys.len() ==> text_before(
                import.project_keys[i],
                import.project_keys[j],
            )
            &&& forall|i: int| 0 <= i < project_keys@.len() ==> !(#[trigger] project_keys@[i]@).contains('/')
            &&& forall|i: int|
                0 <= i < artifacts@.len() ==> (#[trigger] artifacts@[i]).path == "extensions/external_agent_import/instructions.md"@ || lies_in_a_project(
                    artifacts@[i].path,
                    import.project_keys,
                )
        },
{
    if result is Ok {
        let import = result->Ok_0@;
        let given = text_views(project_keys@);
        if project_keys@.len() == 0 {
            assert(import.project_keys.contains(import.project_keys[0]));
            assert(given.contains(import.project_keys[0]));
        }
        assert forall|i: int| 0 <= i < project_keys@.len() implies import.project_keys.contains(#[trigger] project_keys@[i]@) && !project_keys@[i]@.contains('/') by {
            assert(given[i] == project_keys@[i]@);
            assert(given.contains(given[i]));
            let k = choose|k: int| 0 <= k < import.project_keys.len() && import.project_keys[k] == given[i];
            assert(!import.project_keys[k].contains('/'));
        }
        assert forall|key: Seq<char>| #[trigger] import.project_keys.contains(key) implies exists|i: int| 0 <= i < project_keys@.len() && #[trigger] project_keys@[i]@ == key by {
            assert(given.contains(key));
            let i = choose|i: int| 0 <= i < given.len() && given[i] == key;
            assert(project_keys@[i]@ == key);
        }
        assert forall|i: int| 0 <= i < artifacts@.len() implies (#[trigger] artifacts@[i]).path == "extensions/external_agent_import/instructions.md"@ || lies_in_a_project(
            artifacts@[i].path,
            import.project_keys,
        ) by {
            assert(in_import_scope(import.artifacts[i].path, import.project_keys));
            lemma_lies_in(artifacts@[i].path, import.project_keys);
        }
    }
}

/// An import is refused without a project; for a key with a slash; and for an artifact outside of its projects,
/// each with an error of its own.
pub proof fn law_refused_imports(project_keys: Vec<String>, artifacts: MemoryArtifactSet, error: ExternalAgentImportError)
    requires
        call_ensures(ExternalAgentMemoryImport::new, (project_keys, artifacts), Err::<ExternalAgentMemoryImport, ExternalAgentImportError>(error)),
    ensures
        error is NoProject <==> project_keys@.len() == 0,
        error is KeyNotComponent <==> project_keys@.len() > 0 && exists|i: int| 0 <= i < project_keys@.len() && (#[trigger] project_keys@[i]@).contains('/'),
        error is OutsideProjects ==> exists|i: int|
            0 <= i < artifacts@.len() && (#[trigger] artifacts@[i]).path != "extensions/external_agent_import/instructions.md"@ && !lies_in_a_project(
                artifacts@[i].path,
                text_views(project_keys@),
            ),
        !(error is Reused),
{
    let given = text_views(project_keys@);
    assert forall|i: int| 0 <= i < project_keys@.len() implies #[trigger] project_keys@[i]@ == given[i] by {}
    if error is KeyNotComponent {
        let i = choose|i: int| 0 <= i < given.len() && #[trigger] given[i].contains('/');
        assert(project_keys@[i]@.contains('/'));
    } else if exists|i: int| 0 <= i < project_keys@.len() && (#[trigger] project_keys@[i]@).contains('/') {
        let i = choose|i: int| 0 <= i < project_keys@.len() && (#[trigger] project_keys@[i]@).contains('/');
        assert(given[i].contains('/'));
    }
    if error is OutsideProjects {
        let i = choose|i: int| 0 <= i < artifacts@.len() && !in_import_scope(#[trigger] artifacts@[i].path, given);
        lemma_lies_in(artifacts@[i].path, given);
        assert(artifacts@[i].path != "extensions/external_agent_import/instructions.md"@);
    }
}

/// The fingerprint of an import is the digest of its bytes, in which the first key stands behind the header and
/// eight bytes of its length.
pub proof fn law_fingerprint_is_the_digest(import: &ExternalAgentMemoryImport, bytes: Vec<u8>, fingerprint: Vec<u8>)
    requires
        call_ensures(super::fingerprint_bytes, (import,), bytes),
        call_ensures(super::memory_import_fingerprint, (import,), fingerprint),
    ensures
        fingerprint@ == super::fingerprint::sha256(bytes@),
        import@.project_keys.len() > 0 ==> {
            let start = encode_utf8("codex-external-agent-memory-import-v1\0"@).len() + 8;
            let key = encode_utf8(import@.project_keys[0]);
            bytes@.subrange(start as int, (start + key.len()) as int) == key
        },
{
    if import@.project_keys.len() > 0 {
        let header = encode_utf8("codex-external-agent-memory-import-v1\0"@);
        let key = encode_utf8(import@.project_keys[0]);
        lemma_first_key(import@.project_keys);
        lemma_frame(key);
        let keys = framed_keys(import@.project_keys);
        let start = header.len() as int + 8;
        assert(framed(key) =~= keys.subrange(0, framed(key).len() as int));
        assert forall|i: int| 0 <= i < key.len() implies bytes@[start + i] == #[trigger] key[i] by {
            assert(bytes@[start + i] == keys[8 + i]);
            assert(keys.subrange(0, framed(key).len() as int)[8 + i] == keys[8 + i]);
            assert(framed(key).skip(8)[i] == framed(key)[8 + i]);
        }
        assert(bytes@.subrange(start, start + key.len()) =~= key);
    }
}

proof fn lemma_first_key(keys: Seq<Seq<char>>)
    requires
        keys.len() > 0,
    ensures
        framed(encode_utf8(keys[0])).is_prefix_of(framed_keys(keys)),
    decreases keys.len(),
{
    let first = framed(encode_utf8(keys[0]));
    let front = framed_keys(keys.drop_last());
    if keys.len() > 1 {
        lemma_first_key(keys.drop_last());
        assert(first =~= front.subrange(0, first.len() as int));
        assert forall|i: int| 0 <= i < first.len() implies #[trigger] first[i] == framed_keys(keys)[i] by {
            assert(front.subrange(0, first.len() as int)[i] == front[i]);
        }
        assert(first =~= framed_keys(keys).subrange(0, first.len() as int));
    } else {
        assert(keys.drop_last().len() == 0);
        assert(front =~= Seq::empty());
        assert(first =~= framed_keys(keys).subrange(0, first.len() as int));
    }
}

proof fn lemma_lies_in(path: Seq<char>, project_keys: Seq<Seq<char>>)
    ensures
        in_projects(path, project_keys) <==> lies_in_a_project(path, project_keys),
{
    if lies_in_a_project(path, project_keys) {
        let k = choose|k: int| 0 <= k < project_keys.len() && ("extensions/external_agent_import/resources/"@ + #[trigger] project_keys[k] + "/"@).is_prefix_of(path);
        assert(project_prefix(project_keys[k]).is_prefix_of(path));
    }
}

/// Laid over an earlier import, a later one replaces what that holds of its projects and of its paths; the
/// rest of the earlier one stays. Both select their projects together.
pub proof fn law_later_import_is_laid_over(older: ExternalAgentMemoryImport, newer: ExternalAgentMemoryImport, merged: ExternalAgentMemoryImport)
    requires
        call_ensures(ExternalAgentMemoryImport::overlay, (older, newer), Ok::<ExternalAgentMemoryImport, ExternalAgentImportError>(merged)),
    ensures
        forall|artifact: MemoryArtifactView| #[trigger]
            merged@.artifacts.contains(artifact) <==> {
                ||| newer@.artifacts.contains(artifact)
                ||| older@.artifacts.contains(artifact) && !lies_in_a_project(artifact.path, newer@.project_keys) && forall|k: int|
                    0 <= k < newer@.artifacts.len() ==> (#[trigger] newer@.artifacts[k]).path != artifact.path
            },
        forall|key: Seq<char>| #[trigger] merged@.project_keys.contains(key) <==> older@.project_keys.contains(key) || newer@.project_keys.contains(key),
{
    let laid = overlaid(older@.artifacts, newer@.project_keys, newer@.artifacts);
    assert forall|artifact: MemoryArtifactView| #[trigger] merged@.artifacts.contains(artifact) <==> {
        ||| newer@.artifacts.contains(artifact)
        ||| older@.artifacts.contains(artifact) && !lies_in_a_project(artifact.path, newer@.project_keys) && forall|k: int|
            0 <= k < newer@.artifacts.len() ==> (#[trigger] newer@.artifacts[k]).path != artifact.path
    } by {
        assert(laid.contains(artifact) <==> merged@.artifacts.contains(artifact));
        law_overlay_replaces_selected_projects(older@.artifacts, newer@.project_keys, newer@.artifacts, artifact);
        lemma_lies_in(artifact.path, newer@.project_keys);
    }
    assert forall|key: Seq<char>| #[trigger] merged@.project_keys.contains(key) <==> older@.project_keys.contains(key) || newer@.project_keys.contains(key) by {
        let given = older@.project_keys + newer@.project_keys;
        assert(given.contains(key) <==> merged@.project_keys.contains(key));
        crate::sequences::lemma_concat_members(older@.project_keys, newer@.project_keys, key);
    }
}

/// The bytes in front of which a text or contents stand say how many bytes follow.
pub open spec fn counted_bytes(size: nat) -> nat {
    8 + size
}

/// Bytes of the framed keys.
pub open spec fn key_bytes(keys: Seq<Seq<char>>) -> nat {
    keys.fold_left(0nat, |sum: nat, key: Seq<char>| sum + counted_bytes(encode_utf8(key).len()))
}

/// Bytes of the framed artifacts.
pub open spec fn artifact_bytes(artifacts: Seq<MemoryArtifactView>) -> nat {
    artifacts.fold_left(
        0nat,
        |sum: nat, artifact: MemoryArtifactView| sum + counted_bytes(encode_utf8(artifact.path).len()) + counted_bytes(artifact.contents.len()),
    )
}

proof fn lemma_frame(bytes: Seq<u8>)
    ensures
        framed(bytes).len() == counted_bytes(bytes.len()),
        framed(bytes).skip(8) == bytes,
{
    vstd::bytes::lemma_auto_spec_u64_to_from_le_bytes();
    assert(framed(bytes).skip(8) =~= bytes);
}

proof fn lemma_key_bytes(keys: Seq<Seq<char>>)
    ensures
        framed_keys(keys).len() == key_bytes(keys),
    decreases keys.len(),
{
    if keys.len() > 0 {
        lemma_key_bytes(keys.drop_last());
        lemma_frame(encode_utf8(keys.last()));
    }
}

proof fn lemma_artifact_bytes(artifacts: Seq<MemoryArtifactView>)
    ensures
        framed_artifacts(artifacts).len() == artifact_bytes(artifacts),
    decreases artifacts.len(),
{
    if artifacts.len() > 0 {
        lemma_artifact_bytes(artifacts.drop_last());
        lemma_frame(encode_utf8(artifacts.last().path));
        lemma_frame(artifacts.last().contents);
    }
}

/// What is digested of an import takes every key, every path and all contents in, each behind eight bytes of
/// its length. The contents of the last artifact stand last, and its path before them.
pub proof fn law_fingerprint_takes_everything_in(import: &ExternalAgentMemoryImport, bytes: Vec<u8>)
    requires
        call_ensures(super::fingerprint_bytes, (import,), bytes),
    ensures
        bytes@.len() == encode_utf8("codex-external-agent-memory-import-v1\0"@).len() + key_bytes(import@.project_keys) + 1 + artifact_bytes(import@.artifacts),
        encode_utf8("codex-external-agent-memory-import-v1\0"@).is_prefix_of(bytes@),
        import@.artifacts.len() > 0 ==> {
            let last = import@.artifacts.last();
            let end = bytes@.len() - last.contents.len();
            let path_end = end - 8;
            &&& bytes@.skip(end) == last.contents
            &&& bytes@.subrange(path_end - encode_utf8(last.path).len(), path_end) == encode_utf8(last.path)
        },
{
    let start = encode_utf8("codex-external-agent-memory-import-v1\0"@);
    let keys = framed_keys(import@.project_keys);
    let rest = framed_artifacts(import@.artifacts);
    lemma_key_bytes(import@.project_keys);
    lemma_artifact_bytes(import@.artifacts);
    assert(start =~= bytes@.subrange(0, start.len() as int));
    if import@.artifacts.len() > 0 {
        let last = import@.artifacts.last();
        let before = start + keys + seq![0xffu8] + framed_artifacts(import@.artifacts.drop_last());
        let path = framed(encode_utf8(last.path));
        let contents = framed(last.contents);
        lemma_frame(encode_utf8(last.path));
        lemma_frame(last.contents);
        assert(bytes@ =~= before + path + contents);
        let end = bytes@.len() - last.contents.len();
        assert(bytes@.skip(end) =~= contents.skip(8));
        assert(bytes@.subrange(end - 8 - encode_utf8(last.path).len(), end - 8) =~= path.skip(8));
    }
}

/// A completion with memory is recorded as one without is. Where files on disk are authoritative, a
/// consolidation is asked for and the memory is left alone. In a shared database the memory is taken in
/// once for each identifier: a repetition changes no memory, and other memory under the same identifier is
/// refused and changes nothing.
pub proof fn law_memory_is_taken_in_once(
    store: &mut ExternalAgentConfigImportStore,
    memories: &mut MemoryStore,
    import_id: &str,
    provider_id: Option<&str>,
    successes: &[ExternalAgentConfigImportSuccessRecord],
    failures: &[ExternalAgentConfigImportFailureRecord],
    import: &ExternalAgentMemoryImport,
    generation_id: String,
    now_ms: i64,
    memory_now: i64,
    fingerprint: Vec<u8>,
    result: Result<(), ImportRecordError>,
)
    requires
        call_ensures(
            ExternalAgentConfigImportStore::record_completed_with_memory_import_at,
            (store, memories, import_id, provider_id, successes, failures, import, generation_id, now_ms, memory_now),
            result,
        ),
        call_ensures(super::memory_import_fingerprint, (import,), fingerprint),
        !old(memories)@.closed,
    ensures
        result is Ok ==> {
            &&& final(store)@.imports.contains_key(import_id@)
            &&& is_recorded_as_given(final(store)@.imports[import_id@], import_id@, provider_id, successes@, failures@)
            &&& final(store)@.imports[import_id@].completed_at_ms == now_ms
            &&& forall|other: Seq<char>| other != import_id@ && #[trigger] old(store)@.imports.contains_key(other) ==> final(store)@.imports.contains_key(other)
                && final(store)@.imports[other] == old(store)@.imports[other]
        },
        old(store)@.backend is Sqlite ==> {
            &&& final(memories)@.generations == old(memories)@.generations
            &&& final(memories)@.outputs == old(memories)@.outputs
            &&& result is Ok ==> final(memories)@.global_job is Some && final(memories)@.global_job->0.input_watermark is Some
                && final(memories)@.global_job->0.input_watermark->0 >= memory_now
        },
        old(store)@.backend is Postgresql && result is Ok ==> final(store)@.imports[import_id@].memory_import_fingerprint == Some(fingerprint@),
        old(store)@.backend is Postgresql && result is Err ==> final(store)@ == old(store)@ && final(memories)@ == old(memories)@,
        old(store)@.backend is Postgresql && old(store)@.imports.contains_key(import_id@) && old(store)@.imports[import_id@].memory_import_fingerprint is Some ==> {
            &&& final(memories)@ == old(memories)@
            &&& result is Ok <==> old(store)@.imports[import_id@].memory_import_fingerprint->0 == fingerprint@
            &&& result is Ok ==> final(store)@.imports[import_id@].memory_generation_id == old(store)@.imports[import_id@].memory_generation_id
        },
        old(store)@.backend is Postgresql && !(old(store)@.imports.contains_key(import_id@) && old(store)@.imports[import_id@].memory_import_fingerprint is Some) && result is Ok ==> {
            let generations = final(memories)@.generations;
            &&& generations.len() > 0 ==> final(store)@.imports[import_id@].memory_generation_id == Some(generations[generations.len() - 1].generation_id)
            &&& generations.len() == 0 ==> final(store)@.imports[import_id@].memory_generation_id is None
        },
{
    assert(memory_completion(
        old(store)@,
        old(memories)@,
        import_id@,
        CompletionView { provider_id: str_view(provider_id), successes: successes@, failures: failures@ },
        import@,
        generation_id@,
        now_ms,
        memory_now,
        final(store)@,
        final(memories)@,
        result,
    ));
    if old(store)@.backend is Postgresql && old(store)@.memory_of(import_id@).0 is None && result is Ok {
        let published = choose|published: Option<String>| {
            &&& #[trigger] import_application(old(memories)@, import@, generation_id@, memory_now, final(memories)@, Ok::<Option<String>, MemoryStoreError>(published))
            &&& final(store)@ == old(store)@.completed(
                import_id@,
                CompletionView { provider_id: str_view(provider_id), successes: successes@, failures: failures@ },
                (Some(fingerprint@), crate::thread_id::opt_view(published)),
                now_ms,
            )
        };
    }
}

/// The resources of a project lie under its key.
pub proof fn law_resources_lie_under_their_key(key: &str, prefix: String, path: &str, keys: &Vec<String>, found: bool)
    requires
        call_ensures(super::memory_import::project_prefix_text, (key,), prefix),
        call_ensures(super::memory_import::is_in_projects, (path, keys), found),
    ensures
        prefix@ == "extensions/external_agent_import/resources/"@ + key@ + "/"@,
        found <==> lies_in_a_project(path@, text_views(keys@)),
{
    lemma_lies_in(path@, text_views(keys@));
}

/// Of older artifacts those stay that lie in no replaced project and at no path of a newer one; all newer ones
/// come behind them.
pub proof fn law_newer_artifacts_are_laid_over(older: &[MemoryArtifact], keys: &Vec<String>, newer: &[MemoryArtifact], merged: Vec<MemoryArtifact>, artifact: MemoryArtifactView)
    requires
        call_ensures(super::overlay_artifacts, (older, keys, newer), merged),
    ensures
        artifact_views(merged@).contains(artifact) <==> {
            ||| artifact_views(newer@).contains(artifact)
            ||| artifact_views(older@).contains(artifact) && !lies_in_a_project(artifact.path, text_views(keys@)) && forall|k: int|
                0 <= k < newer@.len() ==> (#[trigger] newer@[k])@.path != artifact.path
        },
{
    law_overlay_replaces_selected_projects(artifact_views(older@), text_views(keys@), artifact_views(newer@), artifact);
    lemma_lies_in(artifact.path, text_views(keys@));
    let views = artifact_views(newer@);
    assert forall|k: int| 0 <= k < newer@.len() implies (#[trigger] newer@[k])@ == views[k] by {}
    if super::memory_import::has_path(views, artifact.path) {
        let k = choose|k: int| 0 <= k < views.len() && #[trigger] views[k].path == artifact.path;
        assert(newer@[k]@.path == artifact.path);
    } else if !(forall|k: int| 0 <= k < newer@.len() ==> (#[trigger] newer@[k])@.path != artifact.path) {
        let k = choose|k: int| 0 <= k < newer@.len() && (#[trigger] newer@[k])@.path == artifact.path;
        assert(views[k].path == artifact.path);
    }
}

/// At the time of the clock a completion with memory is recorded as it was given too.
pub proof fn law_completion_with_memory_now(
    store: &mut ExternalAgentConfigImportStore,
    memories: &mut MemoryStore,
    import_id: &str,
    provider_id: Option<&str>,
    successes: &[ExternalAgentConfigImportSuccessRecord],
    failures: &[ExternalAgentConfigImportFailureRecord],
    import: &ExternalAgentMemoryImport,
    result: Result<(), ImportRecordError>,
)
    requires
        ({
            ||| call_ensures(
                ExternalAgentConfigImportStore::record_completed_with_memory_import_and_provider,
                (store, memories, import_id, provider_id, successes, failures, import),
                result,
            )
            ||| provider_id is None && call_ensures(
                ExternalAgentConfigImportStore::record_completed_with_memory_import,
                (store, memories, import_id, successes, failures, import),
                result,
            )
        }),
    ensures
        result is Ok ==> {
            &&& final(store)@.imports.contains_key(import_id@)
            &&& is_recorded_as_given(final(store)@.imports[import_id@], import_id@, provider_id, successes@, failures@)
            &&& !old(memories)@.closed
            &&& forall|other: Seq<char>| other != import_id@ && #[trigger] old(store)@.imports.contains_key(other) ==> final(store)@.imports[other] == old(store)@.imports[other]
        },
        old(store)@.backend is Postgresql && result is Err ==> final(store)@ == old(store)@ && final(memories)@ == old(memories)@,
        old(store)@.backend is Sqlite ==> final(memories)@.generations == old(memories)@.generations && final(memories)@.outputs == old(memories)@.outputs,
{
    let completion = CompletionView { provider_id: str_view(provider_id), successes: successes@, failures: failures@ };
    let (now_ms, memory_now, generation_id) = choose|now_ms: i64, memory_now: i64, generation_id: Seq<char>| #[trigger]
        memory_completion(
            old(store)@,
            old(memories)@,
            import_id@,
            completion,
            import@,
            generation_id,
            now_ms,
            memory_now,
            final(store)@,
            final(memories)@,
            result,
        );
}

} // verus!
