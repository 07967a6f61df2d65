//! Publication of memory generations.

use super::outputs::completed_phase2;
use super::outputs::output_views;
use super::outputs::succeeding_phase2;
use super::outputs::Stage1Output;
use super::outputs::Stage1OutputView;
use super::phase2::enqueue_job;
use super::phase2::enqueued;
use super::phase2::owns_phase2;
use super::generation::artifact_views;
use super::generation::is_artifact_set;
use super::generation::is_portable_path;
use super::generation::refuses_set;
use super::generation::same_members;
use super::MemoryArtifact;
use super::MemoryArtifactError;
use super::MemoryArtifactSet;
use super::MemoryArtifactView;
use super::MemoryGeneration;
use super::MemoryGenerationView;
use super::MemoryStore;
use super::MemoryStoreError;
use super::MemoryStoreView;
use super::MemoryWorkspaceMaterialization;
use crate::backend::RuntimeStateBackend;
use crate::external_agent_config_imports::extension_prefix;
use crate::external_agent_config_imports::overlaid;
use crate::external_agent_config_imports::overlay_artifacts;
use crate::external_agent_config_imports::ExternalAgentMemoryImport;
use crate::external_agent_config_imports::ExternalAgentMemoryImportView;
use crate::sequences::same_bytes;
use crate::outside::new_identifier;
use crate::text::has_prefix;
use crate::text::same_text;
use crate::thread_id::opt_view;
use vstd::prelude::*;

verus! {

/// The bytes of all artifacts together.
pub open spec fn total_bytes(artifacts: Seq<MemoryArtifactView>) -> nat
    decreases artifacts.len(),
{
    if artifacts.len() == 0 {
        0
    } else {
        total_bytes(artifacts.drop_last()) + artifacts.last().contents.len()
    }
}

proof fn lemma_total_bytes_monotone(artifacts: Seq<MemoryArtifactView>, end: int)
    requires
        0 <= end <= artifacts.len(),
    ensures
        total_bytes(artifacts.take(end)) <= total_bytes(artifacts),
    decreases artifacts.len(),
{
    if end == artifacts.len() {
        assert(artifacts.take(end) =~= artifacts);
    } else {
        lemma_total_bytes_monotone(artifacts.drop_last(), end);
        assert(artifacts.drop_last().take(end) =~= artifacts.take(end));
    }
}

/// The bytes of all artifacts together, if they can be counted.
pub fn total_artifact_bytes(artifacts: &MemoryArtifactSet) -> (result: Result<i64, MemoryStoreError>)
    ensures
        match result {
            Ok(total) => total == total_bytes(artifacts@),
            Err(error) => total_bytes(artifacts@) > i64::MAX && error == MemoryStoreError::GenerationTooLarge,
        },
{
    let members = artifacts.artifacts();
    let ghost all = artifact_views(members@);
    let mut total: i64 = 0;
    let mut i: usize = 0;
    while i < members.len()
        invariant
            all == artifact_views(members@),
            all == artifacts@,
            i <= members@.len(),
            total == total_bytes(all.take(i as int)),
        decreases members@.len() - i,
    {
        assert(all[i as int] == members@[i as int]@);
        assert(all.take(i + 1).drop_last() =~= all.take(i as int));
        let size: usize = members[i].contents().len();
        let left: i64 = i64::MAX - total;
        if size as u128 > left as u128 {
            proof {
                lemma_total_bytes_monotone(all, i + 1);
            }
            return Err(MemoryStoreError::GenerationTooLarge);
        }
        total = total + size as i64;
        i += 1;
    }
    assert(all.take(i as int) =~= all);
    Ok(total)
}

/// Why the artifacts are too many or too large for a generation.
pub open spec fn size_error(artifacts: Seq<MemoryArtifactView>) -> Option<MemoryStoreError> {
    if artifacts.len() > i32::MAX {
        Some(MemoryStoreError::TooManyArtifacts)
    } else if total_bytes(artifacts) > i64::MAX {
        Some(MemoryStoreError::GenerationTooLarge)
    } else {
        None
    }
}

fn check_size(artifacts: &MemoryArtifactSet) -> (result: Result<(), MemoryStoreError>)
    ensures
        match result {
            Ok(_) => size_error(artifacts@) is None,
            Err(error) => size_error(artifacts@) == Some(error),
        },
{
    if artifacts.artifacts().len() as u128 > i32::MAX as u128 {
        return Err(MemoryStoreError::TooManyArtifacts);
    }
    match total_artifact_bytes(artifacts) {
        Ok(_) => Ok(()),
        Err(error) => Err(error),
    }
}

/// The artifact was imported from an external agent.
pub open spec fn is_imported(artifact: MemoryArtifactView) -> bool {
    extension_prefix().is_prefix_of(artifact.path)
}

/// What a consolidation publishes: its own artifacts outside the imports, and the imports of the
/// active generation.
pub open spec fn preserving_imports(
    artifacts: Seq<MemoryArtifactView>,
    active: Option<MemoryGenerationView>,
) -> Seq<MemoryArtifactView> {
    let own = artifacts.filter(|artifact: MemoryArtifactView| !is_imported(artifact));
    match active {
        Some(generation) => own + generation.artifacts.filter(|artifact: MemoryArtifactView| is_imported(artifact)),
        None => own,
    }
}

/// Append copies of the artifacts that are imported, or of those that are not.
fn append_artifacts(merged: &mut Vec<MemoryArtifact>, artifacts: &[MemoryArtifact], imported: bool)
    ensures
        artifact_views(final(merged)@) == artifact_views(old(merged)@)
            + artifact_views(artifacts@).filter(|artifact: MemoryArtifactView| is_imported(artifact) == imported),
{
    let ghost start = artifact_views(merged@);
    let ghost all = artifact_views(artifacts@);
    let ghost keep = |artifact: MemoryArtifactView| is_imported(artifact) == imported;
    let mut i: usize = 0;
    assert(all.take(0).filter(keep) =~= Seq::empty()) by {
        reveal(Seq::filter);
    }
    assert(start + all.take(0).filter(keep) =~= start);
    while i < artifacts.len()
        invariant
            all == artifact_views(artifacts@),
            keep == (|artifact: MemoryArtifactView| is_imported(artifact) == imported),
            i <= artifacts@.len(),
            artifact_views(merged@) == start + all.take(i as int).filter(keep),
        decreases artifacts@.len() - i,
    {
        let ghost so_far = artifact_views(merged@);
        assert(all[i as int] == artifacts@[i as int]@);
        proof {
            reveal(Seq::filter);
            assert(all.take(i + 1).drop_last() =~= all.take(i as int));
        }
        if has_prefix(artifacts[i].path(), "extensions/external_agent_import/") == imported {
            merged.push(artifacts[i].clone());
            assert(artifact_views(merged@) =~= so_far.push(all[i as int]));
            assert((start + all.take(i as int).filter(keep)).push(all[i as int]) =~= start + all.take(i as int).filter(keep).push(all[i as int]));
        }
        i += 1;
    }
    assert(all.take(i as int) =~= all);
}

/// Whether two sequences of artifacts are the same.
fn same_artifacts(left: &[MemoryArtifact], right: &[MemoryArtifact]) -> (same: bool)
    ensures
        same == (artifact_views(left@) == artifact_views(right@)),
{
    let ghost a = artifact_views(left@);
    let ghost b = artifact_views(right@);
    if left.len() != right.len() {
        assert(a.len() != b.len());
        return false;
    }
    let mut i: usize = 0;
    while i < left.len()
        invariant
            a == artifact_views(left@),
            b == artifact_views(right@),
            left@.len() == right@.len(),
            i <= left@.len(),
            forall|j: int| 0 <= j < i ==> a[j] == b[j],
        decreases left@.len() - i,
    {
        assert(a[i as int] == left@[i as int]@ && b[i as int] == right@[i as int]@);
        if !same_text(left[i].path(), right[i].path()) || !same_bytes(left[i].contents(), right[i].contents()) {
            assert(a[i as int] != b[i as int]);
            return false;
        }
        assert(a[i as int] =~= b[i as int]);
        i += 1;
    }
    assert(a =~= b);
    true
}

/// The state with one more generation, active from then on.
pub open spec fn with_generation(
    state: MemoryStoreView,
    generation_id: Seq<char>,
    completed_watermark: i64,
    artifacts: Seq<MemoryArtifactView>,
    now: i64,
) -> MemoryStoreView {
    MemoryStoreView {
        generations: state.generations.push(
            MemoryGenerationView { generation_id, completed_watermark, published_at: now, artifacts },
        ),
        ..state
    }
}

/// What publishing returns, and the state it leaves.
pub open spec fn publication(
    before: MemoryStoreView,
    token: Seq<char>,
    completed_watermark: i64,
    chosen: Seq<Stage1OutputView>,
    artifacts: Seq<MemoryArtifactView>,
    generation_id: Seq<char>,
    now: i64,
    after: MemoryStoreView,
    result: Result<bool, MemoryStoreError>,
) -> bool {
    let merged = preserving_imports(artifacts, before.active_generation());
    match result {
        Ok(false) => !owns_phase2(before, token, now) && after == before,
        Ok(true) => owns_phase2(before, token, now) && exists|published: Seq<MemoryArtifactView>| {
            &&& is_artifact_set(published)
            &&& same_members(merged, published)
            &&& size_error(published) is None
            &&& after == #[trigger] with_generation(completed_phase2(before, completed_watermark, chosen, now), generation_id, completed_watermark, published, now)
        },
        Err(MemoryStoreError::Artifact(error)) => owns_phase2(before, token, now) && refuses_set(merged, error) && after == before,
        Err(error) => {
            &&& owns_phase2(before, token, now)
            &&& exists|published: Seq<MemoryArtifactView>| is_artifact_set(published) && #[trigger] same_members(merged, published) && size_error(published) == Some(error)
            &&& after == before
        },
    }
}

/// The artifacts once an import is applied to the active generation.
pub open spec fn with_import(
    active: Option<MemoryGenerationView>,
    import: ExternalAgentMemoryImportView,
) -> Seq<MemoryArtifactView> {
    let current = match active {
        Some(generation) => generation.artifacts,
        None => Seq::empty(),
    };
    overlaid(current, import.project_keys, import.artifacts)
}

/// Applying the import leaves the published artifacts as they are.
pub open spec fn changes_nothing(active: Option<MemoryGenerationView>, artifacts: Seq<MemoryArtifactView>) -> bool {
    match active {
        Some(generation) => generation.artifacts == artifacts,
        None => artifacts.len() == 0,
    }
}

/// What applying an import returns, and the state it leaves: a new generation, and a consolidation
/// to take it in, unless nothing changes.
pub open spec fn import_application(
    before: MemoryStoreView,
    import: ExternalAgentMemoryImportView,
    generation_id: Seq<char>,
    now: i64,
    after: MemoryStoreView,
    result: Result<Option<String>, MemoryStoreError>,
) -> bool {
    let active = before.active_generation();
    let merged = with_import(active, import);
    let completed_watermark = match active {
        Some(generation) => generation.completed_watermark,
        None => 0,
    };
    match result {
        Ok(published_id) => exists|published: Seq<MemoryArtifactView>| {
            &&& is_artifact_set(published)
            &&& #[trigger] same_members(merged, published)
            &&& if changes_nothing(active, published) {
                &&& after == before
                &&& opt_view(published_id) == match active {
                    Some(generation) => Some(generation.generation_id),
                    None => None,
                }
            } else {
                &&& size_error(published) is None
                &&& enqueued(before.global_job, now) is Some
                &&& after == with_generation(before, generation_id, completed_watermark, published, now).with_global_job(enqueued(before.global_job, now)->0)
                &&& opt_view(published_id) == Some(generation_id)
            }
        },
        Err(MemoryStoreError::Artifact(error)) => refuses_set(merged, error) && after == before,
        Err(error) => after == before && exists|published: Seq<MemoryArtifactView>| {
            &&& is_artifact_set(published)
            &&& #[trigger] same_members(merged, published)
            &&& !changes_nothing(active, published)
            &&& size_error(published) == Some(error) || size_error(published) is None && enqueued(before.global_job, now) is None && error == MemoryStoreError::OutOfRange
        },
    }
}

/// An artifact as it is stored.
#[derive(Debug)]
pub struct StoredArtifact {
    pub path: String,
    pub contents: Vec<u8>,
}

/// A row of the active generation as it is stored: one per artifact, or one without an artifact.
#[derive(Debug)]
pub struct MemoryGenerationRow {
    pub generation_id: String,
    pub completed_watermark: i64,
    pub published_at: i64,
    pub artifact_count: i32,
    pub total_bytes: i64,
    pub artifact: Option<StoredArtifact>,
}

/// The artifacts that the rows hold.
pub open spec fn row_artifacts(rows: Seq<MemoryGenerationRow>) -> Seq<MemoryArtifactView>
    decreases rows.len(),
{
    if rows.len() == 0 {
        Seq::empty()
    } else {
        match rows.last().artifact {
            Some(artifact) => row_artifacts(rows.drop_last()).push(
                MemoryArtifactView { path: artifact.path@, contents: artifact.contents@ },
            ),
            None => row_artifacts(rows.drop_last()),
        }
    }
}

/// Every stored path is portable.
pub open spec fn have_portable_paths(rows: Seq<MemoryGenerationRow>) -> bool {
    forall|i: int| 0 <= i < rows.len() && (#[trigger] rows[i]).artifact is Some ==> is_portable_path(rows[i].artifact->0.path@)
}

/// The first stored path that is not portable.
pub open spec fn first_unportable_path(rows: Seq<MemoryGenerationRow>) -> Option<Seq<char>>
    decreases rows.len(),
{
    if rows.len() == 0 {
        None
    } else if first_unportable_path(rows.drop_last()) is Some {
        first_unportable_path(rows.drop_last())
    } else {
        match rows.last().artifact {
            Some(artifact) => if is_portable_path(artifact.path@) {
                None
            } else {
                Some(artifact.path@)
            },
            None => None,
        }
    }
}

/// There is no such path exactly where all stored paths are portable.
proof fn lemma_unportable_path(rows: Seq<MemoryGenerationRow>)
    ensures
        first_unportable_path(rows) is None <==> have_portable_paths(rows),
    decreases rows.len(),
{
    if rows.len() > 0 {
        let front = rows.drop_last();
        lemma_unportable_path(front);
        assert(rows.last() == rows[rows.len() - 1]);
        assert(forall|i: int| 0 <= i < front.len() ==> #[trigger] front[i] == rows[i]);
        if have_portable_paths(front) && first_unportable_path(rows) is None {
            assert forall|i: int| 0 <= i < rows.len() && (#[trigger] rows[i]).artifact is Some implies is_portable_path(rows[i].artifact->0.path@) by {
                if i < front.len() {
                    assert(front[i] == rows[i]);
                }
            }
        }
    }
}

/// What the first rows hold decides.
proof fn lemma_first_unportable_path(rows: Seq<MemoryGenerationRow>, n: int)
    requires
        0 <= n <= rows.len(),
        first_unportable_path(rows.take(n)) is Some,
    ensures
        first_unportable_path(rows) == first_unportable_path(rows.take(n)),
    decreases rows.len() - n,
{
    if n < rows.len() {
        assert(rows.take(n + 1).drop_last() =~= rows.take(n));
        lemma_first_unportable_path(rows, n + 1);
    } else {
        assert(rows.take(n) =~= rows);
    }
}

/// The generation that the rows describe, if they agree with each other.
pub fn memory_generation_from_rows(rows: Vec<MemoryGenerationRow>) -> (result: Result<Option<MemoryGeneration>, MemoryStoreError>)
    ensures
        match result {
            Ok(None) => rows@.len() == 0,
            Ok(Some(generation)) => {
                &&& rows@.len() > 0
                &&& have_portable_paths(rows@)
                &&& generation@.generation_id == rows@[0].generation_id@
                &&& generation@.completed_watermark == rows@[0].completed_watermark
                &&& generation@.published_at == rows@[0].published_at
                &&& is_artifact_set(generation@.artifacts)
                &&& same_members(row_artifacts(rows@), generation@.artifacts)
                &&& rows@[0].artifact_count == generation@.artifacts.len()
                &&& rows@[0].total_bytes == total_bytes(generation@.artifacts)
            },
            Err(MemoryStoreError::Artifact(error)) => {
                &&& rows@.len() > 0
                &&& match first_unportable_path(rows@) {
                    Some(path) => error == if path.len() == 0 {
                        MemoryArtifactError::EmptyPath
                    } else {
                        MemoryArtifactError::NotPortable
                    },
                    None => refuses_set(row_artifacts(rows@), error),
                }
            },
            Err(error) => {
                &&& rows@.len() > 0
                &&& have_portable_paths(rows@)
                &&& exists|stored: Seq<MemoryArtifactView>| {
                    &&& is_artifact_set(stored)
                    &&& #[trigger] same_members(row_artifacts(rows@), stored)
                    &&& error == if rows@[0].artifact_count != stored.len() {
                        MemoryStoreError::CountMismatch
                    } else if total_bytes(stored) > i64::MAX {
                        MemoryStoreError::GenerationTooLarge
                    } else {
                        MemoryStoreError::BytesMismatch
                    }
                    &&& error == MemoryStoreError::BytesMismatch ==> rows@[0].total_bytes != total_bytes(stored)
                }
            },
        },
{
    if rows.len() == 0 {
        return Ok(None);
    }
    let mut artifacts: Vec<MemoryArtifact> = Vec::new();
    let mut i: usize = 0;
    while i < rows.len()
        invariant
            rows@.len() > 0,
            i <= rows@.len(),
            first_unportable_path(rows@.take(i as int)) is None,
            artifact_views(artifacts@) == row_artifacts(rows@.take(i as int)),
        decreases rows@.len() - i,
    {
        assert(rows@.take(i + 1).drop_last() =~= rows@.take(i as int));
        if let Some(stored) = &rows[i].artifact {
            let contents = copy_bytes(&stored.contents);
            match MemoryArtifact::new(stored.path.as_str(), contents) {
                Ok(artifact) => {
                    let ghost so_far = artifact_views(artifacts@);
                    artifacts.push(artifact);
                    assert(artifact_views(artifacts@) =~= so_far.push(artifact@));
                },
                Err(error) => {
                    assert(rows@.take(i + 1).last() == rows@[i as int]);
                    proof {
                        lemma_first_unportable_path(rows@, i + 1);
                    }
                    return Err(MemoryStoreError::Artifact(error));
                },
            }
        }
        i += 1;
    }
    assert(rows@.take(i as int) =~= rows@);
    proof {
        lemma_unportable_path(rows@);
    }
    let artifacts = match MemoryArtifactSet::new(artifacts) {
        Ok(set) => set,
        Err(error) => {
            return Err(MemoryStoreError::Artifact(error));
        },
    };
    assert(is_artifact_set(artifacts@) && same_members(row_artifacts(rows@), artifacts@));
    let first = &rows[0];
    if first.artifact_count < 0 || first.artifact_count as u128 != artifacts.artifacts().len() as u128 {
        return Err(MemoryStoreError::CountMismatch);
    }
    let actual: i64 = match total_artifact_bytes(&artifacts) {
        Ok(total) => total,
        Err(error) => {
            return Err(error);
        },
    };
    if first.total_bytes != actual {
        return Err(MemoryStoreError::BytesMismatch);
    }
    Ok(Some(MemoryGeneration::new(first.generation_id.clone(), first.completed_watermark, first.published_at, artifacts)))
}

fn copy_bytes(bytes: &Vec<u8>) -> (copy: Vec<u8>)
    ensures
        copy@ == bytes@,
{
    let mut copy: Vec<u8> = Vec::new();
    let mut i: usize = 0;
    while i < bytes.len()
        invariant
            i <= bytes@.len(),
            copy@ == bytes@.take(i as int),
        decreases bytes@.len() - i,
    {
        copy.push(bytes[i]);
        assert(bytes@.take(i + 1) =~= bytes@.take(i as int).push(bytes@[i as int]));
        i += 1;
    }
    assert(bytes@.take(i as int) =~= bytes@);
    copy
}

impl MemoryStore {
    /// The generation that was published last.
    fn active(&self) -> (generation: Option<&MemoryGeneration>)
        ensures
            match generation {
                Some(generation) => self@.active_generation() == Some(generation@),
                None => self@.active_generation() is None,
            },
    {
        let size: usize = self.generations.len();
        if size == 0 {
            return None;
        }
        assert(self@.generations[size - 1] == self.generations@[size - 1]@);
        Some(&self.generations[size - 1])
    }

    /// Publish a generation; it is the active one from then on.
    pub fn insert_and_activate_generation(
        &mut self,
        generation_id: String,
        completed_watermark: i64,
        artifacts: &MemoryArtifactSet,
        now: i64,
    ) -> (result: Result<(), MemoryStoreError>)
        ensures
            match result {
                Ok(_) => {
                    &&& !old(self)@.closed
                    &&& size_error(artifacts@) is None
                    &&& final(self)@ == with_generation(old(self)@, generation_id@, completed_watermark, artifacts@, now)
                },
                Err(error) => {
                    &&& final(self)@ == old(self)@
                    &&& if old(self)@.closed {
                        error == MemoryStoreError::Closed
                    } else {
                        size_error(artifacts@) == Some(error)
                    }
                },
            },
    {
        if self.closed {
            return Err(MemoryStoreError::Closed);
        }
        match check_size(artifacts) {
            Ok(_) => {},
            Err(error) => {
                return Err(error);
            },
        }
        let generation = MemoryGeneration::new(generation_id, completed_watermark, now, artifacts.clone());
        let ghost before = self@.generations;
        self.generations.push(generation);
        assert(self@.generations =~= before.push(generation@));
        Ok(())
    }

    /// Publish a generation that was kept elsewhere before, and return it as it is stored.
    pub fn import_migrated_memory_generation(
        &mut self,
        generation_id: String,
        completed_watermark: i64,
        artifacts: &MemoryArtifactSet,
        now: i64,
    ) -> (result: Result<MemoryGeneration, MemoryStoreError>)
        ensures
            match result {
                Ok(generation) => {
                    &&& !old(self)@.closed
                    &&& size_error(artifacts@) is None
                    &&& generation@ == (MemoryGenerationView { generation_id: generation_id@, completed_watermark, published_at: now, artifacts: artifacts@ })
                    &&& final(self)@ == with_generation(old(self)@, generation_id@, completed_watermark, artifacts@, now)
                },
                Err(error) => {
                    &&& final(self)@ == old(self)@
                    &&& if old(self)@.closed {
                        error == MemoryStoreError::Closed
                    } else {
                        size_error(artifacts@) == Some(error)
                    }
                },
            },
    {
        let copy = generation_id.clone();
        match self.insert_and_activate_generation(generation_id, completed_watermark, artifacts, now) {
            Ok(_) => Ok(MemoryGeneration::new(copy, completed_watermark, now, artifacts.clone())),
            Err(error) => Err(error),
        }
    }

    /// Complete the global job and publish what it made, under the given identifier.
    pub fn publish_memory_generation(
        &mut self,
        ownership_token: &str,
        completed_watermark: i64,
        selected_outputs: &[Stage1Output],
        artifacts: &MemoryArtifactSet,
        generation_id: String,
        now: i64,
    ) -> (result: Result<bool, MemoryStoreError>)
        ensures
            if old(self)@.closed {
                final(self)@ == old(self)@ && result == Err::<bool, MemoryStoreError>(MemoryStoreError::Closed)
            } else {
                publication(
                    old(self)@,
                    ownership_token@,
                    completed_watermark,
                    output_views(selected_outputs@),
                    artifacts@,
                    generation_id@,
                    now,
                    final(self)@,
                    result,
                )
            },
    {
        if self.closed {
            return Err(MemoryStoreError::Closed);
        }
        let owned = match self.owned_global_job(ownership_token, now) {
            Some(_) => true,
            None => false,
        };
        if !owned {
            return Ok(false);
        }
        let mut merged: Vec<MemoryArtifact> = Vec::new();
        append_artifacts(&mut merged, artifacts.artifacts(), false);
        let ghost own = artifacts@.filter(|artifact: MemoryArtifactView| is_imported(artifact) == false);
        proof {
            assert((|artifact: MemoryArtifactView| is_imported(artifact) == false) =~= (|artifact: MemoryArtifactView| !is_imported(artifact)));
            assert((|artifact: MemoryArtifactView| is_imported(artifact) == true) =~= (|artifact: MemoryArtifactView| is_imported(artifact)));
            assert(artifact_views(merged@) =~= own);
        }
        if let Some(generation) = self.active() {
            append_artifacts(&mut merged, generation.artifacts(), true);
        }
        assert(artifact_views(merged@) =~= preserving_imports(artifacts@, self@.active_generation()));
        let published = match MemoryArtifactSet::new(merged) {
            Ok(set) => set,
            Err(error) => {
                return Err(MemoryStoreError::Artifact(error));
            },
        };
        let _ = published.artifacts();
        match check_size(&published) {
            Ok(_) => {},
            Err(error) => {
                assert(same_members(preserving_imports(artifacts@, old(self)@.active_generation()), published@));
                return Err(error);
            },
        }
        match self.mark_global_phase2_job_succeeded(ownership_token, completed_watermark, selected_outputs, now) {
            Ok(_) => {},
            Err(error) => {
                return Err(error);
            },
        }
        match self.insert_and_activate_generation(generation_id, completed_watermark, &published, now) {
            Ok(_) => Ok(true),
            Err(error) => Err(error),
        }
    }

    /// Apply an import to the active generation, under the given identifier if that makes a new
    /// one, and return the identifier of the generation that holds it.
    pub fn apply_external_agent_import(
        &mut self,
        memory_import: &ExternalAgentMemoryImport,
        generation_id: String,
        now: i64,
    ) -> (result: Result<Option<String>, MemoryStoreError>)
        ensures
            if old(self)@.closed {
                final(self)@ == old(self)@ && result == Err::<Option<String>, MemoryStoreError>(MemoryStoreError::Closed)
            } else {
                import_application(old(self)@, memory_import@, generation_id@, now, final(self)@, result)
            },
    {
        if self.closed {
            return Err(MemoryStoreError::Closed);
        }
        let ghost active = self@.active_generation();
        let mut completed_watermark: i64 = 0;
        let mut current_id: Option<String> = None;
        let empty: Vec<MemoryArtifact> = Vec::new();
        let current: &[MemoryArtifact] = match self.active() {
            Some(generation) => {
                completed_watermark = generation.completed_watermark();
                current_id = Some(generation.generation_id().to_owned());
                generation.artifacts()
            },
            None => empty.as_slice(),
        };
        assert(active is None ==> artifact_views(current@) =~= Seq::empty());
        let merged = overlay_artifacts(current, memory_import.keys(), memory_import.artifacts().artifacts());
        assert(artifact_views(merged@) == with_import(active, memory_import@));
        let published = match MemoryArtifactSet::new(merged) {
            Ok(set) => set,
            Err(error) => {
                return Err(MemoryStoreError::Artifact(error));
            },
        };
        assert(same_members(with_import(active, memory_import@), published@));
        let unchanged = if current_id.is_some() {
            same_artifacts(current, published.artifacts())
        } else {
            published.artifacts().len() == 0
        };
        if unchanged {
            return Ok(current_id);
        }
        let global_job = enqueue_job(&self.global_job, now);
        match check_size(&published) {
            Ok(_) => {},
            Err(error) => {
                return Err(error);
            },
        }
        let global_job = match global_job {
            Ok(job) => job,
            Err(error) => {
                return Err(error);
            },
        };
        let published_id = generation_id.clone();
        match self.insert_and_activate_generation(generation_id, completed_watermark, &published, now) {
            Ok(_) => {},
            Err(error) => {
                return Err(error);
            },
        }
        self.global_job = Some(global_job);
        Ok(Some(published_id))
    }

    /// Completes a phase-two job and, when required by the backend, atomically publishes its
    /// complete Memory Generation.
    pub fn complete_global_consolidation(
        &mut self,
        ownership_token: &str,
        completed_watermark: i64,
        selected_outputs: &[Stage1Output],
        artifacts: &MemoryArtifactSet,
        now: i64,
    ) -> (result: Result<bool, MemoryStoreError>)
        ensures
            if old(self)@.closed {
                final(self)@ == old(self)@ && result == Err::<bool, MemoryStoreError>(MemoryStoreError::Closed)
            } else {
                match old(self)@.backend {
                    RuntimeStateBackend::Sqlite => {
                        let (after, completed) = succeeding_phase2(
                            old(self)@,
                            ownership_token@,
                            completed_watermark,
                            output_views(selected_outputs@),
                            now,
                        );
                        final(self)@ == after && result == Ok::<bool, MemoryStoreError>(completed)
                    },
                    RuntimeStateBackend::Postgresql => exists|generation_id: Seq<char>|
                        #[trigger] publication(
                            old(self)@,
                            ownership_token@,
                            completed_watermark,
                            output_views(selected_outputs@),
                            artifacts@,
                            generation_id,
                            now,
                            final(self)@,
                            result,
                        ),
                }
            },
    {
        match self.backend {
            RuntimeStateBackend::Sqlite => self.mark_global_phase2_job_succeeded(ownership_token, completed_watermark, selected_outputs, now),
            RuntimeStateBackend::Postgresql => {
                let generation_id = new_identifier();
                self.publish_memory_generation(ownership_token, completed_watermark, selected_outputs, artifacts, generation_id, now)
            },
        }
    }

    /// Loads the active authoritative Memory Generation when the backend stores one.
    pub fn load_active_memory_generation(&self) -> (result: Result<Option<MemoryGeneration>, MemoryStoreError>)
        ensures
            match result {
                Ok(generation) => match self@.backend {
                    RuntimeStateBackend::Sqlite => generation is None,
                    RuntimeStateBackend::Postgresql => !self@.closed && opt_view(generation) == self@.active_generation(),
                },
                Err(error) => self@.backend is Postgresql && self@.closed && error == MemoryStoreError::Closed,
            },
    {
        match self.backend {
            RuntimeStateBackend::Sqlite => Ok(None),
            RuntimeStateBackend::Postgresql => {
                if self.closed {
                    return Err(MemoryStoreError::Closed);
                }
                match self.active() {
                    Some(generation) => Ok(Some(generation.clone())),
                    None => Ok(None),
                }
            },
        }
    }

    /// Returns the backend-neutral action needed to synchronize a disposable local workspace.
    pub fn memory_workspace_materialization(&self) -> (result: Result<MemoryWorkspaceMaterialization, MemoryStoreError>)
        ensures
            match result {
                Ok(MemoryWorkspaceMaterialization::Preserve) => self@.backend == RuntimeStateBackend::Sqlite,
                Ok(MemoryWorkspaceMaterialization::Replace { generation_id, artifacts }) => {
                    &&& self@.backend == RuntimeStateBackend::Postgresql
                    &&& !self@.closed
                    &&& self@.active_generation() is Some
                    &&& generation_id@ == self@.active_generation()->0.generation_id
                    &&& artifacts@ == self@.active_generation()->0.artifacts
                },
                Ok(MemoryWorkspaceMaterialization::Clear) => {
                    self@.backend == RuntimeStateBackend::Postgresql && !self@.closed && self@.active_generation() is None
                },
                Err(error) => {
                    self@.backend == RuntimeStateBackend::Postgresql && self@.closed && error == MemoryStoreError::Closed
                },
            },
    {
        match self.backend {
            RuntimeStateBackend::Sqlite => Ok(MemoryWorkspaceMaterialization::Preserve),
            RuntimeStateBackend::Postgresql => match self.load_active_memory_generation() {
                Ok(Some(generation)) => Ok(
                    MemoryWorkspaceMaterialization::Replace {
                        generation_id: generation.generation_id().to_owned(),
                        artifacts: generation.into_artifact_set(),
                    },
                ),
                Ok(None) => Ok(MemoryWorkspaceMaterialization::Clear),
                Err(error) => Err(error),
            },
        }
    }
}

} // verus!
