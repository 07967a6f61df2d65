//! Imports of external-agent project resources into memory.

use crate::memory_store::artifact_views;
use crate::memory_store::generation::have_plain_folds;
use crate::memory_store::generation::lemma_plain_members;
use crate::memory_store::is_artifact_set;
use crate::memory_store::is_collision_free;
use crate::memory_store::is_portable_path;
use crate::memory_store::refuses_set;
use crate::memory_store::same_members;
use crate::memory_store::MemoryArtifact;
use crate::memory_store::MemoryArtifactError;
use crate::memory_store::MemoryArtifactSet;
use crate::memory_store::MemoryArtifactView;
use crate::text::copy_texts;
use crate::text::has_char;
use crate::text::has_prefix;
use crate::text::in_text_order;
use crate::text::is_sorted_set;
use crate::text::same_text;
use crate::text::same_texts;
use crate::text::sorted_set;
use crate::text::text_views;
use vstd::prelude::*;
use vstd::string::*;

verus! {

/// Where everything that was imported from external agents is kept.
pub open spec fn extension_prefix() -> Seq<char> {
    "extensions/external_agent_import/"@
}

/// The instructions that go with imported resources.
pub open spec fn instructions_path() -> Seq<char> {
    "extensions/external_agent_import/instructions.md"@
}

/// Where the resources of one project are kept.
pub open spec fn project_prefix(project_key: Seq<char>) -> Seq<char> {
    "extensions/external_agent_import/resources/"@ + project_key + "/"@
}

/// The file that stands for the scope of a project.
pub open spec fn scope_path(project_key: Seq<char>) -> Seq<char> {
    project_prefix(project_key) + "scope.json"@
}

/// The path belongs to one of the projects.
pub open spec fn in_projects(path: Seq<char>, project_keys: Seq<Seq<char>>) -> bool {
    exists|i: int| 0 <= i < project_keys.len() && project_prefix(#[trigger] project_keys[i]).is_prefix_of(path)
}

/// The path is that of the instructions, or belongs to one of the projects.
pub open spec fn in_import_scope(path: Seq<char>, project_keys: Seq<Seq<char>>) -> bool {
    path == instructions_path() || in_projects(path, project_keys)
}

/// The scope files of the projects.
pub open spec fn scope_artifacts(project_keys: Seq<Seq<char>>) -> Seq<MemoryArtifactView> {
    Seq::new(project_keys.len(), |i: int| MemoryArtifactView { path: scope_path(project_keys[i]), contents: Seq::empty() })
}

/// Every key is one portable path component.
pub open spec fn are_components(project_keys: Seq<Seq<char>>) -> bool {
    forall|i: int| 0 <= i < project_keys.len() ==> !#[trigger] project_keys[i].contains('/')
}

pub open spec fn have_portable_scopes(project_keys: Seq<Seq<char>>) -> bool {
    forall|i: int| 0 <= i < project_keys.len() ==> is_portable_path(scope_path(#[trigger] project_keys[i]))
}

/// Why an import was refused.
#[derive(Debug, PartialEq, Eq)]
pub enum ExternalAgentImportError {
    NoProject,
    KeyNotComponent,
    Artifact(MemoryArtifactError),
    OutsideProjects,
    /// The import identifier stands for other artifacts already.
    Reused,
}

impl ExternalAgentImportError {
    pub open spec fn text(self) -> Seq<char> {
        match self {
            ExternalAgentImportError::NoProject => "external-agent Memory Artifact publication requires a selected project"@,
            ExternalAgentImportError::KeyNotComponent => "external-agent memory project keys must be one portable path component"@,
            ExternalAgentImportError::Artifact(error) => error.text(),
            ExternalAgentImportError::OutsideProjects => "external-agent Memory Artifact is outside the selected project replacements"@,
            ExternalAgentImportError::Reused => "external-agent import identifier was reused with different Memory Artifacts"@,
        }
    }

    pub fn message(&self) -> (text: String)
        ensures
            text@ == self.text(),
    {
        match self {
            ExternalAgentImportError::NoProject => String::from_str("external-agent Memory Artifact publication requires a selected project"),
            ExternalAgentImportError::KeyNotComponent => String::from_str("external-agent memory project keys must be one portable path component"),
            ExternalAgentImportError::Artifact(error) => error.message(),
            ExternalAgentImportError::OutsideProjects => String::from_str("external-agent Memory Artifact is outside the selected project replacements"),
            ExternalAgentImportError::Reused => String::from_str("external-agent import identifier was reused with different Memory Artifacts"),
        }
    }
}

/// A validated replacement of selected external-agent project resources.
///
/// Project keys and artifact paths are portable persisted identifiers, not host filesystem paths.
/// A selected project without artifacts represents removal of its previously imported resources.
#[derive(Debug, PartialEq, Eq)]
pub struct ExternalAgentMemoryImport {
    project_keys: Vec<String>,
    artifacts: MemoryArtifactSet,
}

impl Clone for ExternalAgentMemoryImport {
    fn clone(&self) -> (copy: Self)
        ensures
            copy@ == self@,
    {
        proof {
            use_type_invariant(self);
        }
        let project_keys = copy_texts(&self.project_keys);
        let artifacts = self.artifacts.clone();
        ExternalAgentMemoryImport { project_keys, artifacts }
    }
}

#[verifier::ext_equal]
pub struct ExternalAgentMemoryImportView {
    pub project_keys: Seq<Seq<char>>,
    pub artifacts: Seq<MemoryArtifactView>,
}

impl View for ExternalAgentMemoryImport {
    type V = ExternalAgentMemoryImportView;

    closed spec fn view(&self) -> ExternalAgentMemoryImportView {
        ExternalAgentMemoryImportView { project_keys: text_views(self.project_keys@), artifacts: self.artifacts@ }
    }
}

impl ExternalAgentMemoryImportView {
    /// Distinct portable project keys in order, and artifacts that belong to those projects.
    pub open spec fn valid(self) -> bool {
        &&& self.project_keys.len() > 0
        &&& in_text_order(self.project_keys)
        &&& are_components(self.project_keys)
        &&& have_portable_scopes(self.project_keys)
        &&& is_collision_free(scope_artifacts(self.project_keys))
        &&& have_plain_folds(scope_artifacts(self.project_keys))
        &&& is_artifact_set(self.artifacts)
        &&& forall|i: int| 0 <= i < self.artifacts.len() ==> in_import_scope(#[trigger] self.artifacts[i].path, self.project_keys)
    }
}

/// The prefix of one project.
pub fn project_prefix_text(project_key: &str) -> (prefix: String)
    ensures
        prefix@ == project_prefix(project_key@),
{
    let mut prefix = String::from_str("extensions/external_agent_import/resources/");
    prefix.append(project_key);
    prefix.append("/");
    prefix
}

/// Whether the path belongs to one of the projects.
pub fn is_in_projects(path: &str, project_keys: &Vec<String>) -> (found: bool)
    ensures
        found == in_projects(path@, text_views(project_keys@)),
{
    let ghost keys = text_views(project_keys@);
    let mut i: usize = 0;
    while i < project_keys.len()
        invariant
            keys == text_views(project_keys@),
            i <= project_keys@.len(),
            forall|j: int| 0 <= j < i ==> !project_prefix(#[trigger] keys[j]).is_prefix_of(path@),
        decreases project_keys@.len() - i,
    {
        assert(keys[i as int] == project_keys@[i as int]@);
        let prefix = project_prefix_text(project_keys[i].as_str());
        if has_prefix(path, prefix.as_str()) {
            return true;
        }
        i += 1;
    }
    false
}

/// The scope files of the projects, if all of them are portable.
fn scope_files(project_keys: &Vec<String>) -> (result: Result<Vec<MemoryArtifact>, MemoryArtifactError>)
    ensures
        match result {
            Ok(files) => have_portable_scopes(text_views(project_keys@)) && artifact_views(files@) == scope_artifacts(text_views(project_keys@)),
            Err(error) => error == MemoryArtifactError::NotPortable && !have_portable_scopes(text_views(project_keys@)),
        },
{
    let ghost keys = text_views(project_keys@);
    let mut files: Vec<MemoryArtifact> = Vec::new();
    let mut i: usize = 0;
    while i < project_keys.len()
        invariant
            keys == text_views(project_keys@),
            i <= project_keys@.len(),
            forall|j: int| 0 <= j < i ==> is_portable_path(scope_path(#[trigger] keys[j])),
            artifact_views(files@) == scope_artifacts(keys.take(i as int)),
        decreases project_keys@.len() - i,
    {
        assert(keys[i as int] == project_keys@[i as int]@);
        let mut path = project_prefix_text(project_keys[i].as_str());
        path.append("scope.json");
        assert(path@ == scope_path(keys[i as int]));
        let contents: Vec<u8> = Vec::new();
        match MemoryArtifact::new(path.as_str(), contents) {
            Ok(file) => {
                let ghost so_far = artifact_views(files@);
                assert(file@.contents =~= Seq::empty());
                files.push(file);
                assert(artifact_views(files@) =~= so_far.push(file@));
                assert(scope_artifacts(keys.take(i + 1)) =~= scope_artifacts(keys.take(i as int)).push(file@));
            },
            Err(error) => {
                proof {
                    reveal_strlit("scope.json");
                    assert(scope_path(keys[i as int]).len() > 0);
                }
                return Err(error);
            },
        }
        i += 1;
    }
    assert(keys.take(i as int) =~= keys);
    Ok(files)
}

/// What `new` returns for each input.
pub open spec fn import_result(
    given: Seq<Seq<char>>,
    artifacts: Seq<MemoryArtifactView>,
    result: Result<ExternalAgentMemoryImport, ExternalAgentImportError>,
) -> bool {
    match result {
        Ok(import) => {
            &&& import@.valid()
            &&& is_sorted_set(given, import@.project_keys)
            &&& import@.artifacts == artifacts
        },
        Err(ExternalAgentImportError::NoProject) => given.len() == 0,
        Err(ExternalAgentImportError::KeyNotComponent) => given.len() > 0 && !are_components(given),
        Err(ExternalAgentImportError::Artifact(error)) => {
            &&& given.len() > 0
            &&& are_components(given)
            &&& if error == MemoryArtifactError::NotPortable {
                !have_portable_scopes(given)
            } else {
                have_portable_scopes(given) && exists|keys: Seq<Seq<char>>| #[trigger] is_sorted_set(given, keys) && refuses_set(scope_artifacts(keys), error)
            }
        },
        Err(ExternalAgentImportError::OutsideProjects) => {
            &&& given.len() > 0
            &&& are_components(given)
            &&& have_portable_scopes(given)
            &&& exists|keys: Seq<Seq<char>>| #[trigger] is_sorted_set(given, keys) && is_collision_free(scope_artifacts(keys))
            &&& exists|i: int| 0 <= i < artifacts.len() && !in_import_scope(#[trigger] artifacts[i].path, given)
        },
        Err(ExternalAgentImportError::Reused) => false,
    }
}

pub(super) proof fn lemma_same_keys(left: Seq<Seq<char>>, right: Seq<Seq<char>>)
    requires
        same_texts(left, right),
    ensures
        are_components(left) == are_components(right),
        have_portable_scopes(left) == have_portable_scopes(right),
        forall|path: Seq<char>| #[trigger] in_projects(path, left) == in_projects(path, right),
{
    assert forall|i: int| 0 <= i < left.len() implies right.contains(#[trigger] left[i]) by {
        assert(left.contains(left[i]));
    }
    assert forall|i: int| 0 <= i < right.len() implies left.contains(#[trigger] right[i]) by {
        assert(right.contains(right[i]));
    }
    assert forall|path: Seq<char>| #[trigger] in_projects(path, left) == in_projects(path, right) by {
        if in_projects(path, left) {
            let i = choose|i: int| 0 <= i < left.len() && project_prefix(#[trigger] left[i]).is_prefix_of(path);
            let j = choose|j: int| 0 <= j < right.len() && right[j] == left[i];
            assert(project_prefix(right[j]).is_prefix_of(path));
        }
        if in_projects(path, right) {
            let i = choose|i: int| 0 <= i < right.len() && project_prefix(#[trigger] right[i]).is_prefix_of(path);
            let j = choose|j: int| 0 <= j < left.len() && left[j] == right[i];
            assert(project_prefix(left[j]).is_prefix_of(path));
        }
    }
}

/// The artifacts of a later import laid over those of an earlier one: what belongs to a project
/// that is replaced, or has the path of a newer artifact, gives way.
pub open spec fn overlaid(older: Seq<MemoryArtifactView>, newer_keys: Seq<Seq<char>>, newer: Seq<MemoryArtifactView>) -> Seq<MemoryArtifactView> {
    older.filter(|artifact: MemoryArtifactView| outlasts(artifact, newer_keys, newer)) + newer
}

/// The artifact is neither in a replaced project nor at the path of a newer artifact.
pub open spec fn outlasts(artifact: MemoryArtifactView, newer_keys: Seq<Seq<char>>, newer: Seq<MemoryArtifactView>) -> bool {
    !in_projects(artifact.path, newer_keys) && !has_path(newer, artifact.path)
}

pub open spec fn has_path(artifacts: Seq<MemoryArtifactView>, path: Seq<char>) -> bool {
    exists|i: int| 0 <= i < artifacts.len() && #[trigger] artifacts[i].path == path
}

fn holds_path(artifacts: &[MemoryArtifact], path: &str) -> (found: bool)
    ensures
        found == has_path(artifact_views(artifacts@), path@),
{
    let ghost views = artifact_views(artifacts@);
    let mut i: usize = 0;
    while i < artifacts.len()
        invariant
            views == artifact_views(artifacts@),
            i <= artifacts@.len(),
            forall|j: int| 0 <= j < i ==> #[trigger] views[j].path != path@,
        decreases artifacts@.len() - i,
    {
        assert(views[i as int] == artifacts@[i as int]@);
        if same_text(artifacts[i].path(), path) {
            return true;
        }
        i += 1;
    }
    false
}

/// Lay the artifacts of a later import over earlier ones.
pub fn overlay_artifacts(older: &[MemoryArtifact], newer_keys: &Vec<String>, newer: &[MemoryArtifact]) -> (merged: Vec<MemoryArtifact>)
    ensures
        artifact_views(merged@) == overlaid(artifact_views(older@), text_views(newer_keys@), artifact_views(newer@)),
{
    let ghost old_views = artifact_views(older@);
    let ghost keys = text_views(newer_keys@);
    let ghost new_views = artifact_views(newer@);
    let ghost keep = |artifact: MemoryArtifactView| outlasts(artifact, keys, new_views);
    let mut merged: Vec<MemoryArtifact> = Vec::new();
    let mut i: usize = 0;
    while i < older.len()
        invariant
            old_views == artifact_views(older@),
            keys == text_views(newer_keys@),
            new_views == artifact_views(newer@),
            keep == (|artifact: MemoryArtifactView| outlasts(artifact, keys, new_views)),
            i <= older@.len(),
            artifact_views(merged@) == old_views.take(i as int).filter(keep),
        decreases older@.len() - i,
    {
        let ghost so_far = artifact_views(merged@);
        assert(old_views[i as int] == older@[i as int]@);
        proof {
            reveal(Seq::filter);
            assert(old_views.take(i + 1).drop_last() =~= old_views.take(i as int));
        }
        if !is_in_projects(older[i].path(), newer_keys) && !holds_path(newer, older[i].path()) {
            merged.push(older[i].clone());
            assert(artifact_views(merged@) =~= so_far.push(old_views[i as int]));
        }
        i += 1;
    }
    assert(old_views.take(i as int) =~= old_views);
    let ghost kept = artifact_views(merged@);
    let mut j: usize = 0;
    while j < newer.len()
        invariant
            new_views == artifact_views(newer@),
            j <= newer@.len(),
            artifact_views(merged@) == kept + new_views.take(j as int),
        decreases newer@.len() - j,
    {
        let ghost so_far = artifact_views(merged@);
        assert(new_views[j as int] == newer@[j as int]@);
        merged.push(newer[j].clone());
        assert(artifact_views(merged@) =~= so_far.push(new_views[j as int]));
        assert(new_views.take(j + 1) =~= new_views.take(j as int).push(new_views[j as int]));
        assert(kept + new_views.take(j + 1) =~= (kept + new_views.take(j as int)).push(new_views[j as int]));
        j += 1;
    }
    assert(new_views.take(j as int) =~= new_views);
    merged
}

fn joined_keys(left: &Vec<String>, right: &Vec<String>) -> (keys: Vec<String>)
    ensures
        text_views(keys@) == text_views(left@) + text_views(right@),
{
    let mut keys: Vec<String> = Vec::new();
    let mut i: usize = 0;
    while i < left.len()
        invariant
            i <= left@.len(),
            keys@ == left@.take(i as int),
        decreases left@.len() - i,
    {
        keys.push(left[i].clone());
        assert(left@.take(i + 1) =~= left@.take(i as int).push(left@[i as int]));
        i += 1;
    }
    assert(left@.take(i as int) =~= left@);
    let mut j: usize = 0;
    while j < right.len()
        invariant
            j <= right@.len(),
            keys@ == left@ + right@.take(j as int),
        decreases right@.len() - j,
    {
        keys.push(right[j].clone());
        assert(left@ + right@.take(j + 1) =~= (left@ + right@.take(j as int)).push(right@[j as int]));
        j += 1;
    }
    assert(right@.take(j as int) =~= right@);
    assert(text_views(keys@) =~= text_views(left@) + text_views(right@));
    keys
}

/// What `overlay` returns for each input.
pub open spec fn overlay_result(
    older: ExternalAgentMemoryImportView,
    newer: ExternalAgentMemoryImportView,
    result: Result<ExternalAgentMemoryImport, ExternalAgentImportError>,
) -> bool {
    let merged = overlaid(older.artifacts, newer.project_keys, newer.artifacts);
    let given = older.project_keys + newer.project_keys;
    match result {
        Ok(import) => {
            &&& import@.valid()
            &&& is_sorted_set(given, import@.project_keys)
            &&& same_members(merged, import@.artifacts)
        },
        Err(ExternalAgentImportError::Artifact(error)) => {
            ||| refuses_set(merged, error)
            ||| is_collision_free(merged) && exists|keys: Seq<Seq<char>>| #[trigger] is_sorted_set(given, keys) && refuses_set(scope_artifacts(keys), error)
        },
        Err(_) => false,
    }
}

/// What two valid imports give to an overlay is made of components and stays in scope.
proof fn lemma_overlay_inputs(older: ExternalAgentMemoryImportView, newer: ExternalAgentMemoryImportView)
    requires
        older.valid(),
        newer.valid(),
    ensures
        ({
            let given = older.project_keys + newer.project_keys;
            let merged = overlaid(older.artifacts, newer.project_keys, newer.artifacts);
            &&& given.len() > 0
            &&& are_components(given)
            &&& have_portable_scopes(given)
            &&& forall|artifact: MemoryArtifactView| #[trigger] merged.contains(artifact) ==> in_import_scope(artifact.path, given)
        }),
{
    let given = older.project_keys + newer.project_keys;
    let keep = |artifact: MemoryArtifactView| outlasts(artifact, newer.project_keys, newer.artifacts);
    let kept = older.artifacts.filter(keep);
    let merged = overlaid(older.artifacts, newer.project_keys, newer.artifacts);
    assert forall|i: int| 0 <= i < given.len() implies !#[trigger] given[i].contains('/') && is_portable_path(scope_path(given[i])) by {
        if i < older.project_keys.len() {
            assert(given[i] == older.project_keys[i]);
        } else {
            assert(given[i] == newer.project_keys[i - older.project_keys.len()]);
        }
    }
    assert forall|artifact: MemoryArtifactView| #[trigger] merged.contains(artifact) implies in_import_scope(artifact.path, given) by {
        let i = choose|i: int| 0 <= i < merged.len() && merged[i] == artifact;
        if i < kept.len() {
            assert(kept[i] == artifact);
            assert(kept.contains(artifact));
            older.artifacts.lemma_filter_contains_rev(keep, artifact);
            let j = choose|j: int| 0 <= j < older.artifacts.len() && older.artifacts[j] == artifact;
            assert(in_import_scope(older.artifacts[j].path, older.project_keys));
            if in_projects(artifact.path, older.project_keys) {
                let k = choose|k: int| 0 <= k < older.project_keys.len() && project_prefix(#[trigger] older.project_keys[k]).is_prefix_of(artifact.path);
                assert(given[k] == older.project_keys[k]);
            }
        } else {
            let j = i - kept.len();
            assert(newer.artifacts[j] == artifact);
            assert(in_import_scope(newer.artifacts[j].path, newer.project_keys));
            if in_projects(artifact.path, newer.project_keys) {
                let k = choose|k: int| 0 <= k < newer.project_keys.len() && project_prefix(#[trigger] newer.project_keys[k]).is_prefix_of(artifact.path);
                assert(given[older.project_keys.len() + k] == newer.project_keys[k]);
            }
        }
    }
}

impl ExternalAgentMemoryImport {
    #[verifier::type_invariant]
    spec fn inv(self) -> bool {
        (ExternalAgentMemoryImportView { project_keys: text_views(self.project_keys@), artifacts: self.artifacts@ }).valid()
    }

    /// Validates the selected projects and that every artifact belongs to one of them.
    pub fn new(project_keys: Vec<String>, artifacts: MemoryArtifactSet) -> (result: Result<Self, ExternalAgentImportError>)
        ensures
            import_result(text_views(project_keys@), artifacts@, result),
    {
        let ghost given = text_views(project_keys@);
        if project_keys.len() == 0 {
            return Err(ExternalAgentImportError::NoProject);
        }
        let sorted_keys = sorted_set(project_keys);
        let ghost keys = text_views(sorted_keys@);
        proof {
            lemma_same_keys(given, keys);
        }
        let mut i: usize = 0;
        while i < sorted_keys.len()
            invariant
                keys == text_views(sorted_keys@),
                i <= sorted_keys@.len(),
                given == text_views(project_keys@),
                given.len() > 0,
                are_components(given) == are_components(keys),
                forall|j: int| 0 <= j < i ==> !#[trigger] keys[j].contains('/'),
            decreases sorted_keys@.len() - i,
        {
            assert(keys[i as int] == sorted_keys@[i as int]@);
            if has_char(sorted_keys[i].as_str(), '/') {
                return Err(ExternalAgentImportError::KeyNotComponent);
            }
            i += 1;
        }
        let files = match scope_files(&sorted_keys) {
            Ok(files) => files,
            Err(error) => {
                return Err(ExternalAgentImportError::Artifact(error));
            },
        };
        match MemoryArtifactSet::new(files) {
            Ok(set) => {
                proof {
                    lemma_plain_members(set@, scope_artifacts(keys));
                }
            },
            Err(error) => {
                assert(is_sorted_set(given, keys) && refuses_set(scope_artifacts(keys), error));
                return Err(ExternalAgentImportError::Artifact(error));
            },
        }
        let members = artifacts.artifacts();
        let mut i: usize = 0;
        while i < members.len()
            invariant
                keys == text_views(sorted_keys@),
                i <= members@.len(),
                artifact_views(members@) == artifacts@,
                given == text_views(project_keys@),
                given.len() > 0,
                are_components(given),
                have_portable_scopes(given),
                is_sorted_set(given, keys),
                is_collision_free(scope_artifacts(keys)),
                have_plain_folds(scope_artifacts(keys)),
                forall|path: Seq<char>| #[trigger] in_projects(path, given) == in_projects(path, keys),
                forall|j: int| 0 <= j < i ==> in_import_scope(#[trigger] artifacts@[j].path, keys),
            decreases members@.len() - i,
        {
            assert(artifacts@[i as int] == members@[i as int]@);
            if !same_text(members[i].path(), "extensions/external_agent_import/instructions.md")
                && !is_in_projects(members[i].path(), &sorted_keys) {
                assert(!in_import_scope(artifacts@[i as int].path, given));
                return Err(ExternalAgentImportError::OutsideProjects);
            }
            i += 1;
        }
        Ok(ExternalAgentMemoryImport { project_keys: sorted_keys, artifacts })
    }

    pub fn project_keys(&self) -> (keys: &[String])
        ensures
            text_views(keys@) == self@.project_keys,
            self@.valid(),
    {
        proof {
            use_type_invariant(self);
        }
        self.project_keys.as_slice()
    }

    pub fn artifacts(&self) -> (artifacts: &MemoryArtifactSet)
        ensures
            artifacts@ == self@.artifacts,
            self@.valid(),
    {
        proof {
            use_type_invariant(self);
        }
        &self.artifacts
    }

    /// The keys as they are kept.
    pub(crate) fn keys(&self) -> (keys: &Vec<String>)
        ensures
            text_views(keys@) == self@.project_keys,
            self@.valid(),
    {
        proof {
            use_type_invariant(self);
        }
        &self.project_keys
    }

    /// Overlays a later replacement while retaining unrelated project resources.
    pub fn overlay(self, newer: Self) -> (result: Result<Self, ExternalAgentImportError>)
        ensures
            overlay_result(self@, newer@, result),
    {
        proof {
            use_type_invariant(&self);
            use_type_invariant(&newer);
            lemma_overlay_inputs(self@, newer@);
        }
        let ghost given = self@.project_keys + newer@.project_keys;
        let merged = overlay_artifacts(self.artifacts.artifacts(), &newer.project_keys, newer.artifacts.artifacts());
        let ghost merged_views = artifact_views(merged@);
        let set = match MemoryArtifactSet::new(merged) {
            Ok(set) => set,
            Err(error) => {
                return Err(ExternalAgentImportError::Artifact(error));
            },
        };
        let keys = joined_keys(&self.project_keys, &newer.project_keys);
        assert(text_views(keys@) == given);
        proof {
            assert forall|i: int| 0 <= i < set@.len() implies in_import_scope(#[trigger] set@[i].path, given) by {
                assert(set@.contains(set@[i]));
                assert(merged_views.contains(set@[i]));
            }
        }
        ExternalAgentMemoryImport::new(keys, set)
    }
}

} // verus!
