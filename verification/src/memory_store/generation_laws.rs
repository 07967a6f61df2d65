//! Laws of memory generations and of the artifacts they hold, told in their paths and contents.

use super::artifacts::changes_nothing;
use super::artifacts::import_application;
use super::artifacts::preserving_imports;
use super::artifacts::publication;
use super::artifacts::row_artifacts;
use super::artifacts::size_error;
use super::artifacts::total_bytes;
use super::artifacts::with_generation;
use super::artifacts::with_import;
use super::generation::case_folded;
use super::generation::fold_views;
use super::generation::has_plain_fold;
use super::generation::has_plain_upper;
use super::generation::is_component;
use super::generation::is_portable_component;
use super::generation::nests_in;
use super::generation::nests_in_file;
use super::generation::nests_in_fold;
use super::generation::repeats_fold;
use super::generation::repeats_path;
use super::generation::FoldCollision;
use super::is_artifact_set;
use super::job_laws::runs_for;
use super::outputs::completed_phase2;
use super::outputs::output_views;
use super::phase2::enqueued;
use super::same_members;
use super::MemoryArtifact;
use super::MemoryArtifactError;
use super::MemoryArtifactSet;
use super::MemoryArtifactView;
use super::MemoryGeneration;
use super::MemoryGenerationRow;
use super::MemoryGenerationView;
use super::MemoryJobStatus;
use super::MemoryStore;
use super::MemoryStoreError;
use super::MemoryStoreView;
use super::MemoryWorkspaceMaterialization;
use super::Stage1Output;
use crate::external_agent_config_imports::laws::law_overlay_replaces_selected_projects;
use crate::external_agent_config_imports::overlay_laws::lemma_collision_free_is_accepted;
use crate::external_agent_config_imports::overlay_laws::lemma_ordered_artifacts;
use crate::external_agent_config_imports::ExternalAgentMemoryImport;
use crate::log_store::query_laws::lemma_same_letter;
use crate::log_store::query_laws::same_letter;
use crate::sequences::lemma_concat_members;
use crate::sequences::lemma_filter_members;
use crate::text::ascii_upper;
use crate::text::text_before;
use crate::thread_id::opt_view;
use vstd::prelude::*;

verus! {

/// The text is the word, whatever the case of ASCII letters.
pub open spec fn reads_as(text: Seq<char>, word: Seq<char>) -> bool {
    text.len() == word.len() && forall|i: int| 0 <= i < text.len() ==> same_letter(#[trigger] text[i], word[i])
}

/// The name stands for a device on some platform.
pub open spec fn names_a_device(name: Seq<char>) -> bool {
    ||| reads_as(name, seq!['C', 'O', 'N'])
    ||| reads_as(name, seq!['P', 'R', 'N'])
    ||| reads_as(name, seq!['A', 'U', 'X'])
    ||| reads_as(name, seq!['N', 'U', 'L'])
    ||| name.len() == 4 && '1' <= name[3] <= '9' && (reads_as(name.take(3), seq!['C', 'O', 'M']) || reads_as(name.take(3), seq!['L', 'P', 'T']))
}

/// From `from` to `to` the path holds the start of one of its parts, up to the first dot in it.
pub open spec fn starts_a_part(path: Seq<char>, from: int, to: int) -> bool {
    &&& 0 <= from <= to <= path.len()
    &&& from == 0 || path[from - 1] == '/'
    &&& to == path.len() || path[to] == '/' || path[to] == '.'
    &&& forall|i: int| from <= i < to ==> #[trigger] path[i] != '/' && path[i] != '.'
}

/// The path fits every platform: it is not empty; it does not start or end with a slash and has no two in a
/// row; no part of it ends with a dot or a space, or stands for a device; and it holds no control character and
/// none of `<>"|?*:\`.
pub open spec fn fits_everywhere(path: Seq<char>) -> bool {
    &&& path.len() > 0
    &&& path[0] != '/'
    &&& path[path.len() - 1] != '/' && path[path.len() - 1] != '.' && path[path.len() - 1] != ' '
    &&& forall|i: int|
        0 <= i < path.len() ==> #[trigger] path[i] != '<' && path[i] != '>' && path[i] != '"' && path[i] != '|' && path[i] != '?' && path[i] != '*' && path[i] != ':' && path[i]
            != '\\' && path[i] as u32 >= 0x20
    &&& forall|i: int| 0 < i < path.len() && #[trigger] path[i] == '/' ==> path[i - 1] != '/' && path[i - 1] != '.' && path[i - 1] != ' '
    &&& forall|from: int, to: int| #[trigger] starts_a_part(path, from, to) ==> !names_a_device(path.subrange(from, to))
}

/// An artifact is made exactly of a path that fits every platform, and keeps the path and the contents that it
/// was given.
pub proof fn law_artifact_paths_are_portable(path: &str, contents: Vec<u8>, result: Result<MemoryArtifact, MemoryArtifactError>)
    requires
        call_ensures(MemoryArtifact::new, (path, contents), result),
    ensures
        result is Ok <==> fits_everywhere(path@),
        result is Ok ==> result->Ok_0@.path == path@ && result->Ok_0@.contents == contents@,
        path@.len() == 0 ==> result == Err::<MemoryArtifact, MemoryArtifactError>(MemoryArtifactError::EmptyPath),
        path@.len() > 0 && result is Err ==> result == Err::<MemoryArtifact, MemoryArtifactError>(MemoryArtifactError::NotPortable),
{
    if result is Ok {
        lemma_portable_fits(path@);
    }
    if fits_everywhere(path@) {
        lemma_fitting_is_portable(path@);
    }
}

proof fn lemma_word(text: Seq<char>, word: Seq<char>)
    requires
        forall|i: int| 0 <= i < word.len() ==> 'A' <= #[trigger] word[i] <= 'Z',
    ensures
        reads_as(text, word) <==> super::generation::spells(text, word),
{
    if text.len() == word.len() {
        assert forall|i: int| 0 <= i < text.len() implies (same_letter(#[trigger] text[i], word[i]) <==> ascii_upper(text[i]) == word[i]) by {
            lemma_same_letter(text[i], word[i]);
            assert('A' <= word[i] <= 'Z');
            assert(ascii_upper(word[i]) == word[i]);
        }
        if super::generation::spells(text, word) {
            assert forall|i: int| 0 <= i < text.len() implies same_letter(#[trigger] text[i], word[i]) by {
                assert(ascii_upper(text[i]) == word[i]);
            }
        }
        if reads_as(text, word) {
            assert forall|i: int| 0 <= i < text.len() implies ascii_upper(#[trigger] text[i]) == word[i] by {
                assert(same_letter(text[i], word[i]));
            }
        }
    }
}

proof fn lemma_device(name: Seq<char>)
    ensures
        names_a_device(name) <==> super::generation::is_reserved_stem(name),
{
    lemma_word(name, seq!['C', 'O', 'N']);
    lemma_word(name, seq!['P', 'R', 'N']);
    lemma_word(name, seq!['A', 'U', 'X']);
    lemma_word(name, seq!['N', 'U', 'L']);
    if name.len() == 4 {
        lemma_word(name.take(3), seq!['C', 'O', 'M']);
        lemma_word(name.take(3), seq!['L', 'P', 'T']);
    }
}

proof fn lemma_fitting_is_portable(path: Seq<char>)
    requires
        fits_everywhere(path),
    ensures
        super::is_portable_path(path),
{
    assert forall|from: int, to: int| #[trigger] is_component(path, from, to) implies is_portable_component(path.subrange(from, to)) by {
        let name = path.subrange(from, to);
        if from == to {
            if from > 0 {
                assert(path[from - 1] == '/');
            }
        }
        assert(name.last() == path[to - 1]);
        if to < path.len() {
            assert(path[to] == '/');
        }
        assert forall|i: int| 0 <= i < name.len() implies super::generation::is_portable_char(#[trigger] name[i]) by {
            assert(name[i] == path[from + i]);
        }
        assert forall|end: int| #[trigger] super::generation::is_stem(name, end) implies !super::generation::is_reserved_stem(name.take(end)) by {
            assert forall|i: int| from <= i < from + end implies #[trigger] path[i] != '/' && path[i] != '.' by {
                assert(name[i - from] == path[i]);
            }
            if end < name.len() {
                assert(name[end] == path[from + end]);
            }
            assert(starts_a_part(path, from, from + end));
            assert(name.take(end) =~= path.subrange(from, from + end));
            lemma_device(name.take(end));
        }
    }
}

proof fn lemma_portable_fits(text: Seq<char>)
    requires
        super::is_portable_path(text),
    ensures
        fits_everywhere(text),
{
    assert forall|i: int| 0 <= i < text.len() implies #[trigger] text[i] != '<' && text[i] != '>' && text[i] != '"' && text[i] != '|' && text[i] != '?' && text[i] != '*'
        && text[i] != ':' && text[i] != '\\' && text[i] as u32 >= 0x20 by {
        let (from, to) = lemma_component_at(text, i);
        if text[i] == '/' {
            vstd::utf8::char_u32_cast('/', '/' as u32);
        } else {
            let name = text.subrange(from, to);
            assert(is_portable_component(name));
            assert(name[i - from] == text[i]);
        }
    }
    assert forall|i: int| 0 < i < text.len() && #[trigger] text[i] == '/' implies text[i - 1] != '/' && text[i - 1] != '.' && text[i - 1] != ' ' by {
        let (from, to) = lemma_component_at(text, i);
        let name = text.subrange(from, to);
        assert(is_portable_component(name));
        assert(name.last() == text[i - 1]);
    }
    let (from, to) = lemma_component_at(text, 0);
    assert(is_portable_component(text.subrange(from, to)));
    let end = text.len() - 1;
    let (start, stop) = lemma_component_at(text, end);
    assert(is_portable_component(text.subrange(start, stop)));
    if text[end] == '/' {
        assert(is_component(text, text.len() as int, text.len() as int));
        assert(is_portable_component(text.subrange(text.len() as int, text.len() as int)));
    } else {
        assert(text.subrange(start, stop).last() == text[end]);
    }
    assert forall|from: int, to: int| #[trigger] starts_a_part(text, from, to) implies !names_a_device(text.subrange(from, to)) by {
        let stop = lemma_end(text, to);
        assert(is_component(text, from, stop)) by {
            assert forall|i: int| from <= i < stop implies #[trigger] text[i] != '/' by {}
        }
        let name = text.subrange(from, stop);
        assert(is_portable_component(name));
        assert(super::generation::is_stem(name, to - from)) by {
            assert forall|i: int| 0 <= i < to - from implies #[trigger] name[i] != '.' by {
                assert(name[i] == text[from + i]);
            }
        }
        assert(name.take(to - from) =~= text.subrange(from, to));
        lemma_device(text.subrange(from, to));
    }
}

/// The component that holds the character at `i`, or ends before the slash there.
proof fn lemma_component_at(path: Seq<char>, i: int) -> (range: (int, int))
    requires
        0 <= i < path.len(),
    ensures
        is_component(path, range.0, range.1),
        range.0 <= i <= range.1,
        path[i] != '/' ==> i < range.1,
        path[i] == '/' ==> i == range.1,
{
    let from = lemma_start(path, i);
    let to = lemma_end(path, i);
    (from, to)
}

proof fn lemma_start(path: Seq<char>, i: int) -> (from: int)
    requires
        0 <= i <= path.len(),
    ensures
        0 <= from <= i,
        from == 0 || path[from - 1] == '/',
        forall|k: int| from <= k < i ==> #[trigger] path[k] != '/',
    decreases i,
{
    if i == 0 || path[i - 1] == '/' {
        i
    } else {
        lemma_start(path, i - 1)
    }
}

proof fn lemma_end(path: Seq<char>, i: int) -> (to: int)
    requires
        0 <= i <= path.len(),
    ensures
        i <= to <= path.len(),
        to == path.len() || path[to] == '/',
        forall|k: int| i <= k < to ==> #[trigger] path[k] != '/',
        i < path.len() && path[i] != '/' ==> i < to,
        i < path.len() && path[i] == '/' ==> i == to,
    decreases path.len() - i,
{
    if i == path.len() || path[i] == '/' {
        i
    } else {
        lemma_end(path, i + 1)
    }
}

/// The text holds ASCII characters alone.
pub open spec fn is_ascii(text: Seq<char>) -> bool {
    forall|i: int| 0 <= i < text.len() ==> (#[trigger] text[i] as u32) < 128
}

proof fn lemma_ascii_folds(a: Seq<char>, b: Seq<char>)
    requires
        is_ascii(a),
        is_ascii(b),
        has_plain_fold(a),
        has_plain_fold(b),
        reads_as(a, b),
    ensures
        case_folded(a) == case_folded(b),
    decreases a.len(),
{
    if a.len() > 0 {
        let x = a.drop_last();
        let y = b.drop_last();
        assert forall|i: int| 0 <= i < x.len() implies (#[trigger] x[i] as u32) < 128 && has_plain_upper(x[i]) && same_letter(x[i], y[i]) by {
            assert(x[i] == a[i] && y[i] == b[i]);
            assert(has_plain_upper(a[i]));
            assert(same_letter(a[i], b[i]));
        }
        assert forall|i: int| 0 <= i < y.len() implies (#[trigger] y[i] as u32) < 128 && has_plain_upper(y[i]) by {
            assert(y[i] == b[i]);
            assert(has_plain_upper(b[i]));
        }
        lemma_ascii_folds(x, y);
        assert(has_plain_upper(a.last()) && has_plain_upper(b.last()));
        assert(same_letter(a[a.len() - 1], b[a.len() - 1]));
        lemma_same_letter(a.last(), b.last());
    }
}

/// A set holds the artifacts that it was given, in the order of their paths. No two have the same path, nor one
/// that differs in the case of ASCII letters alone; and none has the path of a directory that another one lies
/// in.
pub proof fn law_artifact_sets_can_be_laid_out(artifacts: Vec<MemoryArtifact>, set: MemoryArtifactSet)
    requires
        call_ensures(MemoryArtifactSet::new, (artifacts,), Ok::<MemoryArtifactSet, MemoryArtifactError>(set)),
    ensures
        set@.len() == artifacts@.len(),
        forall|i: int| 0 <= i < artifacts@.len() ==> set@.contains(#[trigger] artifacts@[i]@),
        forall|artifact: MemoryArtifactView| #[trigger] set@.contains(artifact) ==> exists|k: int| 0 <= k < artifacts@.len() && (#[trigger] artifacts@[k])@ == artifact,
        forall|i: int, j: int| #![trigger set@[i], set@[j]] 0 <= i < j < set@.len() ==> text_before(set@[i].path, set@[j].path) && set@[i].path != set@[j].path,
        forall|i: int, j: int|
            #![trigger set@[i], set@[j]]
            0 <= i < set@.len() && 0 <= j < set@.len() ==> !(set@[i].path + seq!['/']).is_prefix_of(set@[j].path),
        forall|i: int, j: int|
            #![trigger set@[i], set@[j]]
            0 <= i < j < set@.len() && is_ascii(set@[i].path) && is_ascii(set@[j].path) ==> !reads_as(set@[i].path, set@[j].path),
{
    let given = super::artifact_views(artifacts@);
    assert forall|i: int, j: int|
        #![trigger set@[i], set@[j]]
        0 <= i < j < set@.len() && is_ascii(set@[i].path) && is_ascii(set@[j].path) implies !reads_as(set@[i].path, set@[j].path) by {
        if reads_as(set@[i].path, set@[j].path) {
            lemma_ascii_folds(set@[i].path, set@[j].path);
            assert(repeats_path(set@, j));
        }
    }
    assert forall|i: int| 0 <= i < artifacts@.len() implies set@.contains(#[trigger] artifacts@[i]@) by {
        assert(given[i] == artifacts@[i]@);
        assert(given.contains(given[i]));
    }
    assert forall|artifact: MemoryArtifactView| #[trigger] set@.contains(artifact) implies exists|k: int| 0 <= k < artifacts@.len() && (#[trigger] artifacts@[k])@ == artifact by {
        assert(given.contains(artifact));
        let k = choose|k: int| 0 <= k < given.len() && given[k] == artifact;
        assert(artifacts@[k]@ == artifact);
    }
    assert forall|i: int, j: int| #![trigger set@[i], set@[j]] 0 <= i < j < set@.len() implies set@[i].path != set@[j].path by {
        if set@[i].path == set@[j].path {
            assert(case_folded(set@[i].path) == case_folded(set@[j].path));
            assert(repeats_path(set@, j));
        }
    }
    assert forall|i: int, j: int| #![trigger set@[i], set@[j]] 0 <= i < set@.len() && 0 <= j < set@.len() implies !(set@[i].path + seq!['/']).is_prefix_of(set@[j].path) by {
        let directory = set@[i].path;
        let path = set@[j].path;
        if (directory + seq!['/']).is_prefix_of(path) {
            let rest = path.skip(directory.len() as int + 1);
            assert(path =~= directory + seq!['/'] + rest);
            crate::external_agent_config_imports::overlay_laws::lemma_fold_concat(directory + seq!['/'], rest);
            crate::external_agent_config_imports::overlay_laws::lemma_fold_concat(directory, seq!['/']);
            crate::external_agent_config_imports::overlay_laws::lemma_fold_of_one('/');
            assert(path[directory.len() as int] == '/');
            assert(has_plain_upper(path[directory.len() as int]));
            vstd::utf8::char_u32_cast('/', '/' as u32);
            assert(super::generation::uppercase('/') == seq!['/']);
            let slash = case_folded(directory).len() as int;
            assert(case_folded(path)[slash] == '/');
            assert(case_folded(path).take(slash) =~= case_folded(directory));
            assert(nests_in(set@, j, slash, i));
            assert(nests_in_file(set@, j));
        }
    }
}

/// Artifacts with the same path twice are refused for it, and what is named then is the path of one of them
/// that is not the first.
pub proof fn law_repeated_paths_are_refused(artifacts: Vec<MemoryArtifact>, result: Result<MemoryArtifactSet, MemoryArtifactError>)
    requires
        call_ensures(MemoryArtifactSet::new, (artifacts,), result),
    ensures
        (exists|i: int, j: int| #![trigger artifacts@[i], artifacts@[j]] 0 <= i < j < artifacts@.len() && artifacts@[i]@.path == artifacts@[j]@.path) ==> result is Err
            && result->Err_0 is CaseCollision,
        result is Err ==> result->Err_0 is CaseCollision || result->Err_0 is FileDirectoryCollision,
        result is Err && result->Err_0 is CaseCollision ==> exists|at: int| 0 < at < artifacts@.len() && (#[trigger] artifacts@[at])@.path == result->Err_0->CaseCollision_0@,
        result is Err && result->Err_0 is FileDirectoryCollision ==> exists|at: int|
            0 <= at < artifacts@.len() && (#[trigger] artifacts@[at])@.path == result->Err_0->FileDirectoryCollision_0@,
        artifacts@.len() <= 1 ==> !(result is Err && result->Err_0 is CaseCollision),
{
    let given = super::artifact_views(artifacts@);
    if exists|i: int, j: int| #![trigger artifacts@[i], artifacts@[j]] 0 <= i < j < artifacts@.len() && artifacts@[i]@.path == artifacts@[j]@.path {
        let (i, j) = choose|i: int, j: int|
            #![trigger artifacts@[i], artifacts@[j]]
            0 <= i < j < artifacts@.len() && artifacts@[i]@.path == artifacts@[j]@.path;
        assert(given[i].path == given[j].path);
        assert(repeats_path(given, j));
    }
    if result is Err {
        match result->Err_0 {
            MemoryArtifactError::CaseCollision(path) => {
                let at = choose|at: int| {
                    &&& 0 <= at < given.len()
                    &&& #[trigger] repeats_path(given, at)
                    &&& forall|i: int| 0 <= i < at ==> !#[trigger] repeats_path(given, i)
                    &&& path@ == given[at].path
                };
                assert(artifacts@[at]@.path == path@);
            },
            MemoryArtifactError::FileDirectoryCollision(path) => {
                let at = choose|at: int| {
                    &&& 0 <= at < given.len()
                    &&& #[trigger] nests_in_file(given, at)
                    &&& forall|i: int| 0 <= i < at ==> !#[trigger] nests_in_file(given, i)
                    &&& path@ == given[at].path
                };
                assert(artifacts@[at]@.path == path@);
            },
            _ => {},
        }
    }
}

/// Whether the artifact was imported from an external agent.
pub open spec fn came_from_an_import(artifact: MemoryArtifactView) -> bool {
    "extensions/external_agent_import/"@.is_prefix_of(artifact.path)
}

proof fn lemma_preserving(artifacts: Seq<MemoryArtifactView>, active: Option<MemoryGenerationView>, artifact: MemoryArtifactView)
    ensures
        preserving_imports(artifacts, active).contains(artifact) <==> {
            ||| artifacts.contains(artifact) && !came_from_an_import(artifact)
            ||| active is Some && active->0.artifacts.contains(artifact) && came_from_an_import(artifact)
        },
{
    let own = |artifact: MemoryArtifactView| !super::artifacts::is_imported(artifact);
    let imported = |artifact: MemoryArtifactView| super::artifacts::is_imported(artifact);
    lemma_filter_members(artifacts, own, artifact);
    if active is Some {
        lemma_filter_members(active->0.artifacts, imported, artifact);
        lemma_concat_members(artifacts.filter(own), active->0.artifacts.filter(imported), artifact);
    }
}

proof fn lemma_publication(
    before: MemoryStoreView,
    token: Seq<char>,
    completed_watermark: i64,
    chosen: &[Stage1Output],
    artifacts: Seq<MemoryArtifactView>,
    generation_id: Seq<char>,
    now: i64,
    after: MemoryStoreView,
    result: Result<bool, MemoryStoreError>,
)
    requires
        publication(before, token, completed_watermark, output_views(chosen@), artifacts, generation_id, now, after, result),
    ensures
        publishes(before, token, completed_watermark, artifacts, generation_id, now, after, result),
{
    if result == Ok::<bool, MemoryStoreError>(true) {
        let merged = preserving_imports(artifacts, before.active_generation());
        let published = choose|published: Seq<MemoryArtifactView>| {
            &&& is_artifact_set(published)
            &&& same_members(merged, published)
            &&& size_error(published) is None
            &&& after == #[trigger] with_generation(completed_phase2(before, completed_watermark, output_views(chosen@), now), generation_id, completed_watermark, published, now)
        };
        let last = after.generations[after.generations.len() - 1];
        assert(last.artifacts == published);
        assert(after.outputs.dom() =~= before.outputs.dom());
        assert forall|artifact: MemoryArtifactView| #[trigger] last.artifacts.contains(artifact) <==> {
            ||| artifacts.contains(artifact) && !came_from_an_import(artifact)
            ||| before.generations.len() > 0 && before.generations.last().artifacts.contains(artifact) && came_from_an_import(artifact)
        } by {
            lemma_preserving(artifacts, before.active_generation(), artifact);
            assert(merged.contains(artifact) <==> last.artifacts.contains(artifact));
        }
        assert(after.generations.take(before.generations.len() as int) =~= before.generations);
    }
}

/// Only the holder of the running lease publishes. What is published is the last generation then: under the
/// given identifier and watermark, dated now, with the given artifacts but for imports, and with the imports
/// of the generation before. Earlier generations stay, and the global job is done.
pub open spec fn publishes(
    before: MemoryStoreView,
    token: Seq<char>,
    completed_watermark: i64,
    artifacts: Seq<MemoryArtifactView>,
    generation_id: Seq<char>,
    now: i64,
    after: MemoryStoreView,
    result: Result<bool, MemoryStoreError>,
) -> bool {
    let held = before.global_job is Some && runs_for(before.global_job->0, token, now);
    &&& !held <==> result == Ok::<bool, MemoryStoreError>(false)
    &&& result != Ok::<bool, MemoryStoreError>(true) ==> after == before
    &&& result == Ok::<bool, MemoryStoreError>(true) ==> {
        let last = after.generations[after.generations.len() - 1];
        &&& after.generations.len() == before.generations.len() + 1
        &&& after.generations.take(before.generations.len() as int) == before.generations
        &&& last.generation_id == generation_id
        &&& last.completed_watermark == completed_watermark
        &&& last.published_at == now
        &&& forall|artifact: MemoryArtifactView| #[trigger]
            last.artifacts.contains(artifact) <==> {
                ||| artifacts.contains(artifact) && !came_from_an_import(artifact)
                ||| before.generations.len() > 0 && before.generations.last().artifacts.contains(artifact) && came_from_an_import(artifact)
            }
        &&& after.global_job is Some
        &&& after.global_job->0.status == MemoryJobStatus::Done
        &&& after.global_job->0.finished_at == Some(now)
        &&& after.global_job->0.last_success_watermark is Some
        &&& after.global_job->0.last_success_watermark->0 >= completed_watermark
        &&& after.jobs == before.jobs
        &&& after.outputs.dom() == before.outputs.dom()
    }
}

/// Publishing adds a generation as the holder of the lease gives it.
pub proof fn law_publication_adds_a_generation(
    store: &mut MemoryStore,
    token: &str,
    completed_watermark: i64,
    selected: &[Stage1Output],
    artifacts: &MemoryArtifactSet,
    generation_id: String,
    now: i64,
    result: Result<bool, MemoryStoreError>,
)
    requires
        call_ensures(MemoryStore::publish_memory_generation, (store, token, completed_watermark, selected, artifacts, generation_id, now), result),
    ensures
        old(store)@.closed ==> result == Err::<bool, MemoryStoreError>(MemoryStoreError::Closed) && final(store)@ == old(store)@,
        !old(store)@.closed ==> publishes(old(store)@, token@, completed_watermark, artifacts@, generation_id@, now, final(store)@, result),
{
    if !old(store)@.closed {
        lemma_publication(old(store)@, token@, completed_watermark, selected, artifacts@, generation_id@, now, final(store)@, result);
    }
}

/// Completing a consolidation publishes in a shared database. Where files on disk are authoritative it only
/// completes the job.
pub proof fn law_consolidation_publishes_in_a_shared_database(
    store: &mut MemoryStore,
    token: &str,
    completed_watermark: i64,
    selected: &[Stage1Output],
    artifacts: &MemoryArtifactSet,
    now: i64,
    result: Result<bool, MemoryStoreError>,
)
    requires
        call_ensures(MemoryStore::complete_global_consolidation, (store, token, completed_watermark, selected, artifacts, now), result),
        !old(store)@.closed,
    ensures
        old(store)@.backend is Sqlite ==> {
            let held = old(store)@.global_job is Some && runs_for(old(store)@.global_job->0, token@, now);
            &&& result == Ok::<bool, MemoryStoreError>(held)
            &&& final(store)@.generations == old(store)@.generations
            &&& !held ==> final(store)@ == old(store)@
            &&& held ==> final(store)@.global_job is Some && final(store)@.global_job->0.status == MemoryJobStatus::Done
        },
        old(store)@.backend is Postgresql ==> exists|generation_id: Seq<char>| #[trigger]
            publishes(old(store)@, token@, completed_watermark, artifacts@, generation_id, now, final(store)@, result),
{
    if old(store)@.backend is Postgresql {
        let generation_id = choose|generation_id: Seq<char>| #[trigger]
            publication(old(store)@, token@, completed_watermark, output_views(selected@), artifacts@, generation_id, now, final(store)@, result);
        lemma_publication(old(store)@, token@, completed_watermark, selected, artifacts@, generation_id, now, final(store)@, result);
    }
}

/// A generation that is activated is the last one, as it was given, and is what is then loaded. An import of
/// a generation answers with it.
pub proof fn law_activated_generation_is_the_last(
    store: &mut MemoryStore,
    generation_id: String,
    completed_watermark: i64,
    artifacts: &MemoryArtifactSet,
    now: i64,
    result: Result<MemoryGeneration, MemoryStoreError>,
)
    requires
        call_ensures(MemoryStore::import_migrated_memory_generation, (store, generation_id, completed_watermark, artifacts, now), result),
    ensures
        result is Err ==> final(store)@ == old(store)@,
        old(store)@.closed ==> result is Err,
        !old(store)@.closed ==> (result is Ok <==> artifacts@.len() <= i32::MAX && artifacts@.fold_left(
            0int,
            |sum: int, artifact: MemoryArtifactView| sum + artifact.contents.len(),
        ) <= i64::MAX),
        result is Ok ==> {
            let last = final(store)@.generations[final(store)@.generations.len() - 1];
            &&& final(store)@.generations.len() == old(store)@.generations.len() + 1
            &&& last == result->Ok_0@
            &&& last.generation_id == generation_id@
            &&& last.completed_watermark == completed_watermark
            &&& last.published_at == now
            &&& last.artifacts == artifacts@
            &&& final(store)@.jobs == old(store)@.jobs
            &&& final(store)@.outputs == old(store)@.outputs
            &&& final(store)@.global_job == old(store)@.global_job
        },
{
    lemma_total(artifacts@);
}

/// The active generation is the last one that was published. It is loaded from a shared database only.
pub proof fn law_last_generation_is_active(store: &MemoryStore, result: Result<Option<MemoryGeneration>, MemoryStoreError>)
    requires
        call_ensures(MemoryStore::load_active_memory_generation, (store,), result),
    ensures
        store@.backend is Sqlite ==> result is Ok && result->Ok_0 is None,
        store@.backend is Postgresql ==> {
            &&& result is Err <==> store@.closed
            &&& result is Ok ==> (result->Ok_0 is Some <==> store@.generations.len() > 0)
            &&& result is Ok && result->Ok_0 is Some ==> result->Ok_0->0@ == store@.generations[store@.generations.len() - 1]
        },
{
}

/// A local workspace is kept where files on disk are authoritative. Otherwise it is replaced by the artifacts
/// of the last generation, or cleared where there is none.
pub proof fn law_workspace_follows_the_last_generation(store: &MemoryStore, result: Result<MemoryWorkspaceMaterialization, MemoryStoreError>)
    requires
        call_ensures(MemoryStore::memory_workspace_materialization, (store,), result),
    ensures
        store@.backend is Sqlite ==> result is Ok && result->Ok_0 is Preserve,
        store@.backend is Postgresql && store@.closed ==> result is Err,
        store@.backend is Postgresql && !store@.closed && store@.generations.len() == 0 ==> result is Ok && result->Ok_0 is Clear,
        store@.backend is Postgresql && !store@.closed && store@.generations.len() > 0 ==> {
            let last = store@.generations[store@.generations.len() - 1];
            &&& result is Ok && result->Ok_0 is Replace
            &&& result->Ok_0->Replace_generation_id@ == last.generation_id
            &&& result->Ok_0->Replace_artifacts@ == last.artifacts
        },
{
}

/// The path lies in the resources of one of the projects.
pub open spec fn lies_in_a_project(path: Seq<char>, project_keys: Seq<Seq<char>>) -> bool {
    exists|k: int| 0 <= k < project_keys.len() && ("extensions/external_agent_import/resources/"@ + #[trigger] project_keys[k] + "/"@).is_prefix_of(path)
}

/// An import replaces what the active generation holds of the selected projects, and what has the path of an
/// imported artifact; everything else of it stays. The result is a new generation with the watermark of the
/// active one, and a consolidation is asked for. Where that changes nothing, there is no new generation.
pub proof fn law_import_replaces_selected_projects(
    store: &mut MemoryStore,
    import: &ExternalAgentMemoryImport,
    generation_id: String,
    now: i64,
    published: Option<String>,
)
    requires
        call_ensures(MemoryStore::apply_external_agent_import, (store, import, generation_id, now), Ok::<Option<String>, MemoryStoreError>(published)),
    ensures
        ({
            let before = old(store)@;
            let after = final(store)@;
            let held = if before.generations.len() > 0 {
                before.generations.last().artifacts
            } else {
                Seq::empty()
            };
            let last = after.generations[after.generations.len() - 1];
            &&& after.jobs == before.jobs
            &&& after.outputs == before.outputs
            &&& published is None ==> after == before && before.generations.len() == 0 && import@.artifacts.len() == 0
            &&& published is Some ==> {
                &&& after.generations.len() > 0
                &&& last.generation_id == published->0@
                &&& forall|artifact: MemoryArtifactView| #[trigger]
                    last.artifacts.contains(artifact) <==> {
                        ||| import@.artifacts.contains(artifact)
                        ||| held.contains(artifact) && !lies_in_a_project(artifact.path, import@.project_keys) && forall|k: int|
                            0 <= k < import@.artifacts.len() ==> (#[trigger] import@.artifacts[k]).path != artifact.path
                    }
            }
            &&& after.generations.len() != before.generations.len() ==> {
                &&& after.generations.len() == before.generations.len() + 1
                &&& published is Some && published->0@ == generation_id@
                &&& last.published_at == now
                &&& last.completed_watermark == (if before.generations.len() > 0 {
                    before.generations.last().completed_watermark
                } else {
                    0
                })
                &&& after.global_job is Some
                &&& after.global_job->0.input_watermark is Some
                &&& after.global_job->0.input_watermark->0 >= now
            }
            &&& after.generations.len() == before.generations.len() ==> after == before
        }),
{
    let before = old(store)@;
    let after = final(store)@;
    let active = before.active_generation();
    let merged = with_import(active, import@);
    let held = if before.generations.len() > 0 {
        before.generations.last().artifacts
    } else {
        Seq::empty()
    };
    assert(import_application(before, import@, generation_id@, now, after, Ok::<Option<String>, MemoryStoreError>(published)));
    assert forall|artifact: MemoryArtifactView| #[trigger] merged.contains(artifact) <==> {
        ||| import@.artifacts.contains(artifact)
        ||| held.contains(artifact) && !lies_in_a_project(artifact.path, import@.project_keys) && forall|k: int|
            0 <= k < import@.artifacts.len() ==> (#[trigger] import@.artifacts[k]).path != artifact.path
    } by {
        law_overlay_replaces_selected_projects(held, import@.project_keys, import@.artifacts, artifact);
        lemma_in_projects(artifact.path, import@.project_keys);
    }
    let stored = choose|stored: Seq<MemoryArtifactView>| {
        &&& is_artifact_set(stored)
        &&& #[trigger] same_members(merged, stored)
        &&& if changes_nothing(active, stored) {
            &&& after == before
            &&& opt_view(published) == match active {
                Some(generation) => Some(generation.generation_id),
                None => None,
            }
        } else {
            &&& size_error(stored) is None
            &&& enqueued(before.global_job, now) is Some
            &&& after == with_generation(
                before,
                generation_id@,
                match active {
                    Some(generation) => generation.completed_watermark,
                    None => 0,
                },
                stored,
                now,
            ).with_global_job(enqueued(before.global_job, now)->0)
            &&& opt_view(published) == Some(generation_id@)
        }
    };
    if published is Some {
        let last = after.generations[after.generations.len() - 1];
        assert(last.artifacts == stored);
        assert forall|artifact: MemoryArtifactView| #[trigger] last.artifacts.contains(artifact) <==> {
            ||| import@.artifacts.contains(artifact)
            ||| held.contains(artifact) && !lies_in_a_project(artifact.path, import@.project_keys) && forall|k: int|
                0 <= k < import@.artifacts.len() ==> (#[trigger] import@.artifacts[k]).path != artifact.path
        } by {
            assert(merged.contains(artifact) <==> stored.contains(artifact));
        }
    } else {
        if import@.artifacts.len() > 0 {
            assert(import@.artifacts.contains(import@.artifacts[0]));
            assert(merged.contains(import@.artifacts[0]));
        }
    }
}

proof fn lemma_in_projects(path: Seq<char>, project_keys: Seq<Seq<char>>)
    ensures
        crate::external_agent_config_imports::memory_import::in_projects(path, project_keys) <==> lies_in_a_project(path, project_keys),
{
    if lies_in_a_project(path, project_keys) {
        let k = choose|k: int| 0 <= k < project_keys.len() && ("extensions/external_agent_import/resources/"@ + #[trigger] project_keys[k] + "/"@).is_prefix_of(path);
        assert(crate::external_agent_config_imports::memory_import::project_prefix(project_keys[k]).is_prefix_of(path));
    }
}

/// Bytes of all artifacts are those of their contents.
pub proof fn law_bytes_of_artifacts(set: &MemoryArtifactSet, result: Result<i64, MemoryStoreError>)
    requires
        call_ensures(super::total_artifact_bytes, (set,), result),
    ensures
        result is Ok ==> result->Ok_0 == set@.fold_left(0int, |sum: int, artifact: MemoryArtifactView| sum + artifact.contents.len()),
        result is Err <==> set@.fold_left(0int, |sum: int, artifact: MemoryArtifactView| sum + artifact.contents.len()) > i64::MAX,
{
    lemma_total(set@);
}

proof fn lemma_total(artifacts: Seq<MemoryArtifactView>)
    ensures
        total_bytes(artifacts) == artifacts.fold_left(0int, |sum: int, artifact: MemoryArtifactView| sum + artifact.contents.len()),
    decreases artifacts.len(),
{
    if artifacts.len() > 0 {
        lemma_total(artifacts.drop_last());
    }
}

/// A generation that is read from its rows is told by the first row, and holds the artifact of every row that
/// has one. The rows have to agree with each other on how many there are and how large they are.
pub proof fn law_generation_is_read_from_its_rows(rows: Vec<MemoryGenerationRow>, generation: Option<MemoryGeneration>)
    requires
        call_ensures(super::memory_generation_from_rows, (rows,), Ok::<Option<MemoryGeneration>, MemoryStoreError>(generation)),
    ensures
        generation is None <==> rows@.len() == 0,
        generation is Some ==> {
            &&& generation->0@.generation_id == rows@[0].generation_id@
            &&& generation->0@.completed_watermark == rows@[0].completed_watermark
            &&& generation->0@.published_at == rows@[0].published_at
            &&& generation->0@.artifacts.len() == rows@[0].artifact_count
            &&& generation->0@.artifacts.fold_left(0int, |sum: int, artifact: MemoryArtifactView| sum + artifact.contents.len()) == rows@[0].total_bytes
            &&& forall|i: int|
                0 <= i < rows@.len() && (#[trigger] rows@[i]).artifact is Some ==> generation->0@.artifacts.contains(
                    MemoryArtifactView { path: rows@[i].artifact->0.path@, contents: rows@[i].artifact->0.contents@ },
                )
            &&& forall|artifact: MemoryArtifactView| #[trigger]
                generation->0@.artifacts.contains(artifact) ==> exists|i: int| {
                    &&& 0 <= i < rows@.len()
                    &&& (#[trigger] rows@[i]).artifact is Some
                    &&& rows@[i].artifact->0.path@ == artifact.path
                    &&& rows@[i].artifact->0.contents@ == artifact.contents
                }
        },
{
    if generation is Some {
        lemma_total(generation->0@.artifacts);
        assert forall|i: int| 0 <= i < rows@.len() && (#[trigger] rows@[i]).artifact is Some implies generation->0@.artifacts.contains(
            MemoryArtifactView { path: rows@[i].artifact->0.path@, contents: rows@[i].artifact->0.contents@ },
        ) by {
            lemma_row_artifact(rows@, i);
        }
        assert forall|artifact: MemoryArtifactView| #[trigger] generation->0@.artifacts.contains(artifact) implies exists|i: int| {
            &&& 0 <= i < rows@.len()
            &&& (#[trigger] rows@[i]).artifact is Some
            &&& rows@[i].artifact->0.path@ == artifact.path
            &&& rows@[i].artifact->0.contents@ == artifact.contents
        } by {
            assert(row_artifacts(rows@).contains(artifact));
            let i = lemma_artifact_row(rows@, artifact);
            assert(rows@[i].artifact is Some);
        }
    }
}

proof fn lemma_row_artifact(rows: Seq<MemoryGenerationRow>, i: int)
    requires
        0 <= i < rows.len(),
        rows[i].artifact is Some,
    ensures
        row_artifacts(rows).contains(MemoryArtifactView { path: rows[i].artifact->0.path@, contents: rows[i].artifact->0.contents@ }),
    decreases rows.len(),
{
    let artifact = MemoryArtifactView { path: rows[i].artifact->0.path@, contents: rows[i].artifact->0.contents@ };
    let front = row_artifacts(rows.drop_last());
    if i < rows.len() - 1 {
        lemma_row_artifact(rows.drop_last(), i);
        let k = choose|k: int| 0 <= k < front.len() && front[k] == artifact;
        assert(row_artifacts(rows)[k] == artifact);
    } else {
        assert(row_artifacts(rows)[front.len() as int] == artifact);
    }
}

proof fn lemma_artifact_row(rows: Seq<MemoryGenerationRow>, artifact: MemoryArtifactView) -> (i: int)
    requires
        row_artifacts(rows).contains(artifact),
    ensures
        0 <= i < rows.len(),
        rows[i].artifact is Some,
        rows[i].artifact->0.path@ == artifact.path,
        rows[i].artifact->0.contents@ == artifact.contents,
    decreases rows.len(),
{
    let all = row_artifacts(rows);
    let k = choose|k: int| 0 <= k < all.len() && all[k] == artifact;
    let front = row_artifacts(rows.drop_last());
    if k < front.len() {
        assert(front[k] == artifact);
        assert(front.contains(artifact));
        lemma_artifact_row(rows.drop_last(), artifact)
    } else {
        rows.len() - 1
    }
}

/// The first text that stands at an earlier position too is found. Where there is none, the first that goes on
/// with a slash behind another one is.
pub proof fn law_first_collision(folds: &[Vec<char>], found: Option<FoldCollision>)
    requires
        call_ensures(super::generation::first_collision, (folds,), found),
    ensures
        found == None::<FoldCollision> ==> forall|i: int, j: int| #![trigger folds@[i], folds@[j]] 0 <= i < j < folds@.len() ==> folds@[i]@ != folds@[j]@,
        found is Some && found->0 is Repeated ==> {
            let at = found->0->Repeated_0 as int;
            &&& 0 < at < folds@.len()
            &&& exists|i: int| 0 <= i < at && #[trigger] folds@[i]@ == folds@[at]@
            &&& forall|i: int, j: int| #![trigger folds@[i], folds@[j]] 0 <= i < j < at ==> folds@[i]@ != folds@[j]@
        },
        found is Some && found->0 is Nested ==> {
            let at = found->0->Nested_0 as int;
            &&& 0 <= at < folds@.len()
            &&& exists|k: int| 0 <= k < folds@.len() && (#[trigger] folds@[k]@ + seq!['/']).is_prefix_of(folds@[at]@)
            &&& forall|i: int, j: int| #![trigger folds@[i], folds@[j]] 0 <= i < j < folds@.len() ==> folds@[i]@ != folds@[j]@
        },
{
    let views = fold_views(folds@);
    assert forall|i: int, j: int| #![trigger folds@[i], folds@[j]] 0 <= i < j < folds@.len() && folds@[i]@ == folds@[j]@ implies repeats_fold(views, j) by {
        assert(views[i] == views[j]);
    }
    if let Some(FoldCollision::Repeated(at)) = found {
        let i = choose|i: int| 0 <= i < at && #[trigger] views[i] == views[at as int];
        assert(folds@[i]@ == folds@[at as int]@);
    }
    if let Some(FoldCollision::Nested(at)) = found {
        let (slash, file) = choose|slash: int, file: int| #[trigger] nests_in_fold(views, at as int, slash, file);
        let start = folds@[file]@ + seq!['/'];
        assert(start =~= views[at as int].subrange(0, start.len() as int));
        assert((folds@[file]@ + seq!['/']).is_prefix_of(folds@[at as int]@));
    }
}

/// A generation that is inserted is the last one, as it was given.
pub proof fn law_inserted_generation_is_the_last(
    store: &mut MemoryStore,
    generation_id: String,
    completed_watermark: i64,
    artifacts: &MemoryArtifactSet,
    now: i64,
    result: Result<(), MemoryStoreError>,
)
    requires
        call_ensures(MemoryStore::insert_and_activate_generation, (store, generation_id, completed_watermark, artifacts, now), result),
    ensures
        result is Err ==> final(store)@ == old(store)@,
        old(store)@.closed ==> result is Err,
        result is Ok ==> {
            let last = final(store)@.generations[final(store)@.generations.len() - 1];
            &&& final(store)@.generations.len() == old(store)@.generations.len() + 1
            &&& last.generation_id == generation_id@
            &&& last.completed_watermark == completed_watermark
            &&& last.published_at == now
            &&& last.artifacts == artifacts@
            &&& final(store)@.jobs == old(store)@.jobs
            &&& final(store)@.outputs == old(store)@.outputs
            &&& final(store)@.global_job == old(store)@.global_job
        },
{
}

/// The holder of the running lease publishes what it has: where no generation was published before and nothing
/// was imported, a set that can be counted is published as it is.
pub proof fn law_holder_publishes(
    store: &mut MemoryStore,
    token: &str,
    completed_watermark: i64,
    selected: &[Stage1Output],
    given: Vec<MemoryArtifact>,
    artifacts: &MemoryArtifactSet,
    generation_id: String,
    now: i64,
    result: Result<bool, MemoryStoreError>,
)
    requires
        call_ensures(MemoryStore::publish_memory_generation, (store, token, completed_watermark, selected, artifacts, generation_id, now), result),
        call_ensures(MemoryArtifactSet::new, (given,), Ok::<MemoryArtifactSet, MemoryArtifactError>(*artifacts)),
        !old(store)@.closed,
        old(store)@.global_job is Some && runs_for(old(store)@.global_job->0, token@, now),
        old(store)@.generations.len() == 0,
        forall|i: int| 0 <= i < artifacts@.len() ==> !came_from_an_import(#[trigger] artifacts@[i]),
        artifacts@.len() <= i32::MAX,
        artifacts@.fold_left(0int, |sum: int, artifact: MemoryArtifactView| sum + artifact.contents.len()) <= i64::MAX,
    ensures
        result == Ok::<bool, MemoryStoreError>(true),
        final(store)@.generations.len() == 1,
        final(store)@.generations[0].artifacts == artifacts@,
{
    let before = old(store)@;
    let own = |artifact: MemoryArtifactView| !super::artifacts::is_imported(artifact);
    let merged = preserving_imports(artifacts@, before.active_generation());
    lemma_filter_everything(artifacts@, own);
    assert(merged == artifacts@);
    lemma_total(artifacts@);
    if let Err(MemoryStoreError::Artifact(error)) = result {
        lemma_collision_free_is_accepted(merged, error);
    } else if let Err(error) = result {
        let published = choose|published: Seq<MemoryArtifactView>|
            is_artifact_set(published) && #[trigger] same_members(merged, published) && size_error(published) == Some(error);
        lemma_ordered_artifacts(merged, published);
    } else {
        let published = choose|published: Seq<MemoryArtifactView>| {
            &&& is_artifact_set(published)
            &&& same_members(merged, published)
            &&& size_error(published) is None
            &&& final(store)@ == #[trigger] with_generation(
                completed_phase2(before, completed_watermark, output_views(selected@), now),
                generation_id@,
                completed_watermark,
                published,
                now,
            )
        };
        lemma_ordered_artifacts(merged, published);
        assert(final(store)@.generations =~= seq![final(store)@.generations[0]]);
    }
}

proof fn lemma_filter_everything(artifacts: Seq<MemoryArtifactView>, keep: spec_fn(MemoryArtifactView) -> bool)
    requires
        forall|i: int| 0 <= i < artifacts.len() ==> keep(#[trigger] artifacts[i]),
    ensures
        artifacts.filter(keep) == artifacts,
    decreases artifacts.len(),
{
    reveal(Seq::filter);
    if artifacts.len() > 0 {
        let front = artifacts.drop_last();
        assert forall|i: int| 0 <= i < front.len() implies keep(#[trigger] front[i]) by {
            assert(front[i] == artifacts[i]);
        }
        lemma_filter_everything(front, keep);
        assert(keep(artifacts[artifacts.len() - 1]));
        assert(front.push(artifacts.last()) =~= artifacts);
    } else {
        assert(artifacts.filter(keep) =~= artifacts);
    }
}

/// Rows that tell another number of artifacts than they hold are refused for it, and for nothing else where they
/// hold none.
pub proof fn law_rows_have_to_agree_on_their_number(rows: Vec<MemoryGenerationRow>, result: Result<Option<MemoryGeneration>, MemoryStoreError>)
    requires
        call_ensures(super::memory_generation_from_rows, (rows,), result),
        rows@.len() > 0,
    ensures
        result == Err::<Option<MemoryGeneration>, MemoryStoreError>(MemoryStoreError::CountMismatch) ==> rows@.filter(|row: MemoryGenerationRow| row.artifact is Some).len()
            != rows@[0].artifact_count,
        result is Ok ==> rows@.filter(|row: MemoryGenerationRow| row.artifact is Some).len() == rows@[0].artifact_count,
        (forall|i: int| 0 <= i < rows@.len() ==> (#[trigger] rows@[i]).artifact is None) && rows@[0].artifact_count == 0 && rows@[0].total_bytes == 0 ==> result is Ok
            && result->Ok_0 is Some,
{
    lemma_artifact_count(rows@);
    if result == Err::<Option<MemoryGeneration>, MemoryStoreError>(MemoryStoreError::CountMismatch) {
        let stored = choose|stored: Seq<MemoryArtifactView>| {
            &&& is_artifact_set(stored)
            &&& #[trigger] same_members(row_artifacts(rows@), stored)
            &&& MemoryStoreError::CountMismatch == if rows@[0].artifact_count != stored.len() {
                MemoryStoreError::CountMismatch
            } else if total_bytes(stored) > i64::MAX {
                MemoryStoreError::GenerationTooLarge
            } else {
                MemoryStoreError::BytesMismatch
            }
        };
    }
    if forall|i: int| 0 <= i < rows@.len() ==> (#[trigger] rows@[i]).artifact is None {
        lemma_no_artifacts(rows@);
        if let Err(MemoryStoreError::Artifact(error)) = result {
            lemma_no_bad_path(rows@);
        } else if let Err(error) = result {
            let stored = choose|stored: Seq<MemoryArtifactView>| {
                &&& is_artifact_set(stored)
                &&& #[trigger] same_members(row_artifacts(rows@), stored)
                &&& error == if rows@[0].artifact_count != stored.len() {
                    MemoryStoreError::CountMismatch
                } else if total_bytes(stored) > i64::MAX {
                    MemoryStoreError::GenerationTooLarge
                } else {
                    MemoryStoreError::BytesMismatch
                }
                &&& error == MemoryStoreError::BytesMismatch ==> rows@[0].total_bytes != total_bytes(stored)
            };
            assert(stored.len() == 0);
        }
    }
}

proof fn lemma_artifact_count(rows: Seq<MemoryGenerationRow>)
    ensures
        row_artifacts(rows).len() == rows.filter(|row: MemoryGenerationRow| row.artifact is Some).len(),
    decreases rows.len(),
{
    reveal(Seq::filter);
    if rows.len() > 0 {
        lemma_artifact_count(rows.drop_last());
    }
}

proof fn lemma_no_artifacts(rows: Seq<MemoryGenerationRow>)
    requires
        forall|i: int| 0 <= i < rows.len() ==> (#[trigger] rows[i]).artifact is None,
    ensures
        row_artifacts(rows).len() == 0,
    decreases rows.len(),
{
    if rows.len() > 0 {
        let front = rows.drop_last();
        assert forall|i: int| 0 <= i < front.len() implies (#[trigger] front[i]).artifact is None by {
            assert(front[i] == rows[i]);
        }
        lemma_no_artifacts(front);
        assert(rows[rows.len() - 1].artifact is None);
    }
}

proof fn lemma_no_bad_path(rows: Seq<MemoryGenerationRow>)
    requires
        forall|i: int| 0 <= i < rows.len() ==> (#[trigger] rows[i]).artifact is None,
    ensures
        super::artifacts::first_unportable_path(rows) is None,
    decreases rows.len(),
{
    if rows.len() > 0 {
        let front = rows.drop_last();
        assert forall|i: int| 0 <= i < front.len() implies (#[trigger] front[i]).artifact is None by {
            assert(front[i] == rows[i]);
        }
        lemma_no_bad_path(front);
        assert(rows[rows.len() - 1].artifact is None);
    }
}

} // verus!
