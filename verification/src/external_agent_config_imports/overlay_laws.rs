//! Laws of overlaying imports: in which order imports are laid over each other does not matter,
//! and an import laid over itself changes nothing.

use super::laws::law_overlay_replaces_selected_projects;
use super::memory_import::are_components;
use super::memory_import::has_path;
use super::memory_import::in_import_scope;
use super::memory_import::in_projects;
use super::memory_import::instructions_path;
use super::memory_import::lemma_same_keys;
use super::memory_import::outlasts;
use super::memory_import::overlaid;
use super::memory_import::overlay_result;
use super::memory_import::project_prefix;
use super::memory_import::scope_artifacts;
use super::memory_import::scope_path;
use super::memory_import::ExternalAgentImportError;
use super::memory_import::ExternalAgentMemoryImport;
use super::memory_import::ExternalAgentMemoryImportView;
use crate::memory_store::generation::case_folded;
use crate::memory_store::generation::has_plain_fold;
use crate::memory_store::generation::has_plain_upper;
use crate::memory_store::generation::have_plain_folds;
use crate::memory_store::generation::in_path_order;
use crate::memory_store::generation::nests_in;
use crate::memory_store::generation::nests_in_file;
use crate::memory_store::generation::repeats_path;
use crate::memory_store::generation::uppercase;
use crate::memory_store::is_collision_free;
use crate::memory_store::refuses_set;
use crate::memory_store::same_members;
use crate::memory_store::MemoryArtifactError;
use crate::memory_store::MemoryArtifactView;
use crate::sequences::lemma_concat_members;
use crate::text::in_text_order;
use crate::text::is_sorted_set;
use crate::text::lemma_text_before_asymmetric;
use crate::text::same_texts;
use crate::text::text_before;
use vstd::prelude::*;

verus! {

/// Different keys stay different up to case.
pub open spec fn fold_apart(keys: Seq<Seq<char>>) -> bool {
    forall|k: Seq<char>, l: Seq<char>|
        #![trigger keys.contains(k), keys.contains(l)]
        keys.contains(k) && keys.contains(l) && case_folded(k) == case_folded(l) ==> k == l
}

pub(crate) proof fn lemma_fold_concat(a: Seq<char>, b: Seq<char>)
    ensures
        case_folded(a + b) == case_folded(a) + case_folded(b),
    decreases b.len(),
{
    if b.len() == 0 {
        assert(a + b =~= a);
        assert(case_folded(a) + case_folded(b) =~= case_folded(a));
    } else {
        let front = b.drop_last();
        lemma_fold_concat(a, front);
        assert((a + b).drop_last() =~= a + front);
        assert((a + b).last() == b.last());
        assert(case_folded(a + b) =~= case_folded(a) + case_folded(b));
    }
}

proof fn lemma_fold_prefix(a: Seq<char>, b: Seq<char>)
    requires
        a.is_prefix_of(b),
    ensures
        case_folded(a).is_prefix_of(case_folded(b)),
{
    let rest = b.skip(a.len() as int);
    assert(b =~= a + rest);
    lemma_fold_concat(a, rest);
    assert(case_folded(a) =~= case_folded(b).subrange(0, case_folded(a).len() as int));
}

pub(crate) proof fn lemma_fold_of_one(c: char)
    ensures
        case_folded(seq![c]) == uppercase(c),
{
    reveal_with_fuel(case_folded, 2);
    assert(seq![c].drop_last() =~= Seq::<char>::empty());
    assert(case_folded(seq![c]) =~= uppercase(c));
}

proof fn lemma_fold_without_slash(text: Seq<char>)
    requires
        has_plain_fold(text),
        !text.contains('/'),
    ensures
        !case_folded(text).contains('/'),
    decreases text.len(),
{
    if text.len() > 0 {
        let front = text.drop_last();
        let last = text.last();
        assert(last == text[text.len() - 1]);
        assert(text.contains(last));
        assert(has_plain_upper(last));
        assert forall|i: int| 0 <= i < front.len() implies has_plain_upper(#[trigger] front[i]) by {
            assert(front[i] == text[i]);
        }
        if front.contains('/') {
            let i = choose|i: int| 0 <= i < front.len() && front[i] == '/';
            assert(text[i] == '/');
        }
        lemma_fold_without_slash(front);
        lemma_concat_members(case_folded(front), uppercase(last), '/');
    }
}

/// A key whose scope file has a plain fold has one too.
proof fn lemma_plain_key(key: Seq<char>)
    requires
        has_plain_fold(scope_path(key)),
    ensures
        has_plain_fold(key),
        has_plain_upper('/'),
{
    let before = "extensions/external_agent_import/resources/"@;
    let path = scope_path(key);
    reveal_strlit("/");
    assert forall|i: int| 0 <= i < key.len() implies has_plain_upper(#[trigger] key[i]) by {
        assert(path[before.len() + i] == key[i]);
    }
    assert(path[(before.len() + key.len()) as int] == '/');
}

/// What stands before and after the key in the fold of a project's prefix.
proof fn lemma_prefix_fold(key: Seq<char>)
    requires
        has_plain_upper('/'),
    ensures
        case_folded(project_prefix(key)) == case_folded("extensions/external_agent_import/resources/"@) + case_folded(key) + seq!['/'],
{
    let before = "extensions/external_agent_import/resources/"@;
    reveal_strlit("/");
    assert("/"@ =~= seq!['/']);
    lemma_fold_concat(before + key, "/"@);
    lemma_fold_concat(before, key);
    lemma_fold_of_one('/');
    assert(uppercase('/') == seq!['/']);
}

/// Keys whose project prefixes begin the same text have the same fold.
proof fn lemma_same_project(k: Seq<char>, l: Seq<char>, text: Seq<char>)
    requires
        has_plain_fold(scope_path(k)),
        has_plain_fold(scope_path(l)),
        !k.contains('/'),
        !l.contains('/'),
        case_folded(project_prefix(k)).is_prefix_of(text),
        case_folded(project_prefix(l)).is_prefix_of(text),
    ensures
        case_folded(k) == case_folded(l),
{
    lemma_plain_key(k);
    lemma_plain_key(l);
    lemma_prefix_fold(k);
    lemma_prefix_fold(l);
    lemma_fold_without_slash(k);
    lemma_fold_without_slash(l);
    let n = case_folded("extensions/external_agent_import/resources/"@).len() as int;
    let a = case_folded(k);
    let b = case_folded(l);
    let with_a = case_folded(project_prefix(k));
    let with_b = case_folded(project_prefix(l));
    assert(forall|i: int| 0 <= i < with_a.len() ==> #[trigger] with_a[i] == text[i]);
    assert(forall|i: int| 0 <= i < with_b.len() ==> #[trigger] with_b[i] == text[i]);
    assert(with_a[n + a.len()] == '/');
    assert(with_b[n + b.len()] == '/');
    if a.len() < b.len() {
        assert(with_b[n + a.len()] == b[a.len() as int]);
        assert(b.contains('/'));
    }
    if b.len() < a.len() {
        assert(with_a[n + b.len()] == a[b.len() as int]);
        assert(a.contains('/'));
    }
    assert forall|i: int| 0 <= i < a.len() implies #[trigger] a[i] == b[i] by {
        assert(with_a[n + i] == a[i]);
        assert(with_b[n + i] == b[i]);
    }
    assert(a =~= b);
}

/// The fold of the instructions is not the beginning of a project's path, nor does it begin with
/// one.
proof fn lemma_instructions_apart(path: Seq<char>, key: Seq<char>)
    requires
        has_plain_fold(instructions_path()),
        has_plain_fold(path),
        project_prefix(key).is_prefix_of(path),
    ensures
        !case_folded(path).is_prefix_of(case_folded(instructions_path())),
        !case_folded(instructions_path()).is_prefix_of(case_folded(path)),
{
    let shared = "extensions/external_agent_import/"@;
    let own = instructions_path();
    let before = "extensions/external_agent_import/resources/"@;
    reveal_strlit("extensions/external_agent_import/");
    reveal_strlit("extensions/external_agent_import/instructions.md");
    reveal_strlit("extensions/external_agent_import/resources/");
    let n = shared.len() as int;
    assert(own.take(n) =~= shared);
    assert(before.take(n) =~= shared);
    assert(before.len() <= project_prefix(key).len());
    assert forall|i: int| 0 <= i < before.len() implies #[trigger] path[i] == before[i] by {
        assert(project_prefix(key)[i] == before[i]);
    }
    assert(own[n] == 'i');
    assert(path[n] == 'r');
    assert(has_plain_upper(own[n]));
    assert(has_plain_upper(path[n]));
    let own_rest = own.skip(n + 1);
    let path_rest = path.skip(n + 1);
    assert(own =~= shared + seq!['i'] + own_rest);
    assert(path =~= shared + seq!['r'] + path_rest) by {
        assert(path.take(n) =~= shared) by {
            assert forall|i: int| 0 <= i < n implies path[i] == shared[i] by {
                assert(before.take(n)[i] == before[i]);
            }
        }
    }
    lemma_fold_concat(shared + seq!['i'], own_rest);
    lemma_fold_concat(shared, seq!['i']);
    lemma_fold_of_one('i');
    lemma_fold_concat(shared + seq!['r'], path_rest);
    lemma_fold_concat(shared, seq!['r']);
    lemma_fold_of_one('r');
    let at = case_folded(shared).len() as int;
    assert(case_folded(own)[at] == 'I');
    assert(case_folded(path)[at] == 'R');
    if case_folded(path).is_prefix_of(case_folded(own)) {
        assert(case_folded(path)[at] == case_folded(own).subrange(0, case_folded(path).len() as int)[at]);
    }
    if case_folded(own).is_prefix_of(case_folded(path)) {
        assert(case_folded(own)[at] == case_folded(path).subrange(0, case_folded(own).len() as int)[at]);
    }
}

proof fn lemma_prefix_transitive(a: Seq<char>, b: Seq<char>, c: Seq<char>)
    requires
        a.is_prefix_of(b),
        b.is_prefix_of(c),
    ensures
        a.is_prefix_of(c),
{
    assert(a =~= c.subrange(0, a.len() as int)) by {
        assert forall|i: int| 0 <= i < a.len() implies a[i] == c[i] by {
            assert(a[i] == b.subrange(0, a.len() as int)[i]);
            assert(b[i] == c.subrange(0, b.len() as int)[i]);
        }
    }
}

/// The scope files of valid imports have plain folds, and their keys are components.
proof fn lemma_valid_key(import: ExternalAgentMemoryImportView, key: Seq<char>)
    requires
        import.valid(),
        import.project_keys.contains(key),
    ensures
        has_plain_fold(scope_path(key)),
        !key.contains('/'),
{
    let i = choose|i: int| 0 <= i < import.project_keys.len() && import.project_keys[i] == key;
    assert(has_plain_fold(scope_artifacts(import.project_keys)[i].path));
    assert(!import.project_keys[i].contains('/'));
}

/// What outlasts a newer import does not collide with it.
proof fn lemma_apart(older: ExternalAgentMemoryImportView, newer: ExternalAgentMemoryImportView, x: Seq<char>, y: Seq<char>)
    requires
        older.valid(),
        newer.valid(),
        fold_apart(older.project_keys + newer.project_keys),
        in_import_scope(x, older.project_keys),
        in_import_scope(y, newer.project_keys),
        has_plain_fold(x),
        has_plain_fold(y),
        !in_projects(x, newer.project_keys),
        x != y,
    ensures
        !case_folded(x).is_prefix_of(case_folded(y)),
        !case_folded(y).is_prefix_of(case_folded(x)),
{
    let given = older.project_keys + newer.project_keys;
    if x == instructions_path() {
        let j = choose|j: int| 0 <= j < newer.project_keys.len() && project_prefix(#[trigger] newer.project_keys[j]).is_prefix_of(y);
        lemma_instructions_apart(y, newer.project_keys[j]);
    } else if y == instructions_path() {
        let i = choose|i: int| 0 <= i < older.project_keys.len() && project_prefix(#[trigger] older.project_keys[i]).is_prefix_of(x);
        lemma_instructions_apart(x, older.project_keys[i]);
    } else {
        let i = choose|i: int| 0 <= i < older.project_keys.len() && project_prefix(#[trigger] older.project_keys[i]).is_prefix_of(x);
        let j = choose|j: int| 0 <= j < newer.project_keys.len() && project_prefix(#[trigger] newer.project_keys[j]).is_prefix_of(y);
        let k = older.project_keys[i];
        let l = newer.project_keys[j];
        assert(older.project_keys.contains(k));
        assert(newer.project_keys.contains(l));
        lemma_valid_key(older, k);
        lemma_valid_key(newer, l);
        lemma_fold_prefix(project_prefix(k), x);
        lemma_fold_prefix(project_prefix(l), y);
        assert(given[i] == k);
        assert(given[older.project_keys.len() + j] == l);
        assert(given.contains(k) && given.contains(l));
        if case_folded(x).is_prefix_of(case_folded(y)) {
            lemma_prefix_transitive(case_folded(project_prefix(k)), case_folded(x), case_folded(y));
            lemma_same_project(k, l, case_folded(y));
            assert(in_projects(x, newer.project_keys));
        }
        if case_folded(y).is_prefix_of(case_folded(x)) {
            lemma_prefix_transitive(case_folded(project_prefix(l)), case_folded(y), case_folded(x));
            lemma_same_project(k, l, case_folded(x));
            assert(in_projects(x, newer.project_keys));
        }
    }
}

proof fn lemma_filter_path_order(artifacts: Seq<MemoryArtifactView>, keep: spec_fn(MemoryArtifactView) -> bool)
    requires
        in_path_order(artifacts),
    ensures
        in_path_order(artifacts.filter(keep)),
    decreases artifacts.len(),
{
    reveal(Seq::filter);
    if artifacts.len() > 0 {
        let front = artifacts.drop_last();
        assert forall|i: int, j: int| #![trigger front[i], front[j]] 0 <= i < j < front.len() implies text_before(front[i].path, front[j].path) by {
            assert(front[i] == artifacts[i] && front[j] == artifacts[j]);
        }
        lemma_filter_path_order(front, keep);
        let kept = front.filter(keep);
        let last = artifacts.last();
        assert forall|i: int| 0 <= i < kept.len() implies text_before(#[trigger] kept[i].path, last.path) by {
            assert(kept.contains(kept[i]));
            front.lemma_filter_contains_rev(keep, kept[i]);
            let k = choose|k: int| 0 <= k < front.len() && front[k] == kept[i];
            assert(text_before(artifacts[k].path, artifacts[artifacts.len() - 1].path));
        }
    }
}

/// Different members do not collide.
proof fn lemma_members_apart(artifacts: Seq<MemoryArtifactView>, u: MemoryArtifactView, v: MemoryArtifactView)
    requires
        is_collision_free(artifacts),
        artifacts.contains(u),
        artifacts.contains(v),
        u != v,
    ensures
        case_folded(u.path) != case_folded(v.path),
{
    let a = choose|a: int| 0 <= a < artifacts.len() && artifacts[a] == u;
    let b = choose|b: int| 0 <= b < artifacts.len() && artifacts[b] == v;
    if case_folded(u.path) == case_folded(v.path) {
        if a < b {
            assert(case_folded(artifacts[a].path) == case_folded(artifacts[b].path));
            assert(repeats_path(artifacts, b));
        } else {
            assert(case_folded(artifacts[b].path) == case_folded(artifacts[a].path));
            assert(repeats_path(artifacts, a));
        }
    }
}

/// No member lies below another.
proof fn lemma_members_level(artifacts: Seq<MemoryArtifactView>, u: MemoryArtifactView, v: MemoryArtifactView, slash: int)
    requires
        is_collision_free(artifacts),
        artifacts.contains(u),
        artifacts.contains(v),
        0 <= slash < case_folded(u.path).len(),
        case_folded(u.path)[slash] == '/',
    ensures
        case_folded(v.path) != case_folded(u.path).take(slash),
{
    let a = choose|a: int| 0 <= a < artifacts.len() && artifacts[a] == u;
    let b = choose|b: int| 0 <= b < artifacts.len() && artifacts[b] == v;
    if case_folded(v.path) == case_folded(u.path).take(slash) {
        assert(nests_in(artifacts, a, slash, b));
        assert(nests_in_file(artifacts, a));
    }
}

/// Valid imports whose keys stay apart can be merged.
proof fn lemma_merged_collision_free(older: ExternalAgentMemoryImportView, newer: ExternalAgentMemoryImportView)
    requires
        older.valid(),
        newer.valid(),
        fold_apart(older.project_keys + newer.project_keys),
    ensures
        is_collision_free(overlaid(older.artifacts, newer.project_keys, newer.artifacts)),
{
    let keep = |artifact: MemoryArtifactView| outlasts(artifact, newer.project_keys, newer.artifacts);
    let kept = older.artifacts.filter(keep);
    let merged = overlaid(older.artifacts, newer.project_keys, newer.artifacts);
    let n = kept.len() as int;
    lemma_filter_path_order(older.artifacts, keep);
    assert forall|i: int| 0 <= i < n implies older.artifacts.contains(#[trigger] merged[i]) && keep(merged[i]) by {
        assert(merged[i] == kept[i]);
        assert(kept.contains(kept[i]));
        older.artifacts.lemma_filter_contains_rev(keep, kept[i]);
    }
    assert forall|i: int| n <= i < merged.len() implies newer.artifacts.contains(#[trigger] merged[i]) by {
        assert(merged[i] == newer.artifacts[i - n]);
    }
    assert forall|i: int, j: int| 0 <= i < n && n <= j < merged.len() implies {
        &&& !case_folded((#[trigger] merged[i]).path).is_prefix_of(case_folded((#[trigger] merged[j]).path))
        &&& !case_folded(merged[j].path).is_prefix_of(case_folded(merged[i].path))
    } by {
        let x = merged[i];
        let y = merged[j];
        assert(older.artifacts.contains(x) && keep(x));
        assert(newer.artifacts.contains(y));
        let a = choose|a: int| 0 <= a < older.artifacts.len() && older.artifacts[a] == x;
        let b = choose|b: int| 0 <= b < newer.artifacts.len() && newer.artifacts[b] == y;
        assert(in_import_scope(older.artifacts[a].path, older.project_keys));
        assert(in_import_scope(newer.artifacts[b].path, newer.project_keys));
        assert(has_plain_fold(older.artifacts[a].path));
        assert(has_plain_fold(newer.artifacts[b].path));
        if x.path == y.path {
            assert(newer.artifacts[b].path == x.path);
            assert(has_path(newer.artifacts, x.path));
        }
        lemma_apart(older, newer, x.path, y.path);
    }
    assert forall|i: int| 0 <= i < merged.len() implies !#[trigger] repeats_path(merged, i) by {
        if repeats_path(merged, i) {
            let first = choose|first: int| 0 <= first < i && case_folded(#[trigger] merged[first].path) == case_folded(merged[i].path);
            let u = merged[first];
            let v = merged[i];
            if i < n {
                assert(text_before(kept[first].path, kept[i].path));
                lemma_ordered_differ(u.path, v.path);
                lemma_members_apart(older.artifacts, u, v);
            } else if first >= n {
                assert(text_before(newer.artifacts[first - n].path, newer.artifacts[i - n].path));
                lemma_ordered_differ(u.path, v.path);
                lemma_members_apart(newer.artifacts, u, v);
            } else {
                assert(case_folded(u.path) =~= case_folded(v.path).subrange(0, case_folded(u.path).len() as int));
                assert(case_folded(merged[first].path).is_prefix_of(case_folded(merged[i].path)));
            }
        }
    }
    assert forall|i: int| 0 <= i < merged.len() implies !#[trigger] nests_in_file(merged, i) by {
        if nests_in_file(merged, i) {
            let (slash, file) = choose|slash: int, file: int| #[trigger] nests_in(merged, i, slash, file);
            let u = merged[i];
            let v = merged[file];
            if i < n && file < n {
                lemma_members_level(older.artifacts, u, v, slash);
            } else if i >= n && file >= n {
                lemma_members_level(newer.artifacts, u, v, slash);
            } else {
                assert(case_folded(u.path).take(slash) =~= case_folded(u.path).subrange(0, slash));
                assert(case_folded(merged[file].path).is_prefix_of(case_folded(merged[i].path)));
            }
        }
    }
}

proof fn lemma_ordered_differ(a: Seq<char>, b: Seq<char>)
    requires
        text_before(a, b),
    ensures
        a != b,
{
    if a == b {
        lemma_text_before_asymmetric(a, b);
    }
}

/// The scope files of keys collide exactly where the keys do.
proof fn lemma_scopes_apart(keys: Seq<Seq<char>>)
    requires
        in_text_order(keys),
        are_components(keys),
        have_plain_folds(scope_artifacts(keys)),
    ensures
        is_collision_free(scope_artifacts(keys)) <==> fold_apart(keys),
{
    let scopes = scope_artifacts(keys);
    if is_collision_free(scopes) {
        assert forall|k: Seq<char>, l: Seq<char>|
            #![trigger keys.contains(k), keys.contains(l)]
            keys.contains(k) && keys.contains(l) && case_folded(k) == case_folded(l) implies k == l by {
            let i = choose|i: int| 0 <= i < keys.len() && keys[i] == k;
            let j = choose|j: int| 0 <= j < keys.len() && keys[j] == l;
            if k != l {
                lemma_scope_fold(k);
                lemma_scope_fold(l);
                assert(case_folded(scopes[i].path) == case_folded(scopes[j].path));
                if i < j {
                    assert(repeats_path(scopes, j));
                } else {
                    assert(case_folded(scopes[j].path) == case_folded(scopes[i].path));
                    assert(repeats_path(scopes, i));
                }
            }
        }
    }
    if fold_apart(keys) {
        assert forall|i: int, j: int| 0 <= i < keys.len() && 0 <= j < keys.len() && case_folded((#[trigger] scopes[i]).path).is_prefix_of(
            case_folded((#[trigger] scopes[j]).path),
        ) implies i == j by {
            let k = keys[i];
            let l = keys[j];
            assert(keys.contains(k) && keys.contains(l));
            assert(has_plain_fold(scopes[i].path) && has_plain_fold(scopes[j].path));
            assert(!keys[i].contains('/') && !keys[j].contains('/'));
            lemma_begins(project_prefix(k), "scope.json"@);
            lemma_begins(project_prefix(l), "scope.json"@);
            lemma_fold_prefix(project_prefix(k), scope_path(k));
            lemma_fold_prefix(project_prefix(l), scope_path(l));
            lemma_prefix_transitive(case_folded(project_prefix(k)), case_folded(scope_path(k)), case_folded(scope_path(l)));
            lemma_same_project(k, l, case_folded(scope_path(l)));
            assert(k == l);
            if i < j {
                lemma_ordered_differ(keys[i], keys[j]);
            }
            if j < i {
                lemma_ordered_differ(keys[j], keys[i]);
            }
        }
        assert forall|i: int| 0 <= i < scopes.len() implies !#[trigger] repeats_path(scopes, i) by {
            if repeats_path(scopes, i) {
                let first = choose|first: int| 0 <= first < i && case_folded(#[trigger] scopes[first].path) == case_folded(scopes[i].path);
                let fold = case_folded(scopes[i].path);
                assert(fold =~= fold.subrange(0, fold.len() as int));
                assert(case_folded(scopes[first].path).is_prefix_of(case_folded(scopes[i].path)));
            }
        }
        assert forall|i: int| 0 <= i < scopes.len() implies !#[trigger] nests_in_file(scopes, i) by {
            if nests_in_file(scopes, i) {
                let (slash, file) = choose|slash: int, file: int| #[trigger] nests_in(scopes, i, slash, file);
                let fold = case_folded(scopes[i].path);
                assert(fold.take(slash) =~= fold.subrange(0, slash));
                assert(case_folded(scopes[file].path).is_prefix_of(case_folded(scopes[i].path)));
            }
        }
    }
}

proof fn lemma_begins(a: Seq<char>, b: Seq<char>)
    ensures
        a.is_prefix_of(a + b),
{
    assert(a =~= (a + b).subrange(0, a.len() as int));
}

/// The fold of a scope file depends on the fold of the key alone.
proof fn lemma_scope_fold(key: Seq<char>)
    ensures
        case_folded(scope_path(key)) == case_folded("extensions/external_agent_import/resources/"@) + case_folded(key) + case_folded("/"@)
            + case_folded("scope.json"@),
{
    let before = "extensions/external_agent_import/resources/"@;
    lemma_fold_concat(project_prefix(key), "scope.json"@);
    lemma_fold_concat(before + key, "/"@);
    lemma_fold_concat(before, key);
}

proof fn lemma_same_texts_apart(left: Seq<Seq<char>>, right: Seq<Seq<char>>)
    requires
        same_texts(left, right),
        fold_apart(left),
    ensures
        fold_apart(right),
{
    assert forall|k: Seq<char>, l: Seq<char>|
        #![trigger right.contains(k), right.contains(l)]
        right.contains(k) && right.contains(l) && case_folded(k) == case_folded(l) implies k == l by {
        assert(left.contains(k) && left.contains(l));
    }
}

pub(crate) proof fn lemma_collision_free_is_accepted(artifacts: Seq<MemoryArtifactView>, error: MemoryArtifactError)
    requires
        is_collision_free(artifacts),
    ensures
        !refuses_set(artifacts, error),
{
}

/// Two valid imports can be laid over each other exactly where different project keys of the two
/// stay different up to case.
pub proof fn law_overlay_succeeds(
    older: ExternalAgentMemoryImportView,
    newer: ExternalAgentMemoryImportView,
    result: Result<ExternalAgentMemoryImport, ExternalAgentImportError>,
)
    requires
        older.valid(),
        newer.valid(),
        overlay_result(older, newer, result),
    ensures
        result is Ok <==> fold_apart(older.project_keys + newer.project_keys),
{
    let given = older.project_keys + newer.project_keys;
    match result {
        Ok(import) => {
            lemma_scopes_apart(import@.project_keys);
            lemma_same_texts_apart(import@.project_keys, given);
        },
        Err(ExternalAgentImportError::Artifact(error)) => {
            if fold_apart(given) {
                let merged = overlaid(older.artifacts, newer.project_keys, newer.artifacts);
                lemma_merged_collision_free(older, newer);
                lemma_collision_free_is_accepted(merged, error);
                let keys = choose|keys: Seq<Seq<char>>| #[trigger] is_sorted_set(given, keys) && refuses_set(scope_artifacts(keys), error);
                assert forall|i: int| 0 <= i < keys.len() implies has_plain_fold(#[trigger] scope_artifacts(keys)[i].path) && !keys[i].contains('/') by {
                    let key = keys[i];
                    assert(keys.contains(key));
                    assert(given.contains(key));
                    lemma_concat_members(older.project_keys, newer.project_keys, key);
                    if older.project_keys.contains(key) {
                        lemma_valid_key(older, key);
                    } else {
                        lemma_valid_key(newer, key);
                    }
                }
                assert forall|i: int| 0 <= i < keys.len() implies !#[trigger] keys[i].contains('/') by {
                    assert(has_plain_fold(scope_artifacts(keys)[i].path));
                }
                lemma_same_texts_apart(given, keys);
                lemma_scopes_apart(keys);
                lemma_collision_free_is_accepted(scope_artifacts(keys), error);
            }
        },
        Err(_) => {},
    }
}

/// Ordered texts are determined by what they are.
pub proof fn lemma_ordered_texts(left: Seq<Seq<char>>, right: Seq<Seq<char>>)
    requires
        in_text_order(left),
        in_text_order(right),
        same_texts(left, right),
    ensures
        left == right,
    decreases left.len(),
{
    if left.len() == 0 {
        if right.len() > 0 {
            assert(right.contains(right[0]));
            assert(left.contains(right[0]));
        }
        assert(left =~= right);
    } else {
        let a = left.last();
        assert(left[left.len() - 1] == a);
        assert(left.contains(a));
        assert(right.contains(a));
        let at = choose|at: int| 0 <= at < right.len() && right[at] == a;
        let b = right.last();
        assert(right[right.len() - 1] == b);
        assert(right.contains(b));
        assert(left.contains(b));
        let back = choose|back: int| 0 <= back < left.len() && left[back] == b;
        if a != b {
            assert(text_before(right[at], right[right.len() - 1]));
            assert(text_before(left[back], left[left.len() - 1]));
            lemma_text_before_asymmetric(a, b);
        }
        let l = left.drop_last();
        let r = right.drop_last();
        assert forall|text: Seq<char>| #[trigger] l.contains(text) <==> r.contains(text) by {
            if l.contains(text) {
                let i = choose|i: int| 0 <= i < l.len() && l[i] == text;
                assert(left[i] == text);
                assert(left.contains(text));
                lemma_ordered_differ(left[i], left[left.len() - 1]);
                let j = choose|j: int| 0 <= j < right.len() && right[j] == text;
                assert(r[j] == text);
            }
            if r.contains(text) {
                let i = choose|i: int| 0 <= i < r.len() && r[i] == text;
                assert(right[i] == text);
                assert(right.contains(text));
                assert(left.contains(text));
                lemma_ordered_differ(right[i], right[right.len() - 1]);
                let j = choose|j: int| 0 <= j < left.len() && left[j] == text;
                assert(l[j] == text);
            }
        }
        assert forall|i: int, j: int| #![trigger l[i], l[j]] 0 <= i < j < l.len() implies text_before(l[i], l[j]) by {
            assert(l[i] == left[i] && l[j] == left[j]);
        }
        assert forall|i: int, j: int| #![trigger r[i], r[j]] 0 <= i < j < r.len() implies text_before(r[i], r[j]) by {
            assert(r[i] == right[i] && r[j] == right[j]);
        }
        lemma_ordered_texts(l, r);
        assert(left =~= l.push(a));
        assert(right =~= r.push(b));
    }
}

/// Artifacts in the order of their paths are determined by what they are.
pub proof fn lemma_ordered_artifacts(left: Seq<MemoryArtifactView>, right: Seq<MemoryArtifactView>)
    requires
        in_path_order(left),
        in_path_order(right),
        forall|artifact: MemoryArtifactView| #[trigger] left.contains(artifact) <==> right.contains(artifact),
    ensures
        left == right,
    decreases left.len(),
{
    if left.len() == 0 {
        if right.len() > 0 {
            assert(right.contains(right[0]));
            assert(left.contains(right[0]));
        }
        assert(left =~= right);
    } else {
        let a = left.last();
        assert(left[left.len() - 1] == a);
        assert(left.contains(a));
        assert(right.contains(a));
        let at = choose|at: int| 0 <= at < right.len() && right[at] == a;
        let b = right.last();
        assert(right[right.len() - 1] == b);
        assert(right.contains(b));
        assert(left.contains(b));
        let back = choose|back: int| 0 <= back < left.len() && left[back] == b;
        if a != b {
            assert(text_before(right[at].path, right[right.len() - 1].path));
            assert(text_before(left[back].path, left[left.len() - 1].path));
            lemma_text_before_asymmetric(a.path, b.path);
        }
        let l = left.drop_last();
        let r = right.drop_last();
        assert forall|artifact: MemoryArtifactView| #[trigger] l.contains(artifact) <==> r.contains(artifact) by {
            if l.contains(artifact) {
                let i = choose|i: int| 0 <= i < l.len() && l[i] == artifact;
                assert(left[i] == artifact);
                assert(left.contains(artifact));
                lemma_ordered_differ(left[i].path, left[left.len() - 1].path);
                let j = choose|j: int| 0 <= j < right.len() && right[j] == artifact;
                assert(r[j] == artifact);
            }
            if r.contains(artifact) {
                let i = choose|i: int| 0 <= i < r.len() && r[i] == artifact;
                assert(right[i] == artifact);
                assert(right.contains(artifact));
                assert(left.contains(artifact));
                lemma_ordered_differ(right[i].path, right[right.len() - 1].path);
                let j = choose|j: int| 0 <= j < left.len() && left[j] == artifact;
                assert(l[j] == artifact);
            }
        }
        assert forall|i: int, j: int| #![trigger l[i], l[j]] 0 <= i < j < l.len() implies text_before(l[i].path, l[j].path) by {
            assert(l[i] == left[i] && l[j] == left[j]);
        }
        assert forall|i: int, j: int| #![trigger r[i], r[j]] 0 <= i < j < r.len() implies text_before(r[i].path, r[j].path) by {
            assert(r[i] == right[i] && r[j] == right[j]);
        }
        lemma_ordered_artifacts(l, r);
        assert(left =~= l.push(a));
        assert(right =~= r.push(b));
    }
}

proof fn lemma_joined_projects(left: Seq<Seq<char>>, right: Seq<Seq<char>>, path: Seq<char>)
    ensures
        in_projects(path, left + right) <==> in_projects(path, left) || in_projects(path, right),
{
    let given = left + right;
    if in_projects(path, given) {
        let i = choose|i: int| 0 <= i < given.len() && project_prefix(#[trigger] given[i]).is_prefix_of(path);
        if i < left.len() {
            assert(left[i] == given[i]);
        } else {
            assert(right[i - left.len()] == given[i]);
        }
    }
    if in_projects(path, left) {
        let i = choose|i: int| 0 <= i < left.len() && project_prefix(#[trigger] left[i]).is_prefix_of(path);
        assert(given[i] == left[i]);
    }
    if in_projects(path, right) {
        let i = choose|i: int| 0 <= i < right.len() && project_prefix(#[trigger] right[i]).is_prefix_of(path);
        assert(given[left.len() + i] == right[i]);
    }
}

/// Which paths there are after an overlay.
proof fn lemma_overlaid_paths(
    older: ExternalAgentMemoryImportView,
    newer: ExternalAgentMemoryImportView,
    merged: Seq<MemoryArtifactView>,
    path: Seq<char>,
)
    requires
        same_members(overlaid(older.artifacts, newer.project_keys, newer.artifacts), merged),
    ensures
        has_path(merged, path) <==> has_path(newer.artifacts, path) || has_path(older.artifacts, path) && !in_projects(path, newer.project_keys),
{
    if has_path(merged, path) {
        let i = choose|i: int| 0 <= i < merged.len() && #[trigger] merged[i].path == path;
        assert(merged.contains(merged[i]));
        law_overlay_replaces_selected_projects(older.artifacts, newer.project_keys, newer.artifacts, merged[i]);
        if newer.artifacts.contains(merged[i]) {
            let j = choose|j: int| 0 <= j < newer.artifacts.len() && newer.artifacts[j] == merged[i];
            assert(newer.artifacts[j].path == path);
        } else {
            let j = choose|j: int| 0 <= j < older.artifacts.len() && older.artifacts[j] == merged[i];
            assert(older.artifacts[j].path == path);
        }
    }
    if has_path(newer.artifacts, path) {
        let i = choose|i: int| 0 <= i < newer.artifacts.len() && #[trigger] newer.artifacts[i].path == path;
        let artifact = newer.artifacts[i];
        assert(newer.artifacts.contains(artifact));
        law_overlay_replaces_selected_projects(older.artifacts, newer.project_keys, newer.artifacts, artifact);
        assert(merged.contains(artifact));
        let j = choose|j: int| 0 <= j < merged.len() && merged[j] == artifact;
        assert(merged[j].path == path);
    } else if has_path(older.artifacts, path) && !in_projects(path, newer.project_keys) {
        let i = choose|i: int| 0 <= i < older.artifacts.len() && #[trigger] older.artifacts[i].path == path;
        let artifact = older.artifacts[i];
        assert(older.artifacts.contains(artifact));
        law_overlay_replaces_selected_projects(older.artifacts, newer.project_keys, newer.artifacts, artifact);
        assert(merged.contains(artifact));
        let j = choose|j: int| 0 <= j < merged.len() && merged[j] == artifact;
        assert(merged[j].path == path);
    }
}

/// Overlaying is associative: of three imports, laying the third over the first two succeeds
/// exactly where laying the last two over the first does, and then the outcome is the same.
pub proof fn law_overlay_is_associative(
    a: ExternalAgentMemoryImportView,
    b: ExternalAgentMemoryImportView,
    c: ExternalAgentMemoryImportView,
    first_two: Result<ExternalAgentMemoryImport, ExternalAgentImportError>,
    last_two: Result<ExternalAgentMemoryImport, ExternalAgentImportError>,
    left: Result<ExternalAgentMemoryImport, ExternalAgentImportError>,
    right: Result<ExternalAgentMemoryImport, ExternalAgentImportError>,
)
    requires
        a.valid(),
        b.valid(),
        c.valid(),
        overlay_result(a, b, first_two),
        overlay_result(b, c, last_two),
        match first_two {
            Ok(import) => overlay_result(import@, c, left),
            Err(_) => left is Err,
        },
        match last_two {
            Ok(import) => overlay_result(a, import@, right),
            Err(_) => right is Err,
        },
    ensures
        left is Ok <==> right is Ok,
        left is Ok ==> left->Ok_0@ == right->Ok_0@,
{
    let all = a.project_keys + b.project_keys + c.project_keys;
    law_overlay_succeeds(a, b, first_two);
    law_overlay_succeeds(b, c, last_two);
    if fold_apart(all) {
        assert forall|text: Seq<char>| #[trigger] (a.project_keys + b.project_keys).contains(text) implies all.contains(text) by {
            lemma_concat_members(a.project_keys + b.project_keys, c.project_keys, text);
        }
        assert forall|text: Seq<char>| #[trigger] (b.project_keys + c.project_keys).contains(text) implies all.contains(text) by {
            lemma_concat_members(a.project_keys + b.project_keys, c.project_keys, text);
            lemma_concat_members(a.project_keys, b.project_keys, text);
            lemma_concat_members(b.project_keys, c.project_keys, text);
        }
        lemma_apart_part(all, a.project_keys + b.project_keys);
        lemma_apart_part(all, b.project_keys + c.project_keys);
    }
    if let Ok(import) = first_two {
        law_overlay_succeeds(import@, c, left);
        assert forall|text: Seq<char>| #[trigger] all.contains(text) <==> (import@.project_keys + c.project_keys).contains(text) by {
            lemma_concat_members(a.project_keys + b.project_keys, c.project_keys, text);
            lemma_concat_members(import@.project_keys, c.project_keys, text);
            assert((a.project_keys + b.project_keys).contains(text) <==> import@.project_keys.contains(text));
        }
        if fold_apart(all) {
            lemma_same_texts_apart(all, import@.project_keys + c.project_keys);
        }
        if left is Ok {
            lemma_same_texts_apart(import@.project_keys + c.project_keys, all);
        }
    }
    if let Ok(import) = last_two {
        law_overlay_succeeds(a, import@, right);
        assert forall|text: Seq<char>| #[trigger] all.contains(text) <==> (a.project_keys + import@.project_keys).contains(text) by {
            lemma_concat_members(a.project_keys + b.project_keys, c.project_keys, text);
            lemma_concat_members(a.project_keys, b.project_keys, text);
            lemma_concat_members(b.project_keys, c.project_keys, text);
            lemma_concat_members(a.project_keys, import@.project_keys, text);
            assert((b.project_keys + c.project_keys).contains(text) <==> import@.project_keys.contains(text));
        }
        if fold_apart(all) {
            lemma_same_texts_apart(all, a.project_keys + import@.project_keys);
        }
        if right is Ok {
            lemma_same_texts_apart(a.project_keys + import@.project_keys, all);
        }
    }
    assert(left is Ok <==> fold_apart(all));
    assert(right is Ok <==> fold_apart(all));
    if left is Ok {
        let ab = first_two->Ok_0@;
        let bc = last_two->Ok_0@;
        let l = left->Ok_0@;
        let r = right->Ok_0@;
        assert forall|text: Seq<char>| #[trigger] l.project_keys.contains(text) <==> r.project_keys.contains(text) by {
            assert((ab.project_keys + c.project_keys).contains(text) <==> l.project_keys.contains(text));
            assert((a.project_keys + bc.project_keys).contains(text) <==> r.project_keys.contains(text));
            assert(all.contains(text) <==> (ab.project_keys + c.project_keys).contains(text));
            assert(all.contains(text) <==> (a.project_keys + bc.project_keys).contains(text));
        }
        lemma_ordered_texts(l.project_keys, r.project_keys);
        assert forall|artifact: MemoryArtifactView| #[trigger] l.artifacts.contains(artifact) <==> r.artifacts.contains(artifact) by {
            let path = artifact.path;
            law_overlay_replaces_selected_projects(a.artifacts, b.project_keys, b.artifacts, artifact);
            law_overlay_replaces_selected_projects(ab.artifacts, c.project_keys, c.artifacts, artifact);
            law_overlay_replaces_selected_projects(b.artifacts, c.project_keys, c.artifacts, artifact);
            law_overlay_replaces_selected_projects(a.artifacts, bc.project_keys, bc.artifacts, artifact);
            lemma_overlaid_paths(b, c, bc.artifacts, path);
            lemma_joined_projects(b.project_keys, c.project_keys, path);
            lemma_same_keys(b.project_keys + c.project_keys, bc.project_keys);
            assert(in_projects(path, b.project_keys + c.project_keys) == in_projects(path, bc.project_keys));
            assert(ab.artifacts.contains(artifact) <==> overlaid(a.artifacts, b.project_keys, b.artifacts).contains(artifact));
            assert(bc.artifacts.contains(artifact) <==> overlaid(b.artifacts, c.project_keys, c.artifacts).contains(artifact));
            assert(l.artifacts.contains(artifact) <==> overlaid(ab.artifacts, c.project_keys, c.artifacts).contains(artifact));
            assert(r.artifacts.contains(artifact) <==> overlaid(a.artifacts, bc.project_keys, bc.artifacts).contains(artifact));
        }
        lemma_ordered_artifacts(l.artifacts, r.artifacts);
    }
}

/// Keys that stay apart together with others do so without them.
proof fn lemma_apart_part(all: Seq<Seq<char>>, part: Seq<Seq<char>>)
    requires
        fold_apart(all),
        forall|text: Seq<char>| #[trigger] part.contains(text) ==> all.contains(text),
    ensures
        fold_apart(part),
{
    assert forall|k: Seq<char>, l: Seq<char>|
        #![trigger part.contains(k), part.contains(l)]
        part.contains(k) && part.contains(l) && case_folded(k) == case_folded(l) implies k == l by {
        assert(all.contains(k) && all.contains(l));
    }
}

/// An import laid over itself is that import.
pub proof fn law_overlay_is_idempotent(
    import: ExternalAgentMemoryImportView,
    result: Result<ExternalAgentMemoryImport, ExternalAgentImportError>,
)
    requires
        import.valid(),
        overlay_result(import, import, result),
    ensures
        result is Ok,
        result->Ok_0@ == import,
{
    let keys = import.project_keys;
    let given = keys + keys;
    law_overlay_succeeds(import, import, result);
    lemma_scopes_apart(keys);
    assert forall|text: Seq<char>| #[trigger] given.contains(text) <==> keys.contains(text) by {
        lemma_concat_members(keys, keys, text);
    }
    lemma_same_texts_apart(keys, given);
    let laid = result->Ok_0@;
    assert forall|text: Seq<char>| #[trigger] laid.project_keys.contains(text) <==> keys.contains(text) by {
        assert(given.contains(text) <==> laid.project_keys.contains(text));
    }
    lemma_ordered_texts(laid.project_keys, keys);
    assert forall|artifact: MemoryArtifactView| #[trigger] laid.artifacts.contains(artifact) <==> import.artifacts.contains(artifact) by {
        law_overlay_replaces_selected_projects(import.artifacts, keys, import.artifacts, artifact);
        assert(laid.artifacts.contains(artifact) <==> overlaid(import.artifacts, keys, import.artifacts).contains(artifact));
    }
    lemma_ordered_artifacts(laid.artifacts, import.artifacts);
}

} // verus!
