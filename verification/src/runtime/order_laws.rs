//! Laws of the pages of threads, told in the fields of the threads on them.

use super::listing::has_relation;
use super::listing::is_id_listing;
use super::listing::is_page_of;
use super::listing::is_related_list;
use super::listing::is_threads_page;
use super::listing::scan_limit;
use super::listing::shown_rows;
use super::listing::ThreadsPage;
use super::listing_laws::law_conditions_mean_the_filter;
use super::listing_laws::lemma_all_hold_concat;
use super::metadata::ThreadStoreError;
use super::query::all_hold;
use super::query::clause_holds;
use super::query::filter_clauses;
use super::query::has_tiebreaker;
use super::query::includes_empty_previews;
use super::query::passes;
use super::query::text_or_empty;
use super::query::Anchor;
use super::query::BySortKey;
use super::query::ListedThreads;
use super::query::SortDirection;
use super::query::SortKey;
use super::query::ThreadClause;
use super::query::ThreadFilterOptions;
use super::query::ThreadRelationFilter;
use super::spawn_laws::lemma_below_are_descendants;
use super::spawn_laws::lists_all_below;
use super::StateRuntime;
use crate::table::is_listing;
use crate::table::row_selected;
use crate::table::Ranking;
use crate::text::has_part;
use crate::text::occurs_at;
use crate::thread_id::ThreadId;
use crate::threads::ThreadMetadata;
use crate::threads::ThreadRow;
use vstd::prelude::*;

verus! {

/// A listing of all threads, of the children of one, or of those with a relation to one gives the page.
pub open spec fn gives_page(
    runtime: &StateRuntime,
    page_size: usize,
    options: ThreadFilterOptions,
    relation: Option<ThreadRelationFilter>,
    page: ThreadsPage,
) -> bool {
    ||| relation is None && call_ensures(StateRuntime::list_threads, (runtime, page_size, options), Ok::<ThreadsPage, ThreadStoreError>(page))
    ||| relation is Some && call_ensures(
        StateRuntime::list_threads_by_relation,
        (runtime, page_size, relation->0, options),
        Ok::<ThreadsPage, ThreadStoreError>(page),
    )
    ||| relation is Some && relation->0 is DirectChildrenOf && call_ensures(
        StateRuntime::list_threads_by_parent,
        (runtime, page_size, relation->0->DirectChildrenOf_0, options),
        Ok::<ThreadsPage, ThreadStoreError>(page),
    )
}

/// The values stand in the given direction; equal ones do too.
pub open spec fn in_direction(direction: SortDirection, first: i64, second: i64) -> bool {
    match direction {
        SortDirection::Asc => first <= second,
        SortDirection::Desc => first >= second,
    }
}

/// `first` may stand before `second` in a listing by that key.
pub open spec fn may_precede(first: ThreadMetadata, second: ThreadMetadata, key: SortKey, direction: SortDirection) -> bool {
    match key {
        SortKey::CreatedAt => in_direction(direction, first.created_at, second.created_at),
        SortKey::UpdatedAt => in_direction(direction, first.updated_at, second.updated_at),
        SortKey::RecencyAt => in_direction(direction, first.recency_at, second.recency_at),
        SortKey::SectionPosition => match (first.section_position, second.section_position) {
            (Some(a), Some(b)) => in_direction(direction, a, b),
            (None, Some(_)) => direction == SortDirection::Asc,
            (Some(_), None) => direction == SortDirection::Desc,
            (None, None) => true,
        },
    }
}

proof fn lemma_page<'a>(
    runtime: &'a StateRuntime,
    page_size: usize,
    options: ThreadFilterOptions<'a>,
    relation: Option<ThreadRelationFilter>,
    page: ThreadsPage,
) -> (found: (&'a Vec<ThreadClause<'a>>, Option<&'a Vec<ThreadId>>, Seq<ThreadRow>))
    requires
        gives_page(runtime, page_size, options, relation, page),
    ensures
        found.0@ == filter_clauses(options, has_tiebreaker(options, relation), includes_empty_previews(options, relation)),
        is_related_list(runtime@.spawn_edges, relation, found.1),
        is_listing::<ThreadRow, ListedThreads, BySortKey>(
            runtime@.threads,
            ListedThreads { clauses: found.0, related: found.1 },
            BySortKey { key: options.sort_key, direction: options.sort_direction, tiebreaker: has_tiebreaker(options, relation) },
            scan_limit(page_size),
            found.2,
        ),
        is_page_of(runtime@.spawn_edges, options, relation, page_size, found.2, page),
        page.items@.len() <= found.2.len(),
        forall|i: int| 0 <= i < page.items@.len() ==> #[trigger] page.items@[i] == found.2[i].metadata,
{
    assert(is_threads_page(runtime@, options, relation, page_size, page));
    let found = choose|clauses: &Vec<ThreadClause>, related: Option<&Vec<ThreadId>>, fetched: Seq<ThreadRow>| {
        &&& clauses@ == filter_clauses(options, has_tiebreaker(options, relation), includes_empty_previews(options, relation))
        &&& is_related_list(runtime@.spawn_edges, relation, related)
        &&& #[trigger] is_listing::<ThreadRow, ListedThreads, BySortKey>(
            runtime@.threads,
            ListedThreads { clauses, related },
            BySortKey { key: options.sort_key, direction: options.sort_direction, tiebreaker: has_tiebreaker(options, relation) },
            scan_limit(page_size),
            fetched,
        )
        &&& is_page_of(runtime@.spawn_edges, options, relation, page_size, fetched, page)
    };
    let shown = shown_rows(found.2, page_size);
    assert forall|i: int| 0 <= i < page.items@.len() implies #[trigger] page.items@[i] == found.2[i].metadata by {
        assert(shown[i] == found.2[i]);
    }
    found
}

/// The threads of a page stand in the order of the field that they are listed by. Where a relation, a
/// repository, recency or the place in a section is asked for, threads that are equal in it stand in the
/// order of their identifiers.
pub proof fn law_page_is_in_order(
    runtime: &StateRuntime,
    page_size: usize,
    options: ThreadFilterOptions,
    relation: Option<ThreadRelationFilter>,
    page: ThreadsPage,
    i: int,
    j: int,
)
    requires
        gives_page(runtime, page_size, options, relation, page),
        0 <= i < j < page.items@.len(),
    ensures
        options.sort_key == SortKey::CreatedAt && options.sort_direction == SortDirection::Desc ==> page.items@[i].created_at >= page.items@[j].created_at,
        options.sort_key == SortKey::CreatedAt && options.sort_direction == SortDirection::Asc ==> page.items@[i].created_at <= page.items@[j].created_at,
        options.sort_key == SortKey::UpdatedAt && options.sort_direction == SortDirection::Desc ==> page.items@[i].updated_at >= page.items@[j].updated_at,
        options.sort_key == SortKey::UpdatedAt && options.sort_direction == SortDirection::Asc ==> page.items@[i].updated_at <= page.items@[j].updated_at,
        options.sort_key == SortKey::RecencyAt && options.sort_direction == SortDirection::Desc ==> page.items@[i].recency_at >= page.items@[j].recency_at,
        options.sort_key == SortKey::RecencyAt && options.sort_direction == SortDirection::Asc ==> page.items@[i].recency_at <= page.items@[j].recency_at,
        options.sort_key == SortKey::SectionPosition ==> may_precede(page.items@[i], page.items@[j], SortKey::SectionPosition, options.sort_direction),
        page.items@[i].id != page.items@[j].id,
        (relation is Some || options.repository_identity is Some || options.sort_key == SortKey::RecencyAt || options.sort_key == SortKey::SectionPosition) && may_precede(
            page.items@[j],
            page.items@[i],
            options.sort_key,
            options.sort_direction,
        ) ==> match options.sort_direction {
            SortDirection::Asc => page.items@[i].id.value < page.items@[j].id.value,
            SortDirection::Desc => page.items@[i].id.value > page.items@[j].id.value,
        },
{
    let (clauses, related, fetched) = lemma_page(runtime, page_size, options, relation, page);
    let ranking = BySortKey { key: options.sort_key, direction: options.sort_direction, tiebreaker: has_tiebreaker(options, relation) };
    assert(page.items@[i] == fetched[i].metadata && page.items@[j] == fetched[j].metadata);
    assert(!Ranking::<ThreadRow>::before(&ranking, fetched[j], fetched[i]));
    assert(<ThreadRow as crate::table::Row>::key_of(fetched[i]) != <ThreadRow as crate::table::Row>::key_of(fetched[j]));
}

/// A page that is followed by another is full, and its anchor is the field that it is listed by of its
/// last thread. The anchor names that thread where equal threads stand in the order of their identifiers.
/// No page holds more than was asked for.
pub proof fn law_next_anchor_is_the_last_thread(
    runtime: &StateRuntime,
    page_size: usize,
    options: ThreadFilterOptions,
    relation: Option<ThreadRelationFilter>,
    page: ThreadsPage,
)
    requires
        gives_page(runtime, page_size, options, relation, page),
    ensures
        page.items@.len() <= page_size,
        page.next_anchor is Some ==> {
            let last = page.items@[page.items@.len() - 1];
            &&& page.items@.len() == page_size
            &&& page.items@.len() > 0
            &&& options.sort_key == SortKey::CreatedAt ==> page.next_anchor->0.ts == last.created_at
            &&& options.sort_key == SortKey::UpdatedAt ==> page.next_anchor->0.ts == last.updated_at
            &&& options.sort_key == SortKey::RecencyAt ==> page.next_anchor->0.ts == last.recency_at
            &&& options.sort_key == SortKey::SectionPosition ==> Some(page.next_anchor->0.ts) == last.section_position
            &&& page.next_anchor->0.id == if relation is Some || options.repository_identity is Some || options.sort_key == SortKey::RecencyAt || options.sort_key
                == SortKey::SectionPosition {
                Some(last.id)
            } else {
                None
            }
        },
        page.next_anchor is None && page_size > 0 && options.sort_key != SortKey::SectionPosition ==> page.num_scanned_rows == page.items@.len(),
        page.next_anchor is Some && page_size < usize::MAX ==> page.num_scanned_rows == page.items@.len() + 1,
{
    let (clauses, related, fetched) = lemma_page(runtime, page_size, options, relation, page);
    let shown = shown_rows(fetched, page_size);
    assert(page.items@.len() == shown.len());
    if page.next_anchor is Some {
        assert(page.items@[page.items@.len() - 1] == fetched[page.items@.len() - 1].metadata);
    }
}

/// Every thread on a page is a stored one, told as it is stored, that is archived or not as asked for,
/// comes from an allowed source and provider, lies in a wanted directory or repository and in the wanted
/// section, and holds the searched text in its name, title or preview. It has a preview unless a relation
/// or a section was asked for.
pub proof fn law_page_holds_wanted_threads(
    runtime: &StateRuntime,
    page_size: usize,
    options: ThreadFilterOptions,
    relation: Option<ThreadRelationFilter>,
    page: ThreadsPage,
    i: int,
)
    requires
        gives_page(runtime, page_size, options, relation, page),
        0 <= i < page.items@.len(),
    ensures
        ({
            let item = page.items@[i];
            &&& runtime@.threads.contains_key(item.id)
            &&& runtime@.threads[item.id].metadata == item
            &&& options.archived_only <==> item.archived_at is Some
            &&& relation is None && (options.section is None || options.section->0 is None) ==> item.preview is Some && item.preview->0@.len() > 0
            &&& options.section is Some && options.section->0 is None ==> item.section is None
            &&& options.section is Some && options.section->0 is Some ==> item.section is Some && item.section->0.id@ == options.section->0->0@
            &&& options.allowed_sources@.len() > 0 ==> exists|k: int| 0 <= k < options.allowed_sources@.len() && #[trigger] options.allowed_sources@[k]@ == item.source@
            &&& options.model_providers is Some && options.model_providers->0@.len() > 0 ==> exists|k: int|
                0 <= k < options.model_providers->0@.len() && #[trigger] options.model_providers->0@[k]@ == item.model_provider@
            &&& options.cwd_filters is Some && options.repository_identity is None ==> exists|k: int|
                0 <= k < options.cwd_filters->0@.len() && #[trigger] options.cwd_filters->0@[k]@ == item.cwd@
            &&& options.cwd_filters is None && options.repository_identity is Some ==> item.repository_identity is Some && item.repository_identity->0@
                == options.repository_identity->0@
            &&& options.cwd_filters is Some && options.repository_identity is Some ==> item.repository_identity is Some && item.repository_identity->0@
                == options.repository_identity->0@ || exists|k: int| 0 <= k < options.cwd_filters->0@.len() && #[trigger] options.cwd_filters->0@[k]@ == item.cwd@
            &&& options.search_term is Some && options.search_term->0@.len() > 0 ==> exists|at: int| {
                ||| item.name is Some && #[trigger] is_found_at(item.name->0@, options.search_term->0@, at)
                ||| is_found_at(item.title@, options.search_term->0@, at)
                ||| item.preview is Some && is_found_at(item.preview->0@, options.search_term->0@, at)
            }
        }),
{
    let (clauses, related, fetched) = lemma_page(runtime, page_size, options, relation, page);
    let row = fetched[i];
    assert(page.items@[i] == row.metadata);
    assert(row_selected::<ThreadRow, ListedThreads>(runtime@.threads, ListedThreads { clauses, related }, fetched[i]));
    law_conditions_mean_the_filter(options, has_tiebreaker(options, relation), includes_empty_previews(options, relation), row);
    if options.search_term is Some && options.search_term->0@.len() > 0 {
        lemma_found(row, options.search_term->0@);
    }
}

/// `part` stands in `text` from position `at` on.
pub open spec fn is_found_at(text: Seq<char>, part: Seq<char>, at: int) -> bool {
    &&& 0 <= at
    &&& at + part.len() <= text.len()
    &&& forall|p: int| 0 <= p < part.len() ==> text[at + p] == #[trigger] part[p]
}

proof fn lemma_found_at(text: Seq<char>, part: Seq<char>, at: int)
    ensures
        is_found_at(text, part, at) <==> occurs_at(text, part, at),
{
    if is_found_at(text, part, at) {
        assert(text.subrange(at, at + part.len()) =~= part);
    }
    if occurs_at(text, part, at) {
        assert forall|p: int| 0 <= p < part.len() implies text[at + p] == #[trigger] part[p] by {
            assert(text.subrange(at, at + part.len())[p] == text[at + p]);
        }
    }
}

proof fn lemma_found(row: ThreadRow, term: Seq<char>) -> (at: int)
    requires
        super::query::is_found_by(row, term),
        term.len() > 0,
    ensures
        ({
            ||| row.metadata.name is Some && is_found_at(row.metadata.name->0@, term, at)
            ||| is_found_at(row.metadata.title@, term, at)
            ||| row.metadata.preview is Some && is_found_at(row.metadata.preview->0@, term, at)
        }),
{
    let text = if has_part(text_or_empty(row.metadata.name), term) {
        text_or_empty(row.metadata.name)
    } else if has_part(row.metadata.title@, term) {
        row.metadata.title@
    } else {
        text_or_empty(row.metadata.preview)
    };
    let at = choose|at: int| occurs_at(text, term, at);
    lemma_found_at(text, term, at);
    at
}

/// In the direction of the listing the value lies behind `ts` or, if it is that, the thread behind `id`.
pub open spec fn is_value_behind(direction: SortDirection, value: i64, thread: ThreadId, ts: i64, id: Option<ThreadId>) -> bool {
    match direction {
        SortDirection::Asc => value > ts || value == ts && id is Some && thread.value > id->0.value,
        SortDirection::Desc => value < ts || value == ts && id is Some && thread.value < id->0.value,
    }
}

/// The thread lies behind the anchor in the field that is listed by.
pub open spec fn lies_behind_anchor(item: ThreadMetadata, key: SortKey, direction: SortDirection, ts: i64, id: Option<ThreadId>) -> bool {
    match key {
        SortKey::CreatedAt => is_value_behind(direction, item.created_at, item.id, ts, id),
        SortKey::UpdatedAt => is_value_behind(direction, item.updated_at, item.id, ts, id),
        SortKey::RecencyAt => is_value_behind(direction, item.recency_at, item.id, ts, id),
        SortKey::SectionPosition => item.section_position is Some && is_value_behind(direction, item.section_position->0, item.id, ts, id),
    }
}

/// The thread that the anchor names, where threads that are equal in the field listed by are told apart by
/// their identifiers: where a relation, a repository, recency or the place in a section is asked for.
pub open spec fn thread_of_anchor(options: ThreadFilterOptions, relation: Option<ThreadRelationFilter>) -> Option<ThreadId> {
    if relation is Some || options.repository_identity is Some || options.sort_key == SortKey::RecencyAt || options.sort_key == SortKey::SectionPosition {
        options.anchor->0.id
    } else {
        None
    }
}

/// Every thread on a page that starts at an anchor lies behind it, in the field that is listed by. One
/// that is equal in it is there only where the anchor names a thread that counts, and its identifier lies
/// behind that.
pub proof fn law_page_lies_behind_its_anchor(
    runtime: &StateRuntime,
    page_size: usize,
    options: ThreadFilterOptions,
    relation: Option<ThreadRelationFilter>,
    page: ThreadsPage,
    i: int,
)
    requires
        gives_page(runtime, page_size, options, relation, page),
        0 <= i < page.items@.len(),
        options.anchor is Some,
    ensures
        lies_behind_anchor(page.items@[i], options.sort_key, options.sort_direction, options.anchor->0.ts, thread_of_anchor(options, relation)),
{
    let (clauses, related, fetched) = lemma_page(runtime, page_size, options, relation, page);
    let row = fetched[i];
    assert(page.items@[i] == row.metadata);
    assert(row_selected::<ThreadRow, ListedThreads>(runtime@.threads, ListedThreads { clauses, related }, fetched[i]));
    law_conditions_mean_the_filter(options, has_tiebreaker(options, relation), includes_empty_previews(options, relation), row);
}

/// A listing by relation holds threads with that relation only, and names for each the thread that
/// spawned it. Without a relation it names none.
pub proof fn law_page_names_parents(
    runtime: &StateRuntime,
    page_size: usize,
    options: ThreadFilterOptions,
    relation: Option<ThreadRelationFilter>,
    page: ThreadsPage,
)
    requires
        gives_page(runtime, page_size, options, relation, page),
        runtime@.keyed(),
    ensures
        relation is None ==> page.parent_thread_ids@.len() == 0,
        relation is Some ==> page.parent_thread_ids@.len() == page.items@.len(),
        relation is Some ==> forall|i: int|
            #![trigger page.items@[i]]
            0 <= i < page.items@.len() ==> {
                &&& runtime@.spawn_edges.contains_key(page.items@[i].id)
                &&& page.parent_thread_ids@[i].thread_id == page.items@[i].id
                &&& page.parent_thread_ids@[i].parent_thread_id == runtime@.spawn_edges[page.items@[i].id].parent_thread_id
                &&& relation->0 is DirectChildrenOf ==> page.parent_thread_ids@[i].parent_thread_id == relation->0->DirectChildrenOf_0
                &&& relation->0 is DescendantsOf ==> has_relation(runtime@.spawn_edges, relation->0, page.items@[i].id)
            },
{
    let (clauses, related, fetched) = lemma_page(runtime, page_size, options, relation, page);
    let shown = shown_rows(fetched, page_size);
    assert(page.items@.len() == shown.len());
    if relation is Some {
        assert forall|i: int| #![trigger page.items@[i]] 0 <= i < page.items@.len() implies {
            &&& runtime@.spawn_edges.contains_key(page.items@[i].id)
            &&& page.parent_thread_ids@[i].thread_id == page.items@[i].id
            &&& page.parent_thread_ids@[i].parent_thread_id == runtime@.spawn_edges[page.items@[i].id].parent_thread_id
            &&& relation->0 is DirectChildrenOf ==> page.parent_thread_ids@[i].parent_thread_id == relation->0->DirectChildrenOf_0
            &&& relation->0 is DescendantsOf ==> has_relation(runtime@.spawn_edges, relation->0, page.items@[i].id)
        } by {
            assert(shown[i] == fetched[i]);
            assert(row_selected::<ThreadRow, ListedThreads>(runtime@.threads, ListedThreads { clauses, related }, fetched[i]));
            assert(related->0@.contains(fetched[i].metadata.id));
        }
    }
}

/// A listing of what is below a thread holds nothing else.
pub proof fn law_page_of_descendants_is_below(
    runtime: &StateRuntime,
    page_size: usize,
    options: ThreadFilterOptions,
    root: ThreadId,
    page: ThreadsPage,
    below: Seq<ThreadId>,
    i: int,
)
    requires
        gives_page(runtime, page_size, options, Some(ThreadRelationFilter::DescendantsOf(root)), page),
        lists_all_below(runtime@.spawn_edges, root, below),
        runtime@.keyed(),
        0 <= i < page.items@.len(),
    ensures
        below.contains(page.items@[i].id),
{
    law_page_names_parents(runtime, page_size, options, Some(ThreadRelationFilter::DescendantsOf(root)), page);
    lemma_below_are_descendants(runtime@.spawn_edges, root, below, page.items@[i].id);
}

/// A thread that nothing in the options stands against is on the page, unless the page is full and
/// every thread on it may precede that one. Another page follows then.
pub proof fn law_wanted_thread_is_on_the_page(
    runtime: &StateRuntime,
    page_size: usize,
    options: ThreadFilterOptions,
    relation: Option<ThreadRelationFilter>,
    page: ThreadsPage,
    id: ThreadId,
    at: int,
    below: Seq<ThreadId>,
)
    requires
        gives_page(runtime, page_size, options, relation, page),
        runtime@.keyed(),
        runtime@.threads.contains_key(id),
        options.anchor is Some ==> lies_behind_anchor(
            runtime@.threads[id].metadata,
            options.sort_key,
            options.sort_direction,
            options.anchor->0.ts,
            thread_of_anchor(options, relation),
        ),
        relation is Some && relation->0 is DirectChildrenOf ==> runtime@.spawn_edges.contains_key(id) && runtime@.spawn_edges[id].parent_thread_id
            == relation->0->DirectChildrenOf_0,
        relation is Some && relation->0 is DescendantsOf ==> lists_all_below(runtime@.spawn_edges, relation->0->DescendantsOf_0, below) && below.contains(id),
        ({
            let item = runtime@.threads[id].metadata;
            &&& options.archived_only <==> item.archived_at is Some
            &&& item.preview is Some && item.preview->0@.len() > 0 || relation is Some || options.section is Some && options.section->0 is Some
            &&& options.section is Some && options.section->0 is None ==> item.section is None
            &&& options.section is Some && options.section->0 is Some ==> item.section is Some && item.section->0.id@ == options.section->0->0@
            &&& options.allowed_sources@.len() == 0 || exists|k: int|
                0 <= k < options.allowed_sources@.len() && #[trigger] options.allowed_sources@[k]@ == item.source@
            &&& options.model_providers is None || options.model_providers->0@.len() == 0 || exists|k: int|
                0 <= k < options.model_providers->0@.len() && #[trigger] options.model_providers->0@[k]@ == item.model_provider@
            &&& {
                ||| options.cwd_filters is None && options.repository_identity is None
                ||| options.cwd_filters is Some && exists|k: int|
                    0 <= k < options.cwd_filters->0@.len() && #[trigger] options.cwd_filters->0@[k]@ == item.cwd@
                ||| options.repository_identity is Some && item.repository_identity is Some && item.repository_identity->0@ == options.repository_identity->0@
            }
            &&& options.search_term is Some ==> {
                ||| item.name is Some && is_found_at(item.name->0@, options.search_term->0@, at)
                ||| is_found_at(item.title@, options.search_term->0@, at)
                ||| item.preview is Some && is_found_at(item.preview->0@, options.search_term->0@, at)
            }
        }),
    ensures
        ({
            ||| exists|i: int| 0 <= i < page.items@.len() && (#[trigger] page.items@[i]).id == id
            ||| page.items@.len() == page_size && forall|i: int|
                #![trigger page.items@[i]]
                0 <= i < page.items@.len() ==> may_precede(page.items@[i], runtime@.threads[id].metadata, options.sort_key, options.sort_direction)
        }),
        (exists|i: int| 0 <= i < page.items@.len() && (#[trigger] page.items@[i]).id == id) || page.next_anchor is Some || page_size == 0 || page_size == usize::MAX
            || options.sort_key == SortKey::SectionPosition,
{
    let (clauses, related, fetched) = lemma_page(runtime, page_size, options, relation, page);
    let tiebreaker = has_tiebreaker(options, relation);
    let ranking = BySortKey { key: options.sort_key, direction: options.sort_direction, tiebreaker };
    let condition = ListedThreads { clauses, related };
    let row = runtime@.threads[id];
    let shown = shown_rows(fetched, page_size);
    assert(page.items@.len() == shown.len());
    if options.search_term is Some {
        lemma_found_at(text_or_empty(row.metadata.name), options.search_term->0@, at);
        lemma_found_at(row.metadata.title@, options.search_term->0@, at);
        lemma_found_at(text_or_empty(row.metadata.preview), options.search_term->0@, at);
    }
    law_conditions_mean_the_filter(options, tiebreaker, includes_empty_previews(options, relation), row);
    assert(passes(options, tiebreaker, includes_empty_previews(options, relation), row));
    if relation is Some {
        if relation->0 is DescendantsOf {
            lemma_below_are_descendants(runtime@.spawn_edges, relation->0->DescendantsOf_0, below, id);
        }
        assert(has_relation(runtime@.spawn_edges, relation->0, id));
        assert(related->0@.contains(id));
    }
    assert(row_selected::<ThreadRow, ListedThreads>(runtime@.threads, condition, row));
    if fetched.contains(row) {
        let k = choose|k: int| 0 <= k < fetched.len() && fetched[k] == row;
        if k < page.items@.len() {
            assert(page.items@[k].id == id);
        } else {
            assert forall|i: int| #![trigger page.items@[i]] 0 <= i < page.items@.len() implies may_precede(
                page.items@[i],
                row.metadata,
                options.sort_key,
                options.sort_direction,
            ) by {
                assert(page.items@[i] == fetched[i].metadata);
                assert(!Ranking::<ThreadRow>::before(&ranking, fetched[k], fetched[i]));
            }
        }
    } else {
        assert forall|i: int| #![trigger page.items@[i]] 0 <= i < page.items@.len() implies may_precede(
            page.items@[i],
            row.metadata,
            options.sort_key,
            options.sort_direction,
        ) by {
            assert(page.items@[i] == fetched[i].metadata);
            assert(!Ranking::<ThreadRow>::before(&ranking, row, fetched[i]));
        }
    }
}

/// Only a database of its own lists threads.
pub proof fn law_local_state_lists_threads(
    runtime: &StateRuntime,
    page_size: usize,
    options: ThreadFilterOptions<'_>,
    result: Result<ThreadsPage, ThreadStoreError>,
)
    requires
        call_ensures(StateRuntime::list_threads, (runtime, page_size, options), result),
    ensures
        result is Ok <==> runtime@.backend is Sqlite,
{
}

/// The thread found by title has that title, and the directory, source, provider and archive state that
/// were asked for; none of those that do was updated later. None is found only where there is none.
pub proof fn law_titled_thread_is_the_latest(
    runtime: &StateRuntime,
    title: &str,
    allowed_sources: &[String],
    model_providers: Option<&[String]>,
    archived_only: bool,
    cwd: Option<&str>,
    found: Option<ThreadMetadata>,
)
    requires
        call_ensures(
            StateRuntime::find_thread_by_exact_title,
            (runtime, title, allowed_sources, model_providers, archived_only, cwd),
            Ok::<Option<ThreadMetadata>, ThreadStoreError>(found),
        ),
        runtime@.keyed(),
    ensures
        found is Some ==> {
            let item = found->0;
            &&& runtime@.threads.contains_key(item.id)
            &&& runtime@.threads[item.id].metadata == item
            &&& is_titled(item, title@, allowed_sources@, model_providers, archived_only, cwd)
        },
        forall|id: ThreadId| #[trigger]
            runtime@.threads.contains_key(id) && is_titled(runtime@.threads[id].metadata, title@, allowed_sources@, model_providers, archived_only, cwd) ==> found is Some
                && found->0.updated_at >= runtime@.threads[id].metadata.updated_at,
{
    let options = ThreadFilterOptions {
        archived_only,
        allowed_sources,
        model_providers,
        cwd_filters: None,
        repository_identity: None,
        section: None,
        anchor: None,
        sort_key: SortKey::UpdatedAt,
        sort_direction: SortDirection::Desc,
        search_term: None,
    };
    let ranking = BySortKey { key: SortKey::UpdatedAt, direction: SortDirection::Desc, tiebreaker: false };
    let extra = match cwd {
        Some(cwd) => seq![ThreadClause::TitleIs(title), ThreadClause::CwdIs(cwd)],
        None => seq![ThreadClause::TitleIs(title)],
    };
    let (clauses, fetched) = choose|clauses: &Vec<ThreadClause>, fetched: Seq<ThreadRow>| {
        &&& clauses@ == filter_clauses(options, false, false) + extra
        &&& #[trigger] is_listing::<ThreadRow, ListedThreads, BySortKey>(
            runtime@.threads,
            ListedThreads { clauses, related: None },
            ranking,
            1,
            fetched,
        )
        &&& found == if fetched.len() > 0 {
            Some(fetched[0].metadata)
        } else {
            None
        }
    };
    let condition = ListedThreads { clauses, related: None };
    if found is Some {
        assert(row_selected::<ThreadRow, ListedThreads>(runtime@.threads, condition, fetched[0]));
        lemma_titled(options, title, cwd, fetched[0]);
    }
    assert forall|id: ThreadId| #[trigger]
        runtime@.threads.contains_key(id) && is_titled(runtime@.threads[id].metadata, title@, allowed_sources@, model_providers, archived_only, cwd) implies found is Some
        && found->0.updated_at >= runtime@.threads[id].metadata.updated_at by {
        let row = runtime@.threads[id];
        lemma_titled(options, title, cwd, row);
        assert(row_selected::<ThreadRow, ListedThreads>(runtime@.threads, condition, row));
        if !fetched.contains(row) {
            assert(!Ranking::<ThreadRow>::before(&ranking, row, fetched[0]));
        }
    }
}

/// The thread has the title, and the directory, source, provider and archive state asked for, and
/// something to show.
pub open spec fn is_titled(
    item: ThreadMetadata,
    title: Seq<char>,
    allowed_sources: Seq<String>,
    model_providers: Option<&[String]>,
    archived_only: bool,
    cwd: Option<&str>,
) -> bool {
    &&& item.title@ == title
    &&& cwd is Some ==> item.cwd@ == cwd->0@
    &&& archived_only <==> item.archived_at is Some
    &&& item.preview is Some && item.preview->0@.len() > 0
    &&& allowed_sources.len() == 0 || exists|k: int| 0 <= k < allowed_sources.len() && #[trigger] allowed_sources[k]@ == item.source@
    &&& model_providers is None || model_providers->0@.len() == 0 || exists|k: int|
        0 <= k < model_providers->0@.len() && #[trigger] model_providers->0@[k]@ == item.model_provider@
}

proof fn lemma_titled(options: ThreadFilterOptions, title: &str, cwd: Option<&str>, row: ThreadRow)
    requires
        options.cwd_filters is None,
        options.repository_identity is None,
        options.section is None,
        options.anchor is None,
        options.search_term is None,
    ensures
        ({
            let extra = match cwd {
                Some(cwd) => seq![ThreadClause::TitleIs(title), ThreadClause::CwdIs(cwd)],
                None => seq![ThreadClause::TitleIs(title)],
            };
            all_hold(filter_clauses(options, false, false) + extra, row) <==> is_titled(
                row.metadata,
                title@,
                options.allowed_sources@,
                options.model_providers,
                options.archived_only,
                cwd,
            )
        }),
{
    let extra = match cwd {
        Some(cwd) => seq![ThreadClause::TitleIs(title), ThreadClause::CwdIs(cwd)],
        None => seq![ThreadClause::TitleIs(title)],
    };
    lemma_all_hold_concat(filter_clauses(options, false, false), extra, row);
    law_conditions_mean_the_filter(options, false, false, row);
    if all_hold(extra, row) {
        assert(clause_holds(extra[0], row));
        if cwd is Some {
            assert(clause_holds(extra[1], row));
        }
    }
}

/// Identifiers are listed latest first in the field asked for, each of a stored thread that is archived
/// or not as asked for, comes from an allowed source and provider and lies behind the anchor; no more are
/// listed than were asked for.
pub proof fn law_listed_identifiers_are_latest_first(
    runtime: &StateRuntime,
    limit: usize,
    anchor: Option<&Anchor>,
    sort_key: SortKey,
    allowed_sources: &[String],
    model_providers: Option<&[String]>,
    archived_only: bool,
    ids: Vec<ThreadId>,
)
    requires
        call_ensures(
            StateRuntime::list_thread_ids,
            (runtime, limit, anchor, sort_key, allowed_sources, model_providers, archived_only),
            Ok::<Vec<ThreadId>, ThreadStoreError>(ids),
        ),
    ensures
        ids@.len() <= limit,
        forall|i: int|
            #![trigger ids@[i]]
            0 <= i < ids@.len() ==> {
                let item = runtime@.threads[ids@[i]].metadata;
                &&& runtime@.threads.contains_key(ids@[i])
                &&& item.id == ids@[i]
                &&& archived_only <==> item.archived_at is Some
                &&& item.preview is Some && item.preview->0@.len() > 0
                &&& allowed_sources@.len() == 0 || exists|k: int| 0 <= k < allowed_sources@.len() && #[trigger] allowed_sources@[k]@ == item.source@
                &&& model_providers is None || model_providers->0@.len() == 0 || exists|k: int|
                    0 <= k < model_providers->0@.len() && #[trigger] model_providers->0@[k]@ == item.model_provider@
                &&& anchor is Some && sort_key == SortKey::CreatedAt ==> item.created_at < anchor->0.ts
                &&& anchor is Some && sort_key == SortKey::UpdatedAt ==> item.updated_at < anchor->0.ts
                &&& anchor is Some && sort_key == SortKey::RecencyAt ==> item.recency_at < anchor->0.ts || item.recency_at == anchor->0.ts && anchor->0.id is Some
                    && item.id.value < anchor->0.id->0.value
                &&& anchor is Some && sort_key == SortKey::SectionPosition ==> lies_behind_anchor(item, sort_key, SortDirection::Desc, anchor->0.ts, anchor->0.id)
            },
        forall|i: int, j: int|
            #![trigger ids@[i], ids@[j]]
            0 <= i < j < ids@.len() ==> {
                let first = runtime@.threads[ids@[i]].metadata;
                let second = runtime@.threads[ids@[j]].metadata;
                &&& ids@[i] != ids@[j]
                &&& sort_key == SortKey::CreatedAt ==> first.created_at >= second.created_at
                &&& sort_key == SortKey::UpdatedAt ==> first.updated_at >= second.updated_at
                &&& sort_key == SortKey::RecencyAt ==> first.recency_at > second.recency_at || first.recency_at == second.recency_at && first.id.value > second.id.value
                &&& sort_key == SortKey::SectionPosition ==> may_precede(first, second, SortKey::SectionPosition, SortDirection::Desc)
            },
{
    let options = ThreadFilterOptions {
        archived_only,
        allowed_sources,
        model_providers,
        cwd_filters: None,
        repository_identity: None,
        section: None,
        anchor,
        sort_key,
        sort_direction: SortDirection::Desc,
        search_term: None,
    };
    let tiebreaker = sort_key == SortKey::RecencyAt || sort_key == SortKey::SectionPosition;
    assert(is_id_listing(runtime@, options, tiebreaker, limit, ids@));
    let ranking = BySortKey { key: sort_key, direction: SortDirection::Desc, tiebreaker };
    let (clauses, fetched) = choose|clauses: &Vec<ThreadClause>, fetched: Seq<ThreadRow>| {
        &&& clauses@ == filter_clauses(options, tiebreaker, false)
        &&& #[trigger] is_listing::<ThreadRow, ListedThreads, BySortKey>(
            runtime@.threads,
            ListedThreads { clauses, related: None },
            ranking,
            limit as nat,
            fetched,
        )
        &&& ids@ == fetched.map_values(|row: ThreadRow| row.metadata.id)
    };
    let condition = ListedThreads { clauses, related: None };
    assert forall|i: int| #![trigger ids@[i]] 0 <= i < ids@.len() implies runtime@.threads.contains_key(ids@[i]) && runtime@.threads[ids@[i]] == fetched[i] && passes(
        options,
        tiebreaker,
        false,
        fetched[i],
    ) by {
        assert(row_selected::<ThreadRow, ListedThreads>(runtime@.threads, condition, fetched[i]));
        law_conditions_mean_the_filter(options, tiebreaker, false, fetched[i]);
    }
    assert forall|i: int, j: int| #![trigger ids@[i], ids@[j]] 0 <= i < j < ids@.len() implies {
        let first = runtime@.threads[ids@[i]].metadata;
        let second = runtime@.threads[ids@[j]].metadata;
        &&& ids@[i] != ids@[j]
        &&& sort_key == SortKey::CreatedAt ==> first.created_at >= second.created_at
        &&& sort_key == SortKey::UpdatedAt ==> first.updated_at >= second.updated_at
        &&& sort_key == SortKey::RecencyAt ==> first.recency_at > second.recency_at || first.recency_at == second.recency_at && first.id.value > second.id.value
        &&& sort_key == SortKey::SectionPosition ==> may_precede(first, second, SortKey::SectionPosition, SortDirection::Desc)
    } by {
        assert(!Ranking::<ThreadRow>::before(&ranking, fetched[j], fetched[i]));
        assert(<ThreadRow as crate::table::Row>::key_of(fetched[i]) != <ThreadRow as crate::table::Row>::key_of(fetched[j]));
        assert(runtime@.threads[ids@[i]] == fetched[i] && runtime@.threads[ids@[j]] == fetched[j]);
    }
}

/// A thread that nothing stands against has its identifier listed, unless as many are listed as were asked for
/// and all of their threads may precede it.
pub proof fn law_wanted_identifier_is_listed(
    runtime: &StateRuntime,
    limit: usize,
    sort_key: SortKey,
    allowed_sources: &[String],
    model_providers: Option<&[String]>,
    archived_only: bool,
    ids: Vec<ThreadId>,
    id: ThreadId,
)
    requires
        call_ensures(
            StateRuntime::list_thread_ids,
            (runtime, limit, None, sort_key, allowed_sources, model_providers, archived_only),
            Ok::<Vec<ThreadId>, ThreadStoreError>(ids),
        ),
        runtime@.keyed(),
        runtime@.threads.contains_key(id),
        ({
            let item = runtime@.threads[id].metadata;
            &&& archived_only <==> item.archived_at is Some
            &&& item.preview is Some && item.preview->0@.len() > 0
            &&& allowed_sources@.len() == 0 || exists|k: int| 0 <= k < allowed_sources@.len() && #[trigger] allowed_sources@[k]@ == item.source@
            &&& model_providers is None || model_providers->0@.len() == 0 || exists|k: int|
                0 <= k < model_providers->0@.len() && #[trigger] model_providers->0@[k]@ == item.model_provider@
        }),
    ensures
        ids@.contains(id) || ids@.len() == limit && forall|i: int|
            #![trigger ids@[i]]
            0 <= i < ids@.len() ==> may_precede(runtime@.threads[ids@[i]].metadata, runtime@.threads[id].metadata, sort_key, SortDirection::Desc),
{
    let options = ThreadFilterOptions {
        archived_only,
        allowed_sources,
        model_providers,
        cwd_filters: None,
        repository_identity: None,
        section: None,
        anchor: None,
        sort_key,
        sort_direction: SortDirection::Desc,
        search_term: None,
    };
    let tiebreaker = sort_key == SortKey::RecencyAt || sort_key == SortKey::SectionPosition;
    assert(is_id_listing(runtime@, options, tiebreaker, limit, ids@));
    let ranking = BySortKey { key: sort_key, direction: SortDirection::Desc, tiebreaker };
    let (clauses, fetched) = choose|clauses: &Vec<ThreadClause>, fetched: Seq<ThreadRow>| {
        &&& clauses@ == filter_clauses(options, tiebreaker, false)
        &&& #[trigger] is_listing::<ThreadRow, ListedThreads, BySortKey>(
            runtime@.threads,
            ListedThreads { clauses, related: None },
            ranking,
            limit as nat,
            fetched,
        )
        &&& ids@ == fetched.map_values(|row: ThreadRow| row.metadata.id)
    };
    let condition = ListedThreads { clauses, related: None };
    let row = runtime@.threads[id];
    law_conditions_mean_the_filter(options, tiebreaker, false, row);
    assert(row_selected::<ThreadRow, ListedThreads>(runtime@.threads, condition, row));
    if fetched.contains(row) {
        let k = choose|k: int| 0 <= k < fetched.len() && fetched[k] == row;
        assert(ids@[k] == id);
    } else {
        assert forall|i: int| #![trigger ids@[i]] 0 <= i < ids@.len() implies may_precede(
            runtime@.threads[ids@[i]].metadata,
            row.metadata,
            sort_key,
            SortDirection::Desc,
        ) by {
            assert(row_selected::<ThreadRow, ListedThreads>(runtime@.threads, condition, fetched[i]));
            assert(!Ranking::<ThreadRow>::before(&ranking, row, fetched[i]));
        }
    }
}

/// The rollout path found for a thread is its own, and is found exactly where the thread is known, has
/// one, and is archived or not as asked for.
pub proof fn law_rollout_path_is_the_threads_own(runtime: &StateRuntime, id: ThreadId, archived_only: Option<bool>, path: Option<String>)
    requires
        call_ensures(StateRuntime::find_rollout_path_by_id, (runtime, id, archived_only), path),
    ensures
        path is Some <==> {
            &&& runtime@.threads.contains_key(id)
            &&& runtime@.threads[id].has_rollout_path
            &&& archived_only is None || (archived_only->0 <==> runtime@.threads[id].metadata.archived_at is Some)
        },
        path is Some ==> path->0@ == runtime@.threads[id].metadata.rollout_path@,
{
}

/// Threads that are equal in the field listed by are told apart by their identifiers where a relation, a
/// repository, recency or the place in a section is asked for.
pub proof fn law_when_identifiers_break_ties(options: ThreadFilterOptions, relation: Option<ThreadRelationFilter>, told_apart: bool)
    requires
        call_ensures(super::query::should_include_thread_id_tiebreaker, (options, relation), told_apart),
    ensures
        told_apart <==> relation is Some || options.repository_identity is Some || options.sort_key == SortKey::RecencyAt || options.sort_key == SortKey::SectionPosition,
{
}

} // verus!
