//! Looking threads up, and listing them page by page.

use super::metadata::thread_at;
use super::metadata::ThreadStoreError;
use super::query::filter_clauses;
use super::query::has_tiebreaker;
use super::query::includes_empty_previews;
use super::query::key_of_row;
use super::query::key_value;
use super::query::listing_clauses;
use super::query::push_thread_filters;
use super::query::should_include_thread_id_tiebreaker;
use super::query::Anchor;
use super::query::BySortKey;
use super::query::ListedThreads;
use super::query::SortDirection;
use super::query::SortKey;
use super::query::ThreadClause;
use super::query::ThreadFilterOptions;
use super::query::ThreadRelationFilter;
use super::relations::is_descendant;
use super::StateRuntime;
use super::StateRuntimeView;
use crate::table::is_listing;
use crate::table::row_selected;
use crate::table::views;
use crate::thread_id::ThreadId;
use crate::threads::ThreadMetadata;
use crate::threads::ThreadRow;
use crate::threads::ThreadSpawnEdge;
use vstd::prelude::*;

verus! {

/// The thread that another one was spawned by.
#[derive(Clone, Copy, Debug, PartialEq, Eq, Structural)]
pub struct SpawnedBy {
    pub thread_id: ThreadId,
    pub parent_thread_id: ThreadId,
}

/// One page of threads.
#[derive(Debug, PartialEq, Eq)]
pub struct ThreadsPage {
    pub items: Vec<ThreadMetadata>,
    /// For threads listed by relation, the thread that each was spawned by.
    pub parent_thread_ids: Vec<SpawnedBy>,
    /// Where the next page goes on, if there is one.
    pub next_anchor: Option<Anchor>,
    pub num_scanned_rows: usize,
}

/// The thread has the relation, by the given edges.
pub open spec fn has_relation(edges: Map<ThreadId, ThreadSpawnEdge>, relation: ThreadRelationFilter, id: ThreadId) -> bool {
    match relation {
        ThreadRelationFilter::DirectChildrenOf(parent) => edges.contains_key(id) && edges[id].parent_thread_id == parent,
        ThreadRelationFilter::DescendantsOf(ancestor) => is_descendant(edges, ancestor, id),
    }
}

/// A thread that has a relation to another has an edge.
proof fn lemma_related_has_edge(edges: Map<ThreadId, ThreadSpawnEdge>, relation: ThreadRelationFilter, id: ThreadId)
    requires
        has_relation(edges, relation, id),
    ensures
        edges.contains_key(id),
{
}

/// `related` lists the threads that have the relation, if one is asked for.
pub open spec fn is_related_list(
    edges: Map<ThreadId, ThreadSpawnEdge>,
    relation: Option<ThreadRelationFilter>,
    related: Option<&Vec<ThreadId>>,
) -> bool {
    match (relation, related) {
        (Some(relation), Some(related)) => forall|id: ThreadId| #[trigger] related@.contains(id) <==> has_relation(edges, relation, id),
        (None, None) => true,
        _ => false,
    }
}

/// The anchor behind a thread.
pub open spec fn anchor_behind(row: ThreadRow, key: SortKey, tiebreaker: bool) -> Option<Anchor> {
    match key_value(row, key) {
        Some(ts) => Some(
            Anchor {
                ts,
                id: if tiebreaker {
                    Some(row.metadata.id)
                } else {
                    None
                },
            },
        ),
        None => None,
    }
}

/// One more than the page holds, to know whether another page follows.
pub open spec fn scan_limit(page_size: usize) -> nat {
    if page_size == usize::MAX {
        usize::MAX as nat
    } else {
        (page_size + 1) as nat
    }
}

/// The threads of a page: the first of the listing.
pub open spec fn shown_rows(fetched: Seq<ThreadRow>, page_size: usize) -> Seq<ThreadRow> {
    if fetched.len() > page_size {
        fetched.take(page_size as int)
    } else {
        fetched
    }
}

/// `page` holds the first threads of the listing `fetched`.
pub open spec fn is_page_of(
    edges: Map<ThreadId, ThreadSpawnEdge>,
    options: ThreadFilterOptions,
    relation: Option<ThreadRelationFilter>,
    page_size: usize,
    fetched: Seq<ThreadRow>,
    page: ThreadsPage,
) -> bool {
    let shown = shown_rows(fetched, page_size);
    &&& page.num_scanned_rows == fetched.len()
    &&& page.items@ == shown.map_values(|row: ThreadRow| row.metadata)
    &&& page.parent_thread_ids@ == if relation is Some {
        shown.map_values(
            |row: ThreadRow| SpawnedBy { thread_id: row.metadata.id, parent_thread_id: edges[row.metadata.id].parent_thread_id },
        )
    } else {
        Seq::empty()
    }
    &&& page.next_anchor == if fetched.len() > page_size && shown.len() > 0 {
        anchor_behind(shown.last(), options.sort_key, has_tiebreaker(options, relation))
    } else {
        None
    }
}

/// `page` is the page that the options ask for.
pub open spec fn is_threads_page(
    state: StateRuntimeView,
    options: ThreadFilterOptions,
    relation: Option<ThreadRelationFilter>,
    page_size: usize,
    page: ThreadsPage,
) -> bool {
    let ranking = BySortKey { key: options.sort_key, direction: options.sort_direction, tiebreaker: has_tiebreaker(options, relation) };
    exists|clauses: &Vec<ThreadClause>, related: Option<&Vec<ThreadId>>, fetched: Seq<ThreadRow>| {
        &&& clauses@ == filter_clauses(options, has_tiebreaker(options, relation), includes_empty_previews(options, relation))
        &&& is_related_list(state.spawn_edges, relation, related)
        &&& #[trigger] is_listing::<ThreadRow, ListedThreads, BySortKey>(
            state.threads,
            ListedThreads { clauses, related },
            ranking,
            scan_limit(page_size),
            fetched,
        )
        &&& is_page_of(state.spawn_edges, options, relation, page_size, fetched, page)
    }
}

/// The thread with the title that was updated last.
pub open spec fn is_titled_thread(
    state: StateRuntimeView,
    title: &str,
    options: ThreadFilterOptions,
    cwd: Option<&str>,
    found: Option<ThreadMetadata>,
) -> bool {
    let extra = match cwd {
        Some(cwd) => seq![ThreadClause::TitleIs(title), ThreadClause::CwdIs(cwd)],
        None => seq![ThreadClause::TitleIs(title)],
    };
    exists|clauses: &Vec<ThreadClause>, fetched: Seq<ThreadRow>| {
        &&& clauses@ == filter_clauses(options, false, false) + extra
        &&& #[trigger] is_listing::<ThreadRow, ListedThreads, BySortKey>(
            state.threads,
            ListedThreads { clauses, related: None },
            BySortKey { key: SortKey::UpdatedAt, direction: SortDirection::Desc, tiebreaker: false },
            1,
            fetched,
        )
        &&& found == if fetched.len() > 0 {
            Some(fetched[0].metadata)
        } else {
            None
        }
    }
}

/// The identifiers of the threads that the options ask for.
pub open spec fn is_id_listing(state: StateRuntimeView, options: ThreadFilterOptions, tiebreaker: bool, limit: usize, ids: Seq<ThreadId>) -> bool {
    exists|clauses: &Vec<ThreadClause>, fetched: Seq<ThreadRow>| {
        &&& clauses@ == filter_clauses(options, tiebreaker, false)
        &&& #[trigger] is_listing::<ThreadRow, ListedThreads, BySortKey>(
            state.threads,
            ListedThreads { clauses, related: None },
            BySortKey { key: options.sort_key, direction: options.sort_direction, tiebreaker },
            limit as nat,
            fetched,
        )
        &&& ids == fetched.map_values(|row: ThreadRow| row.metadata.id)
    }
}

/// The archived threads, or those that are not.
pub open spec fn is_wanted_archive(row: ThreadRow, archived_only: Option<bool>) -> bool {
    archived_only is Some ==> archived_only->0 == row.metadata.archived_at is Some
}

fn item_anchor(row: &ThreadRow, key: SortKey, tiebreaker: bool) -> (anchor: Option<Anchor>)
    ensures
        anchor == anchor_behind(*row, key, tiebreaker),
{
    let id = if tiebreaker {
        Some(row.metadata.id)
    } else {
        None
    };
    match key_of_row(row, key) {
        Some(ts) => Some(Anchor { ts, id }),
        None => None,
    }
}

impl StateRuntime {
    /// The rollout path of a thread, if it has one and is archived or not as asked for.
    pub fn find_rollout_path_by_id(&self, id: ThreadId, archived_only: Option<bool>) -> (path: Option<String>)
        ensures
            path == match thread_at(self@, id) {
                Some(row) => if row.has_rollout_path && is_wanted_archive(row, archived_only) {
                    Some(row.metadata.rollout_path)
                } else {
                    None
                },
                None => None::<String>,
            },
    {
        match self.threads.get(&id) {
            Some(row) => {
                let wanted = match archived_only {
                    Some(archived) => archived == row.metadata.archived_at.is_some(),
                    None => true,
                };
                if wanted && row.has_rollout_path {
                    Some(row.metadata.rollout_path.clone())
                } else {
                    None
                }
            },
            None => None,
        }
    }

    /// The thread with exactly the given title that was updated last.
    pub fn find_thread_by_exact_title(
        &self,
        title: &str,
        allowed_sources: &[String],
        model_providers: Option<&[String]>,
        archived_only: bool,
        cwd: Option<&str>,
    ) -> (result: Result<Option<ThreadMetadata>, ThreadStoreError>)
        ensures
            match result {
                Ok(found) => {
                    &&& self@.backend is Sqlite
                    &&& is_titled_thread(
                        self@,
                        title,
                        ThreadFilterOptions {
                            archived_only,
                            allowed_sources,
                            model_providers,
                            cwd_filters: None,
                            repository_identity: None,
                            section: None,
                            anchor: None,
                            sort_key: SortKey::UpdatedAt,
                            sort_direction: SortDirection::Desc,
                            search_term: None,
                        },
                        cwd,
                        found,
                    )
                },
                Err(error) => error == ThreadStoreError::LocalOnly && self@.backend is Postgresql,
            },
    {
        if !self.is_local() {
            return Err(ThreadStoreError::LocalOnly);
        }
        let options = ThreadFilterOptions {
            archived_only,
            allowed_sources,
            model_providers,
            cwd_filters: None,
            repository_identity: None,
            section: None,
            anchor: None,
            sort_key: SortKey::UpdatedAt,
            sort_direction: SortDirection::Desc,
            search_term: None,
        };
        let mut clauses: Vec<ThreadClause> = Vec::new();
        push_thread_filters(&mut clauses, options, false);
        assert(clauses@ =~= filter_clauses(options, false, false));
        clauses.push(ThreadClause::TitleIs(title));
        if let Some(cwd) = cwd {
            clauses.push(ThreadClause::CwdIs(cwd));
        }
        proof {
            let extra = match cwd {
                Some(cwd) => seq![ThreadClause::TitleIs(title), ThreadClause::CwdIs(cwd)],
                None => seq![ThreadClause::TitleIs(title)],
            };
            assert(clauses@ =~= filter_clauses(options, false, false) + extra);
        }
        let ranking = BySortKey { key: SortKey::UpdatedAt, direction: SortDirection::Desc, tiebreaker: false };
        let condition = ListedThreads { clauses: &clauses, related: None };
        let rows = self.threads.select(&condition, &ranking, 1);
        let ghost fetched = views(rows@);
        assert(fetched =~= rows@);
        assert(is_listing::<ThreadRow, ListedThreads, BySortKey>(self@.threads, condition, ranking, 1, fetched));
        if rows.len() > 0 {
            let found = rows[0].metadata.clone();
            assert(fetched[0].metadata == found);
            Ok(Some(found))
        } else {
            Ok(None)
        }
    }

    /// One page of threads.
    pub fn list_threads(&self, page_size: usize, filters: ThreadFilterOptions<'_>) -> (result: Result<ThreadsPage, ThreadStoreError>)
        ensures
            match result {
                Ok(page) => self@.backend is Sqlite && is_threads_page(self@, filters, None, page_size, page),
                Err(error) => error == ThreadStoreError::LocalOnly && self@.backend is Postgresql,
            },
    {
        self.list_threads_matching(page_size, filters, None)
    }

    /// One page of the threads spawned by a thread.
    pub fn list_threads_by_parent(
        &self,
        page_size: usize,
        parent_thread_id: ThreadId,
        filters: ThreadFilterOptions<'_>,
    ) -> (result: Result<ThreadsPage, ThreadStoreError>)
        ensures
            match result {
                Ok(page) => self@.backend is Sqlite && is_threads_page(
                    self@,
                    filters,
                    Some(ThreadRelationFilter::DirectChildrenOf(parent_thread_id)),
                    page_size,
                    page,
                ),
                Err(error) => error == ThreadStoreError::LocalOnly && self@.backend is Postgresql,
            },
    {
        self.list_threads_by_relation(page_size, ThreadRelationFilter::DirectChildrenOf(parent_thread_id), filters)
    }

    /// One page of the threads that have a relation.
    pub fn list_threads_by_relation(
        &self,
        page_size: usize,
        relation_filter: ThreadRelationFilter,
        filters: ThreadFilterOptions<'_>,
    ) -> (result: Result<ThreadsPage, ThreadStoreError>)
        ensures
            match result {
                Ok(page) => self@.backend is Sqlite && is_threads_page(self@, filters, Some(relation_filter), page_size, page),
                Err(error) => error == ThreadStoreError::LocalOnly && self@.backend is Postgresql,
            },
    {
        self.list_threads_matching(page_size, filters, Some(relation_filter))
    }

    /// The threads that have the relation, if one is asked for.
    fn related_threads(&self, relation_filter: Option<ThreadRelationFilter>) -> (related: Option<Vec<ThreadId>>)
        ensures
            match (relation_filter, related) {
                (Some(relation), Some(related)) => forall|id: ThreadId| #[trigger]
                    related@.contains(id) <==> has_relation(self@.spawn_edges, relation, id),
                (None, None) => true,
                _ => false,
            },
    {
        match relation_filter {
            Some(ThreadRelationFilter::DirectChildrenOf(parent)) => Some(self.list_thread_spawn_children(parent)),
            Some(ThreadRelationFilter::DescendantsOf(ancestor)) => Some(self.list_thread_spawn_descendants(ancestor)),
            None => None,
        }
    }

    fn list_threads_matching(
        &self,
        page_size: usize,
        filters: ThreadFilterOptions<'_>,
        relation_filter: Option<ThreadRelationFilter>,
    ) -> (result: Result<ThreadsPage, ThreadStoreError>)
        ensures
            match result {
                Ok(page) => self@.backend is Sqlite && is_threads_page(self@, filters, relation_filter, page_size, page),
                Err(error) => error == ThreadStoreError::LocalOnly && self@.backend is Postgresql,
            },
    {
        if !self.is_local() {
            return Err(ThreadStoreError::LocalOnly);
        }
        let limit: usize = if page_size == usize::MAX {
            page_size
        } else {
            page_size + 1
        };
        let tiebreaker = should_include_thread_id_tiebreaker(filters, relation_filter);
        let clauses = listing_clauses(filters, relation_filter);
        let listed = self.related_threads(relation_filter);
        let related = match &listed {
            Some(ids) => Some(ids),
            None => None,
        };
        assert(is_related_list(self@.spawn_edges, relation_filter, related));
        let condition = ListedThreads { clauses: &clauses, related };
        let ranking = BySortKey { key: filters.sort_key, direction: filters.sort_direction, tiebreaker };
        let mut rows = self.threads.select(&condition, &ranking, limit);
        let ghost fetched = views(rows@);
        assert(fetched =~= rows@);
        assert(is_listing::<ThreadRow, ListedThreads, BySortKey>(self@.threads, condition, ranking, scan_limit(page_size), fetched));
        let num_scanned_rows: usize = rows.len();
        let ghost shown = shown_rows(fetched, page_size);
        let mut next_anchor: Option<Anchor> = None;
        if rows.len() > page_size {
            rows.truncate(page_size);
            assert(rows@ =~= shown);
            if page_size > 0 {
                next_anchor = item_anchor(&rows[page_size - 1], filters.sort_key, tiebreaker);
            }
        }
        assert(rows@ =~= shown);
        let mut items: Vec<ThreadMetadata> = Vec::new();
        let mut parent_thread_ids: Vec<SpawnedBy> = Vec::new();
        let ghost all_items = shown.map_values(|row: ThreadRow| row.metadata);
        let ghost all_parents = shown.map_values(
            |row: ThreadRow| SpawnedBy { thread_id: row.metadata.id, parent_thread_id: self@.spawn_edges[row.metadata.id].parent_thread_id },
        );
        let mut i: usize = 0;
        assert(parent_thread_ids@ =~= all_parents.take(0));
        while i < rows.len()
            invariant
                i <= rows@.len(),
                rows@ == shown,
                self@.spawn_edges == self.spawn_edges@,
                all_items == shown.map_values(|row: ThreadRow| row.metadata),
                all_parents == shown.map_values(
                    |row: ThreadRow| SpawnedBy { thread_id: row.metadata.id, parent_thread_id: self@.spawn_edges[row.metadata.id].parent_thread_id },
                ),
                shown == shown_rows(fetched, page_size),
                is_related_list(self@.spawn_edges, relation_filter, related),
                related == condition.related,
                is_listing::<ThreadRow, ListedThreads, BySortKey>(self@.threads, condition, ranking, scan_limit(page_size), fetched),
                items@ == all_items.take(i as int),
                parent_thread_ids@ == if relation_filter is Some {
                    all_parents.take(i as int)
                } else {
                    Seq::empty()
                },
            decreases rows@.len() - i,
        {
            let row = &rows[i];
            items.push(row.metadata.clone());
            assert(all_items.take(i + 1) =~= all_items.take(i as int).push(all_items[i as int]));
            assert(all_parents.take(i + 1) =~= all_parents.take(i as int).push(all_parents[i as int]));
            if let Some(relation) = relation_filter {
                proof {
                    assert(fetched[i as int] == *row);
                    assert(row_selected::<ThreadRow, ListedThreads>(self@.threads, condition, fetched[i as int]));
                    assert(has_relation(self@.spawn_edges, relation, row.metadata.id));
                    lemma_related_has_edge(self@.spawn_edges, relation, row.metadata.id);
                }
                if let Some(edge) = self.spawn_edges.get(&row.metadata.id) {
                    parent_thread_ids.push(SpawnedBy { thread_id: row.metadata.id, parent_thread_id: edge.parent_thread_id });
                }
            }
            i += 1;
        }
        assert(all_items.take(i as int) =~= all_items);
        assert(all_parents.take(i as int) =~= all_parents);
        let page = ThreadsPage { items, parent_thread_ids, next_anchor, num_scanned_rows };
        assert(is_page_of(self@.spawn_edges, filters, relation_filter, page_size, fetched, page));
        Ok(page)
    }

    /// The identifiers of threads, latest first.
    pub fn list_thread_ids(
        &self,
        limit: usize,
        anchor: Option<&Anchor>,
        sort_key: SortKey,
        allowed_sources: &[String],
        model_providers: Option<&[String]>,
        archived_only: bool,
    ) -> (result: Result<Vec<ThreadId>, ThreadStoreError>)
        ensures
            match result {
                Ok(ids) => {
                    &&& self@.backend is Sqlite
                    &&& is_id_listing(
                        self@,
                        ThreadFilterOptions {
                            archived_only,
                            allowed_sources,
                            model_providers,
                            cwd_filters: None,
                            repository_identity: None,
                            section: None,
                            anchor,
                            sort_key,
                            sort_direction: SortDirection::Desc,
                            search_term: None,
                        },
                        sort_key == SortKey::RecencyAt || sort_key == SortKey::SectionPosition,
                        limit,
                        ids@,
                    )
                },
                Err(error) => error == ThreadStoreError::LocalOnly && self@.backend is Postgresql,
            },
    {
        if !self.is_local() {
            return Err(ThreadStoreError::LocalOnly);
        }
        let options = ThreadFilterOptions {
            archived_only,
            allowed_sources,
            model_providers,
            cwd_filters: None,
            repository_identity: None,
            section: None,
            anchor,
            sort_key,
            sort_direction: SortDirection::Desc,
            search_term: None,
        };
        let tiebreaker = matches!(sort_key, SortKey::RecencyAt | SortKey::SectionPosition);
        let mut clauses: Vec<ThreadClause> = Vec::new();
        push_thread_filters(&mut clauses, options, tiebreaker);
        assert(clauses@ =~= filter_clauses(options, tiebreaker, false));
        let condition = ListedThreads { clauses: &clauses, related: None };
        let ranking = BySortKey { key: sort_key, direction: SortDirection::Desc, tiebreaker };
        let rows = self.threads.select(&condition, &ranking, limit);
        let ghost fetched = views(rows@);
        assert(fetched =~= rows@);
        assert(is_listing::<ThreadRow, ListedThreads, BySortKey>(self@.threads, condition, ranking, limit as nat, fetched));
        let ghost expected = fetched.map_values(|row: ThreadRow| row.metadata.id);
        let mut ids: Vec<ThreadId> = Vec::new();
        let mut i: usize = 0;
        while i < rows.len()
            invariant
                i <= rows@.len(),
                expected.len() == rows@.len(),
                forall|k: int| 0 <= k < rows@.len() ==> #[trigger] expected[k] == rows@[k].metadata.id,
                ids@ == expected.take(i as int),
            decreases rows@.len() - i,
        {
            ids.push(rows[i].metadata.id);
            assert(expected[i as int] == rows@[i as int].metadata.id);
            assert(expected.take(i + 1) =~= expected.take(i as int).push(expected[i as int]));
            i += 1;
        }
        assert(expected.take(i as int) =~= expected);
        Ok(ids)
    }
}

} // verus!
