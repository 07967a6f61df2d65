//! Laws of listings and of the times given out for threads.

use super::listing::anchor_behind;
use super::listing::has_relation;
use super::listing::is_page_of;
use super::listing::is_related_list;
use super::listing::is_threads_page;
use super::listing::scan_limit;
use super::listing::shown_rows;
use super::listing::ThreadsPage;
use super::metadata::allocated;
use super::metadata::later_than;
use super::query::all_hold;
use super::query::anchor_clauses;
use super::query::anchor_id;
use super::query::clause_holds;
use super::query::filter_clauses;
use super::query::has_tiebreaker;
use super::query::includes_empty_previews;
use super::query::is_beyond;
use super::query::key_value;
use super::query::location_clauses;
use super::query::passes;
use super::query::provider_clauses;
use super::query::search_clauses;
use super::query::section_clauses;
use super::query::source_clauses;
use super::query::visibility_clauses;
use super::query::Anchor;
use super::query::BySortKey;
use super::query::ListedThreads;
use super::query::ThreadClause;
use super::query::ThreadFilterOptions;
use super::query::ThreadRelationFilter;
use super::StateRuntimeView;
use crate::table::is_listing;
use crate::table::row_selected;
use crate::table::Condition;
use crate::table::Ranking;
use crate::table::Row;
use crate::thread_id::ThreadId;
use crate::threads::ThreadRow;
use vstd::prelude::*;

verus! {

pub(super) proof fn lemma_all_hold_concat(a: Seq<ThreadClause>, b: Seq<ThreadClause>, row: ThreadRow)
    ensures
        all_hold(a + b, row) <==> all_hold(a, row) && all_hold(b, row),
{
    let both = a + b;
    if all_hold(both, row) {
        assert forall|i: int| 0 <= i < a.len() implies clause_holds(#[trigger] a[i], row) by {
            assert(both[i] == a[i]);
        }
        assert forall|i: int| 0 <= i < b.len() implies clause_holds(#[trigger] b[i], row) by {
            assert(both[a.len() + i] == b[i]);
        }
    }
    if all_hold(a, row) && all_hold(b, row) {
        assert forall|i: int| 0 <= i < both.len() implies clause_holds(#[trigger] both[i], row) by {
            if i < a.len() {
                assert(both[i] == a[i]);
            } else {
                assert(both[i] == b[i - a.len()]);
            }
        }
    }
}

proof fn lemma_all_hold_one(clause: ThreadClause, row: ThreadRow)
    ensures
        all_hold(seq![clause], row) <==> clause_holds(clause, row),
{
    if all_hold(seq![clause], row) {
        assert(clause_holds(seq![clause][0], row));
    }
}

proof fn lemma_visibility(options: ThreadFilterOptions, include_empty_preview: bool, row: ThreadRow)
    ensures
        all_hold(visibility_clauses(options, include_empty_preview), row) <==> options.archived_only == row.metadata.archived_at is Some && (include_empty_preview
            || super::query::text_or_empty(row.metadata.preview).len() > 0),
{
    let clauses = visibility_clauses(options, include_empty_preview);
    if all_hold(clauses, row) {
        assert(clause_holds(clauses[0], row));
        if !include_empty_preview {
            assert(clause_holds(clauses[1], row));
        }
    }
}

proof fn lemma_location(options: ThreadFilterOptions, row: ThreadRow)
    ensures
        all_hold(location_clauses(options), row) <==> super::query::is_located(row, options.cwd_filters, options.repository_identity),
{
    let clauses = location_clauses(options);
    if clauses.len() == 1 {
        lemma_all_hold_one(clauses[0], row);
        assert(clauses =~= seq![clauses[0]]);
    }
}

/// A thread satisfies the conditions of the query exactly where the listing shows it.
pub proof fn law_conditions_mean_the_filter(options: ThreadFilterOptions, tiebreaker: bool, include_empty_preview: bool, row: ThreadRow)
    ensures
        all_hold(filter_clauses(options, tiebreaker, include_empty_preview), row) <==> passes(options, tiebreaker, include_empty_preview, row),
{
    let visible = visibility_clauses(options, include_empty_preview);
    let section = section_clauses(options);
    let sources = source_clauses(options);
    let providers = provider_clauses(options);
    let location = location_clauses(options);
    let search = search_clauses(options);
    let anchor = anchor_clauses(options, tiebreaker);
    lemma_all_hold_concat(visible, section, row);
    lemma_all_hold_concat(sources, providers, row);
    lemma_all_hold_concat(visible + section, sources + providers, row);
    lemma_all_hold_concat(visible + section + (sources + providers), location, row);
    lemma_all_hold_concat(search, anchor, row);
    lemma_all_hold_concat(visible + section + (sources + providers) + location, search + anchor, row);
    lemma_visibility(options, include_empty_preview, row);
    lemma_location(options, row);
    if section.len() == 1 {
        lemma_all_hold_one(section[0], row);
        assert(section =~= seq![section[0]]);
    }
    if sources.len() == 1 {
        lemma_all_hold_one(sources[0], row);
        assert(sources =~= seq![sources[0]]);
    }
    if providers.len() == 1 {
        lemma_all_hold_one(providers[0], row);
        assert(providers =~= seq![providers[0]]);
    }
    if search.len() == 1 {
        lemma_all_hold_one(search[0], row);
        assert(search =~= seq![search[0]]);
    }
    if anchor.len() == 1 {
        lemma_all_hold_one(anchor[0], row);
        assert(anchor =~= seq![anchor[0]]);
    }
}

/// The thread is one that the listing shows on some page from the anchor on.
pub open spec fn is_listed(state: StateRuntimeView, options: ThreadFilterOptions, relation: Option<ThreadRelationFilter>, row: ThreadRow) -> bool {
    &&& state.threads.contains_key(row.metadata.id)
    &&& state.threads[row.metadata.id] == row
    &&& passes(options, has_tiebreaker(options, relation), includes_empty_previews(options, relation), row)
    &&& relation is Some ==> has_relation(state.spawn_edges, relation->0, row.metadata.id)
}

/// The thread is on the page.
pub open spec fn is_on_page(page: ThreadsPage, id: ThreadId) -> bool {
    exists|i: int| 0 <= i < page.items@.len() && (#[trigger] page.items@[i]).id == id
}

/// The options with another anchor.
pub open spec fn from_anchor<'a>(options: ThreadFilterOptions<'a>, anchor: Option<&'a Anchor>) -> ThreadFilterOptions<'a> {
    ThreadFilterOptions { anchor, ..options }
}

/// A page holds only threads that the listing shows, at most as many as asked for.
pub proof fn law_page_shows_what_is_asked_for(
    state: StateRuntimeView,
    options: ThreadFilterOptions,
    relation: Option<ThreadRelationFilter>,
    page_size: usize,
    page: ThreadsPage,
    i: int,
)
    requires
        state.keyed(),
        is_threads_page(state, options, relation, page_size, page),
    ensures
        page.items@.len() <= page_size,
        0 <= i < page.items@.len() ==> {
            &&& state.threads.contains_key(page.items@[i].id)
            &&& state.threads[page.items@[i].id].metadata == page.items@[i]
            &&& is_listed(state, options, relation, state.threads[page.items@[i].id])
        },
{
    let tiebreaker = has_tiebreaker(options, relation);
    let ranking = BySortKey { key: options.sort_key, direction: options.sort_direction, tiebreaker };
    let (clauses, related, fetched) = choose|clauses: &Vec<ThreadClause>, related: Option<&Vec<ThreadId>>, fetched: Seq<ThreadRow>| {
        &&& clauses@ == filter_clauses(options, tiebreaker, includes_empty_previews(options, relation))
        &&& is_related_list(state.spawn_edges, relation, related)
        &&& #[trigger] is_listing::<ThreadRow, ListedThreads, BySortKey>(
            state.threads,
            ListedThreads { clauses, related },
            ranking,
            scan_limit(page_size),
            fetched,
        )
        &&& is_page_of(state.spawn_edges, options, relation, page_size, fetched, page)
    };
    if 0 <= i < page.items@.len() {
        let shown = shown_rows(fetched, page_size);
        assert(shown[i] == fetched[i]);
        assert(row_selected::<ThreadRow, ListedThreads>(state.threads, ListedThreads { clauses, related }, fetched[i]));
        law_conditions_mean_the_filter(options, tiebreaker, includes_empty_previews(options, relation), fetched[i]);
    }
}

/// Pages skip nothing and repeat nothing: what the listing shows from the anchor of the next page
/// on is what it showed before without what is on the page.
///
/// This holds of orders that tell threads apart by their identifiers, and of threads that have a
/// value of the sort key.
pub proof fn law_pages_are_complete(
    state: StateRuntimeView,
    options: ThreadFilterOptions,
    relation: Option<ThreadRelationFilter>,
    page_size: usize,
    page: ThreadsPage,
    next: &Anchor,
    row: ThreadRow,
)
    requires
        state.keyed(),
        is_threads_page(state, options, relation, page_size, page),
        has_tiebreaker(options, relation),
        options.anchor is Some ==> options.anchor->0.id is Some,
        page.next_anchor == Some(*next),
        key_value(row, options.sort_key) is Some,
    ensures
        is_listed(state, from_anchor(options, Some(next)), relation, row) <==> is_listed(state, options, relation, row) && !is_on_page(page, row.metadata.id),
{
    let empty = includes_empty_previews(options, relation);
    let ranking = BySortKey { key: options.sort_key, direction: options.sort_direction, tiebreaker: true };
    let (clauses, related, fetched) = choose|clauses: &Vec<ThreadClause>, related: Option<&Vec<ThreadId>>, fetched: Seq<ThreadRow>| {
        &&& clauses@ == filter_clauses(options, has_tiebreaker(options, relation), includes_empty_previews(options, relation))
        &&& is_related_list(state.spawn_edges, relation, related)
        &&& #[trigger] is_listing::<ThreadRow, ListedThreads, BySortKey>(
            state.threads,
            ListedThreads { clauses, related },
            ranking,
            scan_limit(page_size),
            fetched,
        )
        &&& is_page_of(state.spawn_edges, options, relation, page_size, fetched, page)
    };
    let condition = ListedThreads { clauses, related };
    let shown = shown_rows(fetched, page_size);
    let last = shown.last();
    assert(shown.len() == page_size && page_size > 0 && fetched.len() > page_size);
    assert(last == fetched[page_size - 1]);
    assert(row_selected::<ThreadRow, ListedThreads>(state.threads, condition, fetched[page_size - 1]));
    law_conditions_mean_the_filter(options, true, empty, row);
    law_conditions_mean_the_filter(options, true, empty, last);
    assert(anchor_behind(last, options.sort_key, true) == Some(*next));
    let later = from_anchor(options, Some(next));
    assert(has_tiebreaker(later, relation));
    assert(includes_empty_previews(later, relation) == empty);
    // The next anchor is passed by what ranks after the last thread of the page.
    let beyond = is_beyond(row, options.sort_key, options.sort_direction, next.ts, anchor_id(*next, true));
    assert(beyond == ranking.before(last, row));
    // And whatever ranks after that thread is beyond the anchor of this page too.
    if beyond && options.anchor is Some {
        let anchor = *options.anchor->0;
        assert(is_beyond(last, options.sort_key, options.sort_direction, anchor.ts, anchor_id(anchor, true)));
        assert(is_beyond(row, options.sort_key, options.sort_direction, anchor.ts, anchor_id(anchor, true)));
    }
    lemma_on_page(state, options, relation, page_size, fetched, page, row.metadata.id);
    if is_listed(state, options, relation, row) {
        assert(condition.holds(row));
        assert(row_selected::<ThreadRow, ListedThreads>(state.threads, condition, row));
        if fetched.contains(row) {
            let i = choose|i: int| 0 <= i < fetched.len() && fetched[i] == row;
            if i < page_size {
                assert(shown[i] == row);
                if i < page_size - 1 {
                    assert(!ranking.before(fetched[page_size - 1], fetched[i]));
                }
            } else {
                assert(ThreadRow::key_of(fetched[page_size - 1]) != ThreadRow::key_of(fetched[i]));
                assert(!ranking.before(fetched[i], fetched[page_size - 1]));
                assert forall|k: int| 0 <= k < shown.len() implies (#[trigger] shown[k]).metadata.id != row.metadata.id by {
                    assert(shown[k] == fetched[k]);
                    assert(ThreadRow::key_of(fetched[k]) != ThreadRow::key_of(fetched[i]));
                }
            }
        } else {
            assert(!ranking.before(row, fetched[page_size - 1]));
            assert forall|k: int| 0 <= k < shown.len() implies (#[trigger] shown[k]).metadata.id != row.metadata.id by {
                assert(shown[k] == fetched[k]);
                assert(row_selected::<ThreadRow, ListedThreads>(state.threads, condition, fetched[k]));
                if fetched[k].metadata.id == row.metadata.id {
                    assert(fetched[k] == row);
                }
            }
            assert(shown[page_size - 1].metadata.id != row.metadata.id);
        }
    }
}

proof fn lemma_on_page(
    state: StateRuntimeView,
    options: ThreadFilterOptions,
    relation: Option<ThreadRelationFilter>,
    page_size: usize,
    fetched: Seq<ThreadRow>,
    page: ThreadsPage,
    id: ThreadId,
)
    requires
        is_page_of(state.spawn_edges, options, relation, page_size, fetched, page),
    ensures
        is_on_page(page, id) <==> exists|k: int| 0 <= k < shown_rows(fetched, page_size).len() && (#[trigger] shown_rows(fetched, page_size)[k]).metadata.id == id,
{
    let shown = shown_rows(fetched, page_size);
    if is_on_page(page, id) {
        let i = choose|i: int| 0 <= i < page.items@.len() && (#[trigger] page.items@[i]).id == id;
        assert(shown[i].metadata.id == id);
    }
    if exists|k: int| 0 <= k < shown.len() && (#[trigger] shown[k]).metadata.id == id {
        let k = choose|k: int| 0 <= k < shown.len() && (#[trigger] shown[k]).metadata.id == id;
        assert(page.items@[k].id == id);
    }
}

/// The times given out never repeat within the last second: each is new, or older than the latest
/// by a second at least and then what was asked for. The latest time never moves back.
pub proof fn law_times_are_given_out_once(mark: i64, candidate: i64)
    requires
        mark < i64::MAX,
    ensures
        ({
            let (time, after) = allocated(mark, candidate);
            &&& mark <= after
            &&& time > mark && after == time || time == candidate && time + 1000 <= mark && after == mark
            &&& time >= candidate
            &&& candidate > mark ==> time == candidate
        }),
{
}

/// Two times given out one after the other are in order unless the second repairs history.
pub proof fn law_later_times_follow(mark: i64, first: i64, second: i64)
    requires
        mark < i64::MAX,
        allocated(mark, first).1 < i64::MAX,
        second + 1000 > allocated(mark, first).1,
    ensures
        allocated(allocated(mark, first).1, second).0 > allocated(mark, first).0,
{
}

/// Using a thread always makes it more recent than it was.
pub proof fn law_recency_grows(time: i64, before: i64)
    requires
        before < i64::MAX,
    ensures
        later_than(time, before) > before,
        later_than(time, before) >= time,
{
}

} // verus!
