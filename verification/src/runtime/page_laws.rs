//! The pages of a listing, put together.

use super::listing::anchor_behind;
use super::listing::is_page_of;
use super::listing::is_related_list;
use super::listing::is_threads_page;
use super::listing::scan_limit;
use super::listing::shown_rows;
use super::listing::ThreadsPage;
use super::listing_laws::from_anchor;
use super::listing_laws::is_listed;
use super::listing_laws::is_on_page;
use super::listing_laws::law_conditions_mean_the_filter;
use super::listing_laws::law_page_shows_what_is_asked_for;
use super::listing_laws::law_pages_are_complete;
use super::query::filter_clauses;
use super::query::has_tiebreaker;
use super::query::includes_empty_previews;
use super::query::key_value;
use super::query::BySortKey;
use super::query::ListedThreads;
use super::query::ThreadClause;
use super::query::ThreadFilterOptions;
use super::query::ThreadRelationFilter;
use super::StateRuntimeView;
use crate::table::is_listing;
use crate::table::lemma_covers;
use crate::table::row_selected;
use crate::table::Condition;
use crate::table::Ranking;
use crate::table::Row;
use crate::thread_id::ThreadId;
use crate::threads::ThreadMetadata;
use crate::threads::ThreadRow;
use vstd::prelude::*;

verus! {

/// The pages are read one after the other: each goes on at the anchor that the one before it
/// gives, and the last one gives none.
pub open spec fn is_page_run(
    state: StateRuntimeView,
    options: ThreadFilterOptions,
    relation: Option<ThreadRelationFilter>,
    page_size: usize,
    pages: Seq<ThreadsPage>,
) -> bool
    decreases pages.len(),
{
    &&& pages.len() > 0
    &&& is_threads_page(state, options, relation, page_size, pages[0])
    &&& match pages[0].next_anchor {
        Some(anchor) => is_page_run(state, from_anchor(options, Some(&anchor)), relation, page_size, pages.skip(1)),
        None => pages.len() == 1,
    }
}

/// The threads of the pages, in the order of the pages.
pub open spec fn joined_pages(pages: Seq<ThreadsPage>) -> Seq<ThreadMetadata>
    decreases pages.len(),
{
    if pages.len() == 0 {
        Seq::empty()
    } else {
        pages[0].items@ + joined_pages(pages.skip(1))
    }
}

/// The order of the listing: by sort key and then by identifier.
pub open spec fn listing_order(options: ThreadFilterOptions) -> BySortKey {
    BySortKey { key: options.sort_key, direction: options.sort_direction, tiebreaker: true }
}

/// Every thread that the listing shows has a value of the sort key.
pub open spec fn have_sort_key(state: StateRuntimeView, options: ThreadFilterOptions, relation: Option<ThreadRelationFilter>) -> bool {
    forall|row: ThreadRow| #[trigger] is_listed(state, options, relation, row) ==> key_value(row, options.sort_key) is Some
}

/// `items` holds the threads that the listing shows, each once and in order.
pub open spec fn lists_in_order(
    state: StateRuntimeView,
    options: ThreadFilterOptions,
    relation: Option<ThreadRelationFilter>,
    items: Seq<ThreadMetadata>,
) -> bool {
    &&& forall|i: int| 0 <= i < items.len() ==> {
        &&& state.threads.contains_key((#[trigger] items[i]).id)
        &&& state.threads[items[i].id].metadata == items[i]
        &&& is_listed(state, options, relation, state.threads[items[i].id])
    }
    &&& forall|row: ThreadRow| #[trigger] is_listed(state, options, relation, row) ==> exists|i: int| 0 <= i < items.len() && #[trigger] items[i] == row.metadata
    &&& forall|i: int, j: int|
        #![trigger items[i], items[j]]
        0 <= i < j < items.len() ==> {
            &&& items[i].id != items[j].id
            &&& listing_order(options).before(state.threads[items[i].id], state.threads[items[j].id])
        }
}

/// What one page tells of the listing.
proof fn lemma_one_page(
    state: StateRuntimeView,
    options: ThreadFilterOptions,
    relation: Option<ThreadRelationFilter>,
    page_size: usize,
    page: ThreadsPage,
)
    requires
        state.keyed(),
        is_threads_page(state, options, relation, page_size, page),
        has_tiebreaker(options, relation),
        have_sort_key(state, options, relation),
        state.countable(),
        page_size >= 1,
    ensures
        forall|i: int, j: int|
            #![trigger page.items@[i], page.items@[j]]
            0 <= i < j < page.items@.len() ==> listing_order(options).before(state.threads[page.items@[i].id], state.threads[page.items@[j].id]),
        match page.next_anchor {
            Some(anchor) => {
                &&& page.items@.len() == page_size
                &&& Some(anchor) == anchor_behind(state.threads[page.items@.last().id], options.sort_key, true)
            },
            None => forall|row: ThreadRow| #[trigger] is_listed(state, options, relation, row) ==> is_on_page(page, row.metadata.id),
        },
{
    let tiebreaker = has_tiebreaker(options, relation);
    let empty = includes_empty_previews(options, relation);
    let ranking = BySortKey { key: options.sort_key, direction: options.sort_direction, tiebreaker };
    let (clauses, related, fetched) = choose|clauses: &Vec<ThreadClause>, related: Option<&Vec<ThreadId>>, fetched: Seq<ThreadRow>| {
        &&& clauses@ == filter_clauses(options, tiebreaker, includes_empty_previews(options, relation))
        &&& is_related_list(state.spawn_edges, relation, related)
        &&& #[trigger] is_listing::<ThreadRow, ListedThreads, BySortKey>(
            state.threads,
            ListedThreads { clauses, related },
            ranking,
            scan_limit(page_size),
            fetched,
        )
        &&& is_page_of(state.spawn_edges, options, relation, page_size, fetched, page)
    };
    let condition = ListedThreads { clauses, related };
    let shown = shown_rows(fetched, page_size);
    assert forall|i: int| 0 <= i < fetched.len() implies is_listed(state, options, relation, #[trigger] fetched[i]) by {
        assert(row_selected::<ThreadRow, ListedThreads>(state.threads, condition, fetched[i]));
        law_conditions_mean_the_filter(options, tiebreaker, empty, fetched[i]);
    }
    assert forall|i: int| 0 <= i < page.items@.len() implies state.threads[(#[trigger] page.items@[i]).id] == fetched[i] by {
        assert(shown[i] == fetched[i]);
        assert(is_listed(state, options, relation, fetched[i]));
    }
    assert forall|i: int, j: int| #![trigger page.items@[i], page.items@[j]] 0 <= i < j < page.items@.len() implies listing_order(options).before(
        state.threads[page.items@[i].id],
        state.threads[page.items@[j].id],
    ) by {
        assert(!ranking.before(fetched[j], fetched[i]));
        assert(ThreadRow::key_of(fetched[i]) != ThreadRow::key_of(fetched[j]));
        assert(is_listed(state, options, relation, fetched[i]) && is_listed(state, options, relation, fetched[j]));
    }
    if fetched.len() > page_size {
        assert(is_listed(state, options, relation, fetched[page_size - 1]));
        assert(shown.last() == fetched[page_size - 1]);
        assert(page.items@.last() == page.items@[page_size - 1]);
    } else {
        assert forall|row: ThreadRow| #[trigger] is_listed(state, options, relation, row) implies is_on_page(page, row.metadata.id) by {
            law_conditions_mean_the_filter(options, tiebreaker, empty, row);
            assert(condition.holds(row));
            assert(row_selected::<ThreadRow, ListedThreads>(state.threads, condition, row));
            if fetched.len() == scan_limit(page_size) {
                assert forall|i: int| #![trigger fetched[i]] 0 <= i < fetched.len() implies state.threads.contains_key(ThreadRow::key_of(fetched[i]))
                    && state.threads[ThreadRow::key_of(fetched[i])] == fetched[i] by {
                    assert(is_listed(state, options, relation, fetched[i]));
                }
                lemma_covers::<ThreadRow>(state.threads, fetched, row);
            }
            assert(fetched.contains(row));
            let i = choose|i: int| 0 <= i < fetched.len() && fetched[i] == row;
            assert(page.items@[i].id == row.metadata.id);
        }
    }
}

/// The pages of a listing put together are the listing: read one after the other, they hold every
/// thread that the listing shows, each once, by sort key and identifier in the direction asked
/// for. Every page but the last holds as many threads as asked for, and the last at most as many.
///
/// This holds of orders that tell threads apart by their identifiers, and of threads that have a
/// value of the sort key.
pub proof fn law_joined_pages_are_the_listing(
    state: StateRuntimeView,
    options: ThreadFilterOptions,
    relation: Option<ThreadRelationFilter>,
    page_size: usize,
    pages: Seq<ThreadsPage>,
)
    requires
        state.keyed(),
        page_size >= 1,
        state.countable(),
        has_tiebreaker(options, relation),
        options.anchor is Some ==> options.anchor->0.id is Some,
        have_sort_key(state, options, relation),
        is_page_run(state, options, relation, page_size, pages),
    ensures
        lists_in_order(state, options, relation, joined_pages(pages)),
        forall|p: int| 0 <= p < pages.len() - 1 ==> (#[trigger] pages[p]).items@.len() == page_size,
        pages.last().items@.len() <= page_size,
    decreases pages.len(),
{
    let page = pages[0];
    let items = page.items@;
    let rest = pages.skip(1);
    let joined = joined_pages(pages);
    lemma_one_page(state, options, relation, page_size, page);
    assert forall|i: int| 0 <= i < items.len() implies {
        &&& state.threads.contains_key((#[trigger] items[i]).id)
        &&& state.threads[items[i].id].metadata == items[i]
        &&& is_listed(state, options, relation, state.threads[items[i].id])
    } by {
        law_page_shows_what_is_asked_for(state, options, relation, page_size, page, i);
    }
    law_page_shows_what_is_asked_for(state, options, relation, page_size, page, 0);
    match page.next_anchor {
        None => {
            assert(joined_pages(rest) =~= Seq::<ThreadMetadata>::empty());
            assert(joined =~= items);
            assert forall|row: ThreadRow| #[trigger] is_listed(state, options, relation, row) implies exists|i: int| 0 <= i < joined.len() && #[trigger] joined[i] == row.metadata by {
                assert(is_on_page(page, row.metadata.id));
                let i = choose|i: int| 0 <= i < items.len() && (#[trigger] items[i]).id == row.metadata.id;
                assert(joined[i] == row.metadata);
            }
        },
        Some(anchor) => {
            let later = from_anchor(options, Some(&anchor));
            let last = state.threads[items.last().id];
            assert(items.last() == items[items.len() - 1]);
            assert(is_listed(state, options, relation, last));
            assert forall|row: ThreadRow| #[trigger] is_listed(state, later, relation, row) implies {
                &&& key_value(row, options.sort_key) is Some
                &&& is_listed(state, options, relation, row)
                &&& !is_on_page(page, row.metadata.id)
                &&& listing_order(options).before(last, row)
            } by {
                law_pages_are_complete(state, options, relation, page_size, page, &anchor, row);
            }
            law_joined_pages_are_the_listing(state, later, relation, page_size, rest);
            let more = joined_pages(rest);
            assert forall|i: int| 0 <= i < joined.len() implies {
                &&& state.threads.contains_key((#[trigger] joined[i]).id)
                &&& state.threads[joined[i].id].metadata == joined[i]
                &&& is_listed(state, options, relation, state.threads[joined[i].id])
            } by {
                if i < items.len() {
                    assert(joined[i] == items[i]);
                } else {
                    assert(joined[i] == more[i - items.len()]);
                    assert(is_listed(state, later, relation, state.threads[more[i - items.len()].id]));
                }
            }
            assert forall|row: ThreadRow| #[trigger] is_listed(state, options, relation, row) implies exists|i: int| 0 <= i < joined.len() && #[trigger] joined[i] == row.metadata by {
                law_pages_are_complete(state, options, relation, page_size, page, &anchor, row);
                if is_on_page(page, row.metadata.id) {
                    let i = choose|i: int| 0 <= i < items.len() && (#[trigger] items[i]).id == row.metadata.id;
                    assert(joined[i] == row.metadata);
                } else {
                    assert(is_listed(state, later, relation, row));
                    let i = choose|i: int| 0 <= i < more.len() && #[trigger] more[i] == row.metadata;
                    assert(joined[items.len() + i] == row.metadata);
                }
            }
            assert forall|i: int, j: int| #![trigger joined[i], joined[j]] 0 <= i < j < joined.len() implies listing_order(options).before(
                state.threads[joined[i].id],
                state.threads[joined[j].id],
            ) by {
                let n = items.len() as int;
                if j < n {
                    assert(joined[i] == items[i] && joined[j] == items[j]);
                } else {
                    assert(joined[j] == more[j - n]);
                    assert(is_listed(state, later, relation, state.threads[more[j - n].id]));
                    if i < n {
                        assert(joined[i] == items[i]);
                        if i < n - 1 {
                            assert(listing_order(options).before(state.threads[items[i].id], state.threads[items[n - 1].id]));
                        }
                    } else {
                        assert(joined[i] == more[i - n]);
                        assert(listing_order(later).before(state.threads[more[i - n].id], state.threads[more[j - n].id]));
                    }
                }
            }
            assert forall|p: int| 0 <= p < pages.len() - 1 implies (#[trigger] pages[p]).items@.len() == page_size by {
                if p > 0 {
                    assert(rest[p - 1] == pages[p]);
                }
            }
            reveal_with_fuel(is_page_run, 2);
            assert(rest[rest.len() - 1] == pages[pages.len() - 1]);
        },
    }
}

} // verus!
