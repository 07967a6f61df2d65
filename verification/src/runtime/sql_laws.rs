//! Laws of the queries for listings, told in the text and the values that a query gains.

use super::query::filter_clauses;
use super::query::has_tiebreaker;
use super::query::includes_empty_previews;
use super::query::order_index;
use super::query::push_clauses;
use super::query::push_list_threads_query;
use super::query::push_thread_order_and_limit;
use super::query::with_clauses;
use super::query::with_order_and_limit;
use super::query::OrderByIndex;
use super::query::SortDirection;
use super::query::SortKey;
use super::query::SqlBindView;
use super::query::SqlQuery;
use super::query::SqlQueryView;
use super::query::ThreadClause;
use super::query::ThreadFilterOptions;
use super::query::ThreadRelationFilter;
use crate::outside::uuid_text;
use crate::thread_id::ThreadId;
use vstd::prelude::*;

verus! {

/// A query ends with the order that was asked for and with the limit as its last value. Where threads are
/// told apart by identifier, that is ordered in the same direction. A limit beyond what can be bound stands
/// for none.
pub proof fn law_query_ends_with_order_and_limit(
    query: &mut SqlQuery,
    key: SortKey,
    direction: SortDirection,
    index: OrderByIndex,
    tiebreaker: bool,
    limit: usize,
)
    requires
        call_ensures(push_thread_order_and_limit, (query, key, direction, index, tiebreaker, limit), ()),
    ensures
        ({
            let column = match key {
                SortKey::CreatedAt => "threads.created_at_ms"@,
                SortKey::UpdatedAt => "threads.updated_at_ms"@,
                SortKey::RecencyAt => "threads.recency_at_ms"@,
                SortKey::SectionPosition => "threads.section_position"@,
            };
            let way = if direction == SortDirection::Desc {
                "DESC"@
            } else {
                "ASC"@
            };
            let start = if index == OrderByIndex::Disabled {
                " ORDER BY "@ + "+"@
            } else {
                " ORDER BY "@
            };
            let ties = if tiebreaker {
                ", threads.id "@ + way
            } else {
                Seq::empty()
            };
            &&& final(query)@.text == old(query)@.text + (start + column + " "@ + way + ties + " LIMIT "@ + "?"@)
            &&& final(query)@.binds.len() == old(query)@.binds.len() + 1
            &&& final(query)@.binds.take(old(query)@.binds.len() as int) == old(query)@.binds
            &&& limit <= i64::MAX ==> final(query)@.binds.last() == SqlBindView::Integer(limit as i64)
            &&& limit > i64::MAX ==> final(query)@.binds.last() == SqlBindView::Integer(-1i64)
        }),
{
    let column = match key {
        SortKey::CreatedAt => "threads.created_at_ms"@,
        SortKey::UpdatedAt => "threads.updated_at_ms"@,
        SortKey::RecencyAt => "threads.recency_at_ms"@,
        SortKey::SectionPosition => "threads.section_position"@,
    };
    let way = if direction == SortDirection::Desc {
        "DESC"@
    } else {
        "ASC"@
    };
    let start = if index == OrderByIndex::Disabled {
        " ORDER BY "@ + "+"@
    } else {
        " ORDER BY "@
    };
    let ties = if tiebreaker {
        ", threads.id "@ + way
    } else {
        Seq::empty()
    };
    assert(final(query)@.text =~= old(query)@.text + (start + column + " "@ + way + ties + " LIMIT "@ + "?"@));
    assert(final(query)@.binds.take(old(query)@.binds.len() as int) =~= old(query)@.binds);
}

/// The query of a listing ends with the order that was asked for and with the limit. It names the thread that
/// a relation is to: last before the limit and, for all below it, first too. An index serves the order only
/// where neither a relation, a repository nor several directories are asked for.
pub proof fn law_query_of_a_listing(query: &mut SqlQuery, options: ThreadFilterOptions, relation: Option<ThreadRelationFilter>, limit: usize)
    requires
        call_ensures(push_list_threads_query, (query, options, relation, limit), ()),
        limit <= i64::MAX,
    ensures
        ({
            let column = match options.sort_key {
                SortKey::CreatedAt => "threads.created_at_ms"@,
                SortKey::UpdatedAt => "threads.updated_at_ms"@,
                SortKey::RecencyAt => "threads.recency_at_ms"@,
                SortKey::SectionPosition => "threads.section_position"@,
            };
            let way = if options.sort_direction == SortDirection::Desc {
                "DESC"@
            } else {
                "ASC"@
            };
            let unindexed = relation is Some || options.repository_identity is Some || options.cwd_filters is Some && options.cwd_filters->0@.len() > 1;
            let start = if unindexed {
                " ORDER BY "@ + "+"@
            } else {
                " ORDER BY "@
            };
            let tied = relation is Some || options.repository_identity is Some || options.sort_key == SortKey::RecencyAt || options.sort_key == SortKey::SectionPosition;
            let ties = if tied {
                ", threads.id "@ + way
            } else {
                Seq::empty()
            };
            let end = start + column + " "@ + way + ties + " LIMIT "@ + "?"@;
            let size = final(query)@.text.len() as int;
            let count = final(query)@.binds.len() as int;
            let known = old(query)@.binds.len() as int;
            &&& end.len() <= size
            &&& final(query)@.text.skip(size - end.len()) == end
            &&& count > known
            &&& final(query)@.binds[count - 1] == SqlBindView::Integer(limit as i64)
            &&& relation is Some && relation->0 is DirectChildrenOf ==> count > known + 1 && final(query)@.binds[count - 2] == SqlBindView::Text(
                uuid_text(relation->0->DirectChildrenOf_0.value),
            )
            &&& relation is Some && relation->0 is DescendantsOf ==> {
                &&& count > known + 2
                &&& final(query)@.binds[count - 2] == SqlBindView::Text(uuid_text(relation->0->DescendantsOf_0.value))
                &&& final(query)@.binds[known] == SqlBindView::Text(uuid_text(relation->0->DescendantsOf_0.value))
            }
        }),
{
    let before = old(query)@;
    let after = final(query)@;
    let clauses = filter_clauses(options, has_tiebreaker(options, relation), includes_empty_previews(options, relation));
    let (recursive, from) = lemma_listing_start(before, relation);
    let selected = recursive.pushed(super::query::select_columns_text()).pushed(from).pushed(" WHERE 1 = 1"@);
    let filtered = with_clauses(selected, clauses, clauses.len());
    lemma_clauses_extend(selected, clauses, clauses.len());
    let related = match relation {
        Some(ThreadRelationFilter::DirectChildrenOf(parent)) => filtered.pushed(" AND listed_edge.parent_thread_id = "@).bound(
            SqlBindView::Text(uuid_text(parent.value)),
        ),
        Some(ThreadRelationFilter::DescendantsOf(ancestor)) => filtered.pushed(" AND subtree.child_thread_id != "@).bound(
            SqlBindView::Text(uuid_text(ancestor.value)),
        ),
        None => filtered,
    };
    let index = order_index(options, relation);
    let tiebreaker = has_tiebreaker(options, relation);
    assert(after == with_order_and_limit(related, options.sort_key, options.sort_direction, index, tiebreaker, limit));
    let end = lemma_order_and_limit(related, options.sort_key, options.sort_direction, index, tiebreaker, limit);
    assert(after.text.skip(after.text.len() - end.len()) =~= end);
    assert(after.binds =~= related.binds.push(SqlBindView::Integer(limit as i64)));
    if relation is Some && relation->0 is DescendantsOf {
        let known = before.binds.len() as int;
        assert(selected.binds[known] == SqlBindView::Text(uuid_text(relation->0->DescendantsOf_0.value)));
        assert(filtered.binds.take(selected.binds.len() as int)[known] == selected.binds[known]);
        assert(filtered.binds[known] == selected.binds[known]);
    }
}

proof fn lemma_listing_start(before: SqlQueryView, relation: Option<ThreadRelationFilter>) -> (start: (SqlQueryView, Seq<char>))
    ensures
        start.0 == (match relation {
            Some(ThreadRelationFilter::DescendantsOf(ancestor)) => before.pushed(
                "
WITH RECURSIVE subtree(child_thread_id, parent_thread_id) AS (
    SELECT child_thread_id, parent_thread_id
    FROM thread_spawn_edges
    WHERE parent_thread_id =
"@,
            ).bound(SqlBindView::Text(uuid_text(ancestor.value))).pushed(
                "
    UNION
    SELECT edge.child_thread_id, edge.parent_thread_id
    FROM thread_spawn_edges AS edge
    JOIN subtree ON edge.parent_thread_id = subtree.child_thread_id
)
"@,
            ),
            _ => before,
        }),
        start.1 == (match relation {
            Some(ThreadRelationFilter::DirectChildrenOf(_)) => ", listed_edge.parent_thread_id AS parent_thread_id\nFROM thread_spawn_edges AS listed_edge\nCROSS JOIN threads ON threads.id = listed_edge.child_thread_id"@,
            Some(ThreadRelationFilter::DescendantsOf(_)) => ", subtree.parent_thread_id AS parent_thread_id\nFROM subtree\nCROSS JOIN threads ON threads.id = subtree.child_thread_id"@,
            None => " FROM threads"@,
        }),
{
    let recursive = match relation {
        Some(ThreadRelationFilter::DescendantsOf(ancestor)) => before.pushed(
            "
WITH RECURSIVE subtree(child_thread_id, parent_thread_id) AS (
    SELECT child_thread_id, parent_thread_id
    FROM thread_spawn_edges
    WHERE parent_thread_id =
"@,
        ).bound(SqlBindView::Text(uuid_text(ancestor.value))).pushed(
            "
    UNION
    SELECT edge.child_thread_id, edge.parent_thread_id
    FROM thread_spawn_edges AS edge
    JOIN subtree ON edge.parent_thread_id = subtree.child_thread_id
)
"@,
        ),
        _ => before,
    };
    let from = match relation {
        Some(ThreadRelationFilter::DirectChildrenOf(_)) => ", listed_edge.parent_thread_id AS parent_thread_id\nFROM thread_spawn_edges AS listed_edge\nCROSS JOIN threads ON threads.id = listed_edge.child_thread_id"@,
        Some(ThreadRelationFilter::DescendantsOf(_)) => ", subtree.parent_thread_id AS parent_thread_id\nFROM subtree\nCROSS JOIN threads ON threads.id = subtree.child_thread_id"@,
        None => " FROM threads"@,
    };
    (recursive, from)
}

proof fn lemma_clauses_extend(query: SqlQueryView, clauses: Seq<ThreadClause>, n: nat)
    requires
        n <= clauses.len(),
    ensures
        query.binds.len() <= with_clauses(query, clauses, n).binds.len(),
        with_clauses(query, clauses, n).binds.take(query.binds.len() as int) == query.binds,
    decreases n,
{
    if n > 0 {
        let before = with_clauses(query, clauses, (n - 1) as nat);
        let after = with_clauses(query, clauses, n);
        lemma_clauses_extend(query, clauses, (n - 1) as nat);
        lemma_gains(before, after, clauses[n - 1]);
        assert forall|i: int| 0 <= i < query.binds.len() implies after.binds[i] == query.binds[i] by {
            assert(after.binds.take(before.binds.len() as int)[i] == before.binds[i]);
            assert(before.binds.take(query.binds.len() as int)[i] == query.binds[i]);
        }
        assert(after.binds.take(query.binds.len() as int) =~= query.binds);
    } else {
        assert(query.binds.take(query.binds.len() as int) =~= query.binds);
    }
}

proof fn lemma_order_and_limit(query: SqlQueryView, key: SortKey, direction: SortDirection, index: OrderByIndex, tiebreaker: bool, limit: usize) -> (end: Seq<char>)
    ensures
        end == (if index == OrderByIndex::Disabled {
            " ORDER BY "@ + "+"@
        } else {
            " ORDER BY "@
        }) + super::query::column_text(key) + " "@ + super::query::direction_text(direction) + (if tiebreaker {
            ", threads.id "@ + super::query::direction_text(direction)
        } else {
            Seq::empty()
        }) + " LIMIT "@ + "?"@,
        with_order_and_limit(query, key, direction, index, tiebreaker, limit).text == query.text + end,
{
    let start = if index == OrderByIndex::Disabled {
        " ORDER BY "@ + "+"@
    } else {
        " ORDER BY "@
    };
    let way = super::query::direction_text(direction);
    let ties = if tiebreaker {
        ", threads.id "@ + way
    } else {
        Seq::empty()
    };
    let end = start + super::query::column_text(key) + " "@ + way + ties + " LIMIT "@ + "?"@;
    assert(with_order_and_limit(query, key, direction, index, tiebreaker, limit).text =~= query.text + end);
    end
}

/// A query gains the conditions one after the other: with one more it is the query without it, and behind
/// that the text of the last condition and the values it compares with.
pub proof fn law_each_condition_is_added(shorter: &mut SqlQuery, longer: &mut SqlQuery, some: &Vec<ThreadClause>, all: &Vec<ThreadClause>)
    requires
        call_ensures(push_clauses, (shorter, some), ()),
        call_ensures(push_clauses, (longer, all), ()),
        old(shorter)@ == old(longer)@,
        all@.len() > 0,
        some@ == all@.drop_last(),
    ensures
        gains(final(shorter)@, final(longer)@, all@.last()),
{
    lemma_same_start(old(shorter)@.pushed(" WHERE 1 = 1"@), some@, all@, some@.len());
    lemma_gains(final(shorter)@, final(longer)@, all@.last());
}

proof fn lemma_same_start(query: SqlQueryView, some: Seq<ThreadClause>, all: Seq<ThreadClause>, n: nat)
    requires
        n <= some.len(),
        all.len() == some.len() + 1,
        some == all.drop_last(),
    ensures
        with_clauses(query, some, n) == with_clauses(query, all, n),
    decreases n,
{
    if n > 0 {
        lemma_same_start(query, some, all, (n - 1) as nat);
    }
}

/// `longer` is `shorter` with the text of the condition behind it, and with the values it compares with.
pub open spec fn gains(shorter: SqlQueryView, longer: SqlQueryView, clause: ThreadClause) -> bool {
    let added = shorter.text.len() as int;
    let known = shorter.binds.len() as int;
    let text = longer.text.skip(added);
    let binds = longer.binds.skip(known);
    &&& added <= longer.text.len()
    &&& known <= longer.binds.len()
    &&& longer.text.take(added) == shorter.text
    &&& longer.binds.take(known) == shorter.binds
    &&& match clause {
        ThreadClause::Archived(archived) => text == (if archived {
            " AND threads.archived = 1"@
        } else {
            " AND threads.archived = 0"@
        }) && binds.len() == 0,
        ThreadClause::HasPreview => text == " AND threads.preview <> ''"@ && binds.len() == 0,
        ThreadClause::InSection(section) => text == " AND threads.thread_section_id = "@ + "?"@ && binds == seq![SqlBindView::Text(section@)],
        ThreadClause::NoSection => text == " AND threads.thread_section_id IS NULL"@ && binds.len() == 0,
        ThreadClause::Never => text == " AND 1 = 0"@ && binds.len() == 0,
        ThreadClause::RepositoryIs(repository) => text == " AND threads.repository_identity = "@ + "?"@ && binds == seq![SqlBindView::Text(repository@)],
        ThreadClause::TitleIs(title) => text == " AND threads.title = "@ + "?"@ && binds == seq![SqlBindView::Text(title@)],
        ThreadClause::CwdIs(cwd) => text == " AND threads.cwd = "@ + "?"@ && binds == seq![SqlBindView::Text(cwd@)],
        ThreadClause::Mentions(term) => {
            &&& text == " AND (instr(COALESCE(threads.name, ''), "@ + "?"@ + ") > 0 OR instr(threads.title, "@ + "?"@ + ") > 0 OR instr(threads.preview, "@ + "?"@ + ") > 0)"@
            &&& binds == seq![SqlBindView::Text(term@), SqlBindView::Text(term@), SqlBindView::Text(term@)]
        },
        ThreadClause::SourceIn(sources) => text == " AND threads.source IN ("@ + placeholders(sources@.len()) + ")"@ && binds_texts(binds, sources@),
        ThreadClause::ProviderIn(providers) => text == " AND threads.model_provider IN ("@ + placeholders(providers@.len()) + ")"@ && binds_texts(binds, providers@),
        ThreadClause::CwdIn(cwds) => text == " AND threads.cwd IN ("@ + placeholders(cwds@.len()) + ")"@ && binds_texts(binds, cwds@),
        ThreadClause::CwdInOrRepository { cwds, repository } => {
            &&& text == " AND (threads.cwd IN ("@ + placeholders(cwds@.len()) + ") OR threads.repository_identity = "@ + "?"@ + ")"@
            &&& binds.len() == cwds@.len() + 1
            &&& binds_texts(binds.drop_last(), cwds@)
            &&& binds.last() == SqlBindView::Text(repository@)
        },
        ThreadClause::Beyond { key, direction, ts, id } => {
            let column = match key {
                SortKey::CreatedAt => "threads.created_at_ms"@,
                SortKey::UpdatedAt => "threads.updated_at_ms"@,
                SortKey::RecencyAt => "threads.recency_at_ms"@,
                SortKey::SectionPosition => "threads.section_position"@,
            };
            let sign = if direction == SortDirection::Desc {
                "<"@
            } else {
                ">"@
            };
            &&& id is None ==> text == " AND ("@ + column + " "@ + sign + " "@ + "?"@ + ")"@ && binds == seq![SqlBindView::Integer(ts)]
            &&& id is Some ==> {
                &&& text == " AND ("@ + column + " "@ + sign + " "@ + "?"@ + " OR ("@ + column + " = "@ + "?"@ + " AND threads.id "@ + sign + " "@ + "?"@ + ")"@ + ")"@
                &&& binds == seq![SqlBindView::Integer(ts), SqlBindView::Integer(ts), SqlBindView::Text(uuid_text(id->0.value))]
            }
        },
    }
}

/// So many placeholders, separated by commas.
pub open spec fn placeholders(n: nat) -> Seq<char>
    decreases n,
{
    if n == 0 {
        Seq::empty()
    } else if n == 1 {
        "?"@
    } else {
        placeholders((n - 1) as nat) + ", "@ + "?"@
    }
}

/// The values are the texts, in order.
pub open spec fn binds_texts(binds: Seq<SqlBindView>, texts: Seq<String>) -> bool {
    binds.len() == texts.len() && forall|i: int| 0 <= i < texts.len() ==> #[trigger] binds[i] == SqlBindView::Text(texts[i]@)
}

proof fn lemma_listed(query: SqlQueryView, texts: Seq<String>, n: nat)
    requires
        n <= texts.len(),
    ensures
        query.listed(texts, n).text == query.text + placeholders(n),
        query.listed(texts, n).binds.len() == query.binds.len() + n,
        query.listed(texts, n).binds.take(query.binds.len() as int) == query.binds,
        forall|i: int| 0 <= i < n ==> #[trigger] query.listed(texts, n).binds[query.binds.len() + i] == SqlBindView::Text(texts[i]@),
    decreases n,
{
    let after = query.listed(texts, n);
    if n > 0 {
        lemma_listed(query, texts, (n - 1) as nat);
        let before = query.listed(texts, (n - 1) as nat);
        assert(before.binds =~= after.binds.take(before.binds.len() as int));
        if n == 1 {
            assert(placeholders(0) =~= Seq::empty());
            assert(after.text =~= query.text + placeholders(n));
        } else {
            assert(after.text =~= query.text + placeholders(n));
        }
        assert(after.binds.take(query.binds.len() as int) =~= query.binds) by {
            assert(before.binds.take(query.binds.len() as int) =~= query.binds);
            assert forall|i: int| 0 <= i < query.binds.len() implies after.binds[i] == query.binds[i] by {
                assert(before.binds[i] == before.binds.take(query.binds.len() as int)[i]);
            }
        }
        assert forall|i: int| 0 <= i < n implies #[trigger] after.binds[query.binds.len() + i] == SqlBindView::Text(texts[i]@) by {
            if i < n - 1 {
                assert(before.binds[query.binds.len() + i] == SqlBindView::Text(texts[i]@));
            }
        }
    } else {
        assert(after.binds.take(query.binds.len() as int) =~= query.binds);
        assert(after.text =~= query.text + placeholders(0));
    }
}

/// `after` is `before` with the text and the values behind it.
spec fn extends(before: SqlQueryView, after: SqlQueryView, text: Seq<char>, binds: Seq<SqlBindView>) -> bool {
    after.text == before.text + text && after.binds == before.binds + binds
}

proof fn lemma_push(before: SqlQueryView, after: SqlQueryView, text: Seq<char>, binds: Seq<SqlBindView>, more: Seq<char>)
    requires
        extends(before, after, text, binds),
    ensures
        extends(before, after.pushed(more), text + more, binds),
{
    assert(after.pushed(more).text =~= before.text + (text + more));
}

proof fn lemma_bind(before: SqlQueryView, after: SqlQueryView, text: Seq<char>, binds: Seq<SqlBindView>, bind: SqlBindView)
    requires
        extends(before, after, text, binds),
    ensures
        extends(before, after.bound(bind), text + "?"@, binds.push(bind)),
{
    assert(after.bound(bind).text =~= before.text + (text + "?"@));
    assert(after.bound(bind).binds =~= before.binds + binds.push(bind));
}

proof fn lemma_start(before: SqlQueryView, text: Seq<char>)
    ensures
        extends(before, before.pushed(text), text, Seq::empty()),
{
    assert(before.binds + Seq::empty() =~= before.binds);
}

proof fn lemma_extended(before: SqlQueryView, after: SqlQueryView, text: Seq<char>, binds: Seq<SqlBindView>)
    requires
        extends(before, after, text, binds),
    ensures
        after.text.take(before.text.len() as int) == before.text,
        after.text.skip(before.text.len() as int) == text,
        after.binds.take(before.binds.len() as int) == before.binds,
        after.binds.skip(before.binds.len() as int) == binds,
{
    assert(after.text.take(before.text.len() as int) =~= before.text);
    assert(after.text.skip(before.text.len() as int) =~= text);
    assert(after.binds.take(before.binds.len() as int) =~= before.binds);
    assert(after.binds.skip(before.binds.len() as int) =~= binds);
}

proof fn lemma_beyond(before: SqlQueryView, key: SortKey, direction: SortDirection, ts: i64, id: Option<ThreadId>)
    ensures
        gains(before, super::query::with_clause(before, ThreadClause::Beyond { key, direction, ts, id }), ThreadClause::Beyond { key, direction, ts, id }),
{
    let column = super::query::column_text(key);
    let sign = super::query::operator_text(direction);
    let none = Seq::<SqlBindView>::empty();
    let q1 = before.pushed(" AND ("@);
    let t1 = " AND ("@;
    lemma_start(before, t1);
    let q2 = q1.pushed(column);
    let t2 = t1 + column;
    lemma_push(before, q1, t1, none, column);
    let q3 = q2.pushed(" "@);
    let t3 = t2 + " "@;
    lemma_push(before, q2, t2, none, " "@);
    let q4 = q3.pushed(sign);
    let t4 = t3 + sign;
    lemma_push(before, q3, t3, none, sign);
    let q5 = q4.pushed(" "@);
    let t5 = t4 + " "@;
    lemma_push(before, q4, t4, none, " "@);
    let q6 = q5.bound(SqlBindView::Integer(ts));
    let t6 = t5 + "?"@;
    let b6 = none.push(SqlBindView::Integer(ts));
    lemma_bind(before, q5, t5, none, SqlBindView::Integer(ts));
    match id {
        None => {
            let q7 = q6.pushed(")"@);
            lemma_push(before, q6, t6, b6, ")"@);
            lemma_extended(before, q7, t6 + ")"@, b6);
            assert(b6 =~= seq![SqlBindView::Integer(ts)]);
        },
        Some(id) => {
            let q7 = q6.pushed(" OR ("@);
            let t7 = t6 + " OR ("@;
            lemma_push(before, q6, t6, b6, " OR ("@);
            let q8 = q7.pushed(column);
            let t8 = t7 + column;
            lemma_push(before, q7, t7, b6, column);
            let q9 = q8.pushed(" = "@);
            let t9 = t8 + " = "@;
            lemma_push(before, q8, t8, b6, " = "@);
            let q10 = q9.bound(SqlBindView::Integer(ts));
            let t10 = t9 + "?"@;
            let b10 = b6.push(SqlBindView::Integer(ts));
            lemma_bind(before, q9, t9, b6, SqlBindView::Integer(ts));
            let q11 = q10.pushed(" AND threads.id "@);
            let t11 = t10 + " AND threads.id "@;
            lemma_push(before, q10, t10, b10, " AND threads.id "@);
            let q12 = q11.pushed(sign);
            let t12 = t11 + sign;
            lemma_push(before, q11, t11, b10, sign);
            let q13 = q12.pushed(" "@);
            let t13 = t12 + " "@;
            lemma_push(before, q12, t12, b10, " "@);
            let bind = SqlBindView::Text(uuid_text(id.value));
            let q14 = q13.bound(bind);
            let t14 = t13 + "?"@;
            let b14 = b10.push(bind);
            lemma_bind(before, q13, t13, b10, bind);
            let q15 = q14.pushed(")"@);
            let t15 = t14 + ")"@;
            lemma_push(before, q14, t14, b14, ")"@);
            let q16 = q15.pushed(")"@);
            lemma_push(before, q15, t15, b14, ")"@);
            lemma_extended(before, q16, t15 + ")"@, b14);
            assert(b14 =~= seq![SqlBindView::Integer(ts), SqlBindView::Integer(ts), bind]);
        },
    }
}

proof fn lemma_mentions(before: SqlQueryView, term: &str)
    ensures
        gains(before, super::query::with_clause(before, ThreadClause::Mentions(term)), ThreadClause::Mentions(term)),
{
    let none = Seq::<SqlBindView>::empty();
    let bind = SqlBindView::Text(term@);
    let t1 = " AND (instr(COALESCE(threads.name, ''), "@;
    let q1 = before.pushed(t1);
    lemma_start(before, t1);
    let q2 = q1.bound(bind);
    lemma_bind(before, q1, t1, none, bind);
    let t2 = t1 + "?"@;
    let q3 = q2.pushed(") > 0 OR instr(threads.title, "@);
    let t3 = t2 + ") > 0 OR instr(threads.title, "@;
    lemma_push(before, q2, t2, none.push(bind), ") > 0 OR instr(threads.title, "@);
    let q4 = q3.bound(bind);
    let t4 = t3 + "?"@;
    lemma_bind(before, q3, t3, none.push(bind), bind);
    let q5 = q4.pushed(") > 0 OR instr(threads.preview, "@);
    let t5 = t4 + ") > 0 OR instr(threads.preview, "@;
    lemma_push(before, q4, t4, none.push(bind).push(bind), ") > 0 OR instr(threads.preview, "@);
    let q6 = q5.bound(bind);
    let t6 = t5 + "?"@;
    lemma_bind(before, q5, t5, none.push(bind).push(bind), bind);
    let q7 = q6.pushed(") > 0)"@);
    let all = none.push(bind).push(bind).push(bind);
    lemma_push(before, q6, t6, all, ") > 0)"@);
    lemma_extended(before, q7, t6 + ") > 0)"@, all);
    assert(all =~= seq![bind, bind, bind]);
}

proof fn lemma_directory_or_repository(before: SqlQueryView, cwds: &[String], repository: &str)
    ensures
        gains(
            before,
            super::query::with_clause(before, ThreadClause::CwdInOrRepository { cwds, repository }),
            ThreadClause::CwdInOrRepository { cwds, repository },
        ),
{
    let longer = super::query::with_clause(before, ThreadClause::CwdInOrRepository { cwds, repository });
    let added = before.text.len() as int;
    let known = before.binds.len() as int;
    let text = longer.text.skip(added);
    let binds = longer.binds.skip(known);
    let start = " AND (threads.cwd IN ("@;
    let closed = before.pushed(start).listed(cwds@, cwds@.len()).pushed(") OR threads.repository_identity = "@);
    lemma_in_list(before, start, cwds@, ") OR threads.repository_identity = "@);
    assert(longer.text =~= closed.text + ("?"@ + ")"@));
    assert(longer.text.take(added) =~= closed.text.take(added));
    assert(longer.binds.take(known) =~= closed.binds.take(known));
    assert(binds.drop_last() =~= closed.binds.skip(known));
    let part = closed.text.skip(added);
    assert(text =~= part + "?"@ + ")"@);
}

proof fn lemma_gains(shorter: SqlQueryView, longer: SqlQueryView, clause: ThreadClause)
    requires
        longer == super::query::with_clause(shorter, clause),
    ensures
        gains(shorter, longer, clause),
{
    match clause {
        ThreadClause::SourceIn(sources) => {
            lemma_in_list(shorter, " AND threads.source IN ("@, sources@, ")"@);
        },
        ThreadClause::ProviderIn(providers) => {
            lemma_in_list(shorter, " AND threads.model_provider IN ("@, providers@, ")"@);
        },
        ThreadClause::CwdIn(cwds) => {
            lemma_in_list(shorter, " AND threads.cwd IN ("@, cwds@, ")"@);
        },
        ThreadClause::CwdInOrRepository { cwds, repository } => {
            lemma_directory_or_repository(shorter, cwds, repository);
        },
        ThreadClause::Beyond { key, direction, ts, id } => {
            lemma_beyond(shorter, key, direction, ts, id);
        },
        ThreadClause::Mentions(term) => {
            lemma_mentions(shorter, term);
        },
        ThreadClause::InSection(section) => {
            lemma_one_value(shorter, " AND threads.thread_section_id = "@, SqlBindView::Text(section@));
        },
        ThreadClause::RepositoryIs(repository) => {
            lemma_one_value(shorter, " AND threads.repository_identity = "@, SqlBindView::Text(repository@));
        },
        ThreadClause::TitleIs(title) => {
            lemma_one_value(shorter, " AND threads.title = "@, SqlBindView::Text(title@));
        },
        ThreadClause::CwdIs(cwd) => {
            lemma_one_value(shorter, " AND threads.cwd = "@, SqlBindView::Text(cwd@));
        },
        ThreadClause::Archived(archived) => {
            lemma_no_value(
                shorter,
                if archived {
                    " AND threads.archived = 1"@
                } else {
                    " AND threads.archived = 0"@
                },
            );
        },
        ThreadClause::HasPreview => {
            lemma_no_value(shorter, " AND threads.preview <> ''"@);
        },
        ThreadClause::NoSection => {
            lemma_no_value(shorter, " AND threads.thread_section_id IS NULL"@);
        },
        ThreadClause::Never => {
            lemma_no_value(shorter, " AND 1 = 0"@);
        },
    }
}

proof fn lemma_no_value(query: SqlQueryView, text: Seq<char>)
    ensures
        query.pushed(text).text.take(query.text.len() as int) == query.text,
        query.pushed(text).text.skip(query.text.len() as int) == text,
        query.pushed(text).binds.take(query.binds.len() as int) == query.binds,
        query.pushed(text).binds.skip(query.binds.len() as int).len() == 0,
{
    assert(query.pushed(text).text.take(query.text.len() as int) =~= query.text);
    assert(query.pushed(text).text.skip(query.text.len() as int) =~= text);
    assert(query.pushed(text).binds.take(query.binds.len() as int) =~= query.binds);
}

proof fn lemma_one_value(query: SqlQueryView, text: Seq<char>, bind: SqlBindView)
    ensures
        query.pushed(text).bound(bind).text.take(query.text.len() as int) == query.text,
        query.pushed(text).bound(bind).text.skip(query.text.len() as int) == text + "?"@,
        query.pushed(text).bound(bind).binds.take(query.binds.len() as int) == query.binds,
        query.pushed(text).bound(bind).binds.skip(query.binds.len() as int) == seq![bind],
{
    let after = query.pushed(text).bound(bind);
    assert(after.text.take(query.text.len() as int) =~= query.text);
    assert(after.text.skip(query.text.len() as int) =~= text + "?"@);
    assert(after.binds.take(query.binds.len() as int) =~= query.binds);
    assert(after.binds.skip(query.binds.len() as int) =~= seq![bind]);
}

proof fn lemma_in_list(query: SqlQueryView, start: Seq<char>, texts: Seq<String>, end: Seq<char>)
    ensures
        ({
            let after = query.pushed(start).listed(texts, texts.len()).pushed(end);
            &&& query.text.len() <= after.text.len()
            &&& query.binds.len() <= after.binds.len()
            &&& after.text.take(query.text.len() as int) == query.text
            &&& after.binds.take(query.binds.len() as int) == query.binds
            &&& after.text.skip(query.text.len() as int) == start + placeholders(texts.len()) + end
            &&& binds_texts(after.binds.skip(query.binds.len() as int), texts)
        }),
{
    let started = query.pushed(start);
    let listed = started.listed(texts, texts.len());
    let after = listed.pushed(end);
    lemma_listed(started, texts, texts.len());
    assert(after.text =~= query.text + (start + placeholders(texts.len()) + end));
    assert(after.text.take(query.text.len() as int) =~= query.text);
    assert(after.text.skip(query.text.len() as int) =~= start + placeholders(texts.len()) + end);
    assert(after.binds.take(query.binds.len() as int) =~= query.binds);
    let binds = after.binds.skip(query.binds.len() as int);
    assert forall|i: int| 0 <= i < texts.len() implies #[trigger] binds[i] == SqlBindView::Text(texts[i]@) by {
        assert(listed.binds[started.binds.len() + i] == SqlBindView::Text(texts[i]@));
    }
}

} // verus!
