//! Laws of reading logs, told in the fields of the logs that are read.

use super::like::like;
use super::like::like_part;
use super::like::like_tokens;
use super::like::LikeToken;
use super::query::escapes_patterns;
use super::query::log_matches;
use super::query::matching_logs;
use super::query::queried_logs;
use super::query::upper_text;
use super::LogQuery;
use super::LogRow;
use super::LogStore;
use super::LogStoreError;
use super::LogStoreView;
use super::StoredLog;
use crate::sequences::lemma_filter_members;
use crate::text::ascii_upper;
use crate::text::has_part;
use crate::text::holds_text;
use crate::text::occurs_at;
use vstd::prelude::*;

verus! {

/// Both characters are the same but for the case of ASCII letters.
pub open spec fn same_letter(a: char, b: char) -> bool {
    ||| a == b
    ||| 'a' <= a <= 'z' && b as u32 + 32 == a as u32
    ||| 'a' <= b <= 'z' && a as u32 + 32 == b as u32
}

/// From position `at` on the text reads as `filter` does, whatever the case of ASCII letters; an
/// underscore in `filter` stands for any one character.
pub open spec fn reads_like(text: Seq<char>, filter: Seq<char>, at: int) -> bool {
    &&& 0 <= at
    &&& at + filter.len() <= text.len()
    &&& forall|p: int| 0 <= p < filter.len() ==> #[trigger] filter[p] == '_' || same_letter(text[at + p], filter[p])
}

/// The filter holds nothing that stands for text of any length and, where a backslash escapes, none.
pub open spec fn is_plain_filter(filter: Seq<char>, escapes: bool) -> bool {
    forall|p: int| 0 <= p < filter.len() ==> #[trigger] filter[p] != '%' && (escapes ==> filter[p] != '\\')
}

pub(crate) proof fn lemma_same_letter(a: char, b: char)
    ensures
        ascii_upper(a) == ascii_upper(b) <==> same_letter(a, b),
{
    vstd::utf8::char_u32_cast(a, a as u32);
    vstd::utf8::char_u32_cast(b, b as u32);
    if 'a' <= a <= 'z' {
        vstd::utf8::char_u32_cast(ascii_upper(a), (a as u32 - 32) as u32);
    }
    if 'a' <= b <= 'z' {
        vstd::utf8::char_u32_cast(ascii_upper(b), (b as u32 - 32) as u32);
    }
}

spec fn plain_tokens(filter: Seq<char>) -> Seq<LikeToken> {
    filter.map_values(|c: char| super::like::token_of(c))
}

proof fn lemma_plain_tokens(filter: Seq<char>, escapes: bool)
    requires
        is_plain_filter(filter, escapes),
    ensures
        like_tokens(filter + seq!['%'], escapes) == plain_tokens(filter) + seq![LikeToken::AnyText],
    decreases filter.len(),
{
    let pattern = filter + seq!['%'];
    if filter.len() == 0 {
        assert(pattern.skip(1) =~= Seq::empty());
        assert(pattern[0] == '%');
        assert(like_tokens(pattern.skip(1), escapes) =~= Seq::empty());
        assert(like_tokens(pattern, escapes) =~= plain_tokens(filter) + seq![LikeToken::AnyText]);
    } else {
        let rest = filter.skip(1);
        assert forall|p: int| 0 <= p < rest.len() implies #[trigger] rest[p] != '%' && (escapes ==> rest[p] != '\\') by {
            assert(rest[p] == filter[p + 1]);
        }
        lemma_plain_tokens(rest, escapes);
        assert(pattern[0] == filter[0]);
        assert(pattern.skip(1) =~= rest + seq!['%']);
        assert(like_tokens(pattern, escapes) =~= plain_tokens(filter) + seq![LikeToken::AnyText]);
    }
}

proof fn lemma_any_text(text: Seq<char>)
    ensures
        like(text, seq![LikeToken::AnyText]),
    decreases text.len(),
{
    let tokens = seq![LikeToken::AnyText];
    assert(tokens.skip(1) =~= Seq::empty());
    assert(text.len() == 0 ==> like(text, tokens.skip(1)));
    if text.len() > 0 {
        lemma_any_text(text.skip(1));
    }
}

proof fn lemma_plain_start(text: Seq<char>, filter: Seq<char>, escapes: bool)
    requires
        is_plain_filter(filter, escapes),
    ensures
        like(text, plain_tokens(filter) + seq![LikeToken::AnyText]) <==> reads_like(text, filter, 0),
    decreases filter.len(),
{
    let tokens = plain_tokens(filter) + seq![LikeToken::AnyText];
    if filter.len() == 0 {
        assert(tokens =~= seq![LikeToken::AnyText]);
        lemma_any_text(text);
    } else if text.len() > 0 {
        let rest = filter.skip(1);
        let tail = text.skip(1);
        assert forall|p: int| 0 <= p < rest.len() implies #[trigger] rest[p] != '%' && (escapes ==> rest[p] != '\\') by {
            assert(rest[p] == filter[p + 1]);
        }
        assert(filter[0] != '%');
        lemma_plain_start(tail, rest, escapes);
        lemma_same_letter(text[0], filter[0]);
        assert(tokens.skip(1) =~= plain_tokens(rest) + seq![LikeToken::AnyText]);
        if reads_like(text, filter, 0) {
            assert(filter[0] == '_' || same_letter(text[0], filter[0]));
            assert forall|p: int| 0 <= p < rest.len() implies #[trigger] rest[p] == '_' || same_letter(tail[0 + p], rest[p]) by {
                assert(rest[p] == filter[p + 1]);
            }
        }
        if reads_like(tail, rest, 0) && (filter[0] == '_' || same_letter(text[0], filter[0])) {
            assert forall|p: int| 0 <= p < filter.len() implies #[trigger] filter[p] == '_' || same_letter(text[0 + p], filter[p]) by {
                if p > 0 {
                    assert(rest[p - 1] == filter[p]);
                    assert(tail[0 + (p - 1)] == text[p]);
                }
            }
        }
    }
}

proof fn lemma_plain_anywhere(text: Seq<char>, filter: Seq<char>, escapes: bool)
    requires
        is_plain_filter(filter, escapes),
    ensures
        like(text, seq![LikeToken::AnyText] + plain_tokens(filter) + seq![LikeToken::AnyText]) <==> exists|at: int| reads_like(text, filter, at),
    decreases text.len(),
{
    let tokens = seq![LikeToken::AnyText] + plain_tokens(filter) + seq![LikeToken::AnyText];
    assert(tokens.skip(1) =~= plain_tokens(filter) + seq![LikeToken::AnyText]);
    lemma_plain_start(text, filter, escapes);
    if text.len() > 0 {
        let tail = text.skip(1);
        lemma_plain_anywhere(tail, filter, escapes);
        if exists|at: int| reads_like(tail, filter, at) {
            let at = choose|at: int| reads_like(tail, filter, at);
            assert forall|p: int| 0 <= p < filter.len() implies #[trigger] filter[p] == '_' || same_letter(text[at + 1 + p], filter[p]) by {
                assert(tail[at + p] == text[at + 1 + p]);
            }
            assert(reads_like(text, filter, at + 1));
        }
        if exists|at: int| reads_like(text, filter, at) {
            let at = choose|at: int| reads_like(text, filter, at);
            if at > 0 {
                assert forall|p: int| 0 <= p < filter.len() implies #[trigger] filter[p] == '_' || same_letter(tail[at - 1 + p], filter[p]) by {
                    assert(tail[at - 1 + p] == text[at + p]);
                }
                assert(reads_like(tail, filter, at - 1));
            }
        }
    } else if exists|at: int| reads_like(text, filter, at) {
        let at = choose|at: int| reads_like(text, filter, at);
        assert(at == 0);
    }
}

/// A text matches a filter without `%`, and without backslashes where they escape, exactly if somewhere it
/// reads as the filter does, whatever the case of ASCII letters.
pub proof fn law_filter_occurs_in_what_it_matches(text: &str, filter: &str, escapes: bool, matched: bool)
    requires
        call_ensures(super::is_like_part, (text, filter, escapes), matched),
        is_plain_filter(filter@, escapes),
    ensures
        matched <==> exists|at: int| reads_like(text@, filter@, at),
{
    lemma_like_part(text@, filter@, escapes);
}

/// Every character behind a backslash.
pub open spec fn escaped(filter: Seq<char>) -> Seq<char>
    decreases filter.len(),
{
    if filter.len() == 0 {
        Seq::empty()
    } else {
        seq!['\\', filter[0]] + escaped(filter.skip(1))
    }
}

/// From position `at` on the text reads as `filter` does, whatever the case of ASCII letters.
pub open spec fn reads_literally(text: Seq<char>, filter: Seq<char>, at: int) -> bool {
    &&& 0 <= at
    &&& at + filter.len() <= text.len()
    &&& forall|p: int| 0 <= p < filter.len() ==> same_letter(text[at + p], #[trigger] filter[p])
}

/// Where backslashes escape, a text matches a filter of escaped characters exactly if somewhere it reads as
/// they do: none of them stands for any other.
pub proof fn law_escaped_filter_is_literal(text: &str, filter: &str, plain: Seq<char>, matched: bool)
    requires
        call_ensures(super::is_like_part, (text, filter, true), matched),
        filter@ == escaped(plain),
    ensures
        matched <==> exists|at: int| reads_literally(text@, plain, at),
{
    let pattern = seq!['%'] + filter@ + seq!['%'];
    lemma_escaped_tokens(plain);
    lemma_literal_anywhere(text@, plain);
    assert(pattern.skip(1) =~= filter@ + seq!['%']);
    assert(pattern[0] == '%');
    assert(like_tokens(pattern, true) =~= seq![LikeToken::AnyText] + literal_tokens(plain) + seq![LikeToken::AnyText]);
}

spec fn literal_tokens(filter: Seq<char>) -> Seq<LikeToken> {
    filter.map_values(|c: char| literal_token(c))
}

spec fn literal_token(c: char) -> LikeToken {
    LikeToken::Literal(c)
}

proof fn lemma_escaped_tokens(filter: Seq<char>)
    ensures
        like_tokens(escaped(filter) + seq!['%'], true) == literal_tokens(filter) + seq![LikeToken::AnyText],
    decreases filter.len(),
{
    let pattern = escaped(filter) + seq!['%'];
    if filter.len() == 0 {
        assert(pattern.skip(1) =~= Seq::empty());
        assert(pattern[0] == '%');
        assert(like_tokens(pattern.skip(1), true) =~= Seq::empty());
        assert(like_tokens(pattern, true) =~= literal_tokens(filter) + seq![LikeToken::AnyText]);
    } else {
        let rest = filter.skip(1);
        lemma_escaped_tokens(rest);
        assert(pattern[0] == '\\' && pattern[1] == filter[0]);
        assert(pattern.len() > 1);
        assert(pattern.skip(2) =~= escaped(rest) + seq!['%']);
        let first = seq![LikeToken::Literal(pattern[1])];
        assert(like_tokens(pattern, true) == first + like_tokens(pattern.skip(2), true));
        assert(literal_tokens(filter) =~= first + literal_tokens(rest)) by {
            assert(literal_tokens(filter)[0] == literal_token(filter[0]));
            assert forall|i: int| 0 <= i < rest.len() implies literal_tokens(filter)[i + 1] == #[trigger] literal_tokens(rest)[i] by {
                assert(rest[i] == filter[i + 1]);
            }
        }
        assert(like_tokens(pattern, true) =~= literal_tokens(filter) + seq![LikeToken::AnyText]);
    }
}

proof fn lemma_literal_start(text: Seq<char>, filter: Seq<char>)
    ensures
        like(text, literal_tokens(filter) + seq![LikeToken::AnyText]) <==> reads_literally(text, filter, 0),
    decreases filter.len(),
{
    let tokens = literal_tokens(filter) + seq![LikeToken::AnyText];
    if filter.len() == 0 {
        assert(tokens =~= seq![LikeToken::AnyText]);
        lemma_any_text(text);
    } else if text.len() > 0 {
        let rest = filter.skip(1);
        let tail = text.skip(1);
        lemma_literal_start(tail, rest);
        lemma_same_letter(text[0], filter[0]);
        assert(tokens.skip(1) =~= literal_tokens(rest) + seq![LikeToken::AnyText]);
        if reads_literally(text, filter, 0) {
            assert(same_letter(text[0 + 0int], filter[0]));
            assert forall|p: int| 0 <= p < rest.len() implies same_letter(tail[0 + p], #[trigger] rest[p]) by {
                assert(rest[p] == filter[p + 1]);
            }
        }
        if reads_literally(tail, rest, 0) && same_letter(text[0], filter[0]) {
            assert forall|p: int| 0 <= p < filter.len() implies same_letter(text[0 + p], #[trigger] filter[p]) by {
                if p > 0 {
                    assert(rest[p - 1] == filter[p]);
                    assert(tail[0 + (p - 1)] == text[p]);
                }
            }
        }
    }
}

proof fn lemma_literal_anywhere(text: Seq<char>, filter: Seq<char>)
    ensures
        like(text, seq![LikeToken::AnyText] + literal_tokens(filter) + seq![LikeToken::AnyText]) <==> exists|at: int| reads_literally(text, filter, at),
    decreases text.len(),
{
    let tokens = seq![LikeToken::AnyText] + literal_tokens(filter) + seq![LikeToken::AnyText];
    assert(tokens.skip(1) =~= literal_tokens(filter) + seq![LikeToken::AnyText]);
    lemma_literal_start(text, filter);
    if text.len() > 0 {
        let tail = text.skip(1);
        lemma_literal_anywhere(tail, filter);
        if exists|at: int| reads_literally(tail, filter, at) {
            let at = choose|at: int| reads_literally(tail, filter, at);
            assert forall|p: int| 0 <= p < filter.len() implies same_letter(text[at + 1 + p], #[trigger] filter[p]) by {
                assert(tail[at + p] == text[at + 1 + p]);
            }
            assert(reads_literally(text, filter, at + 1));
        }
        if exists|at: int| reads_literally(text, filter, at) {
            let at = choose|at: int| reads_literally(text, filter, at);
            if at > 0 {
                assert forall|p: int| 0 <= p < filter.len() implies same_letter(tail[at - 1 + p], #[trigger] filter[p]) by {
                    assert(tail[at - 1 + p] == text[at + p]);
                }
                assert(reads_literally(tail, filter, at - 1));
            }
        }
    } else if exists|at: int| reads_literally(text, filter, at) {
        let at = choose|at: int| reads_literally(text, filter, at);
        assert(at == 0);
    }
}

proof fn lemma_like_part(text: Seq<char>, filter: Seq<char>, escapes: bool)
    requires
        is_plain_filter(filter, escapes),
    ensures
        like_part(text, filter, escapes) <==> exists|at: int| reads_like(text, filter, at),
{
    let pattern = seq!['%'] + filter + seq!['%'];
    lemma_plain_tokens(filter, escapes);
    lemma_plain_anywhere(text, filter, escapes);
    assert(pattern.skip(1) =~= filter + seq!['%']);
    assert(pattern[0] == '%');
    assert(like_tokens(pattern, escapes) =~= seq![LikeToken::AnyText] + plain_tokens(filter) + seq![LikeToken::AnyText]);
}

pub(crate) proof fn lemma_queried(store: LogStoreView, query: LogQuery, i: int) -> (k: int)
    requires
        0 <= i < queried_logs(store, query).len(),
    ensures
        0 <= k < store.rows.len(),
        store.rows[k] == queried_logs(store, query)[i],
        log_matches(store.backend, query, store.rows[k]),
{
    let wanted = |row: StoredLog| log_matches(store.backend, query, row);
    let matching = matching_logs(store, query);
    let row = queried_logs(store, query)[i];
    assert(matching.contains(row)) by {
        if query.descending {
            assert(row == matching[matching.len() - 1 - i]);
        } else {
            assert(row == matching[i]);
        }
    }
    lemma_filter_members(store.rows, wanted, row);
    choose|k: int| 0 <= k < store.rows.len() && store.rows[k] == row
}

/// Every log that is read was recorded, and is read as it was recorded.
pub proof fn law_read_logs_are_recorded_ones(store: &LogStore, query: &LogQuery, rows: Vec<LogRow>, i: int)
    requires
        call_ensures(LogStore::query_logs, (store, query), Ok::<Vec<LogRow>, LogStoreError>(rows)),
        0 <= i < rows@.len(),
    ensures
        exists|k: int| {
            &&& 0 <= k < store@.rows.len()
            &&& #[trigger] store@.rows[k].id == rows@[i].id
            &&& store@.rows[k].ts == rows@[i].ts
            &&& store@.rows[k].ts_nanos == rows@[i].ts_nanos
            &&& store@.rows[k].level == rows@[i].level
            &&& store@.rows[k].target == rows@[i].target
            &&& store@.rows[k].body == rows@[i].message
            &&& store@.rows[k].thread_id == rows@[i].thread_id
            &&& store@.rows[k].process_uuid == rows@[i].process_uuid
            &&& store@.rows[k].file == rows@[i].file
            &&& store@.rows[k].line == rows@[i].line
        },
{
    let k = lemma_queried(store@, *query, i);
    assert(store@.rows[k].id == rows@[i].id);
}

/// Every log that is read lies between the wanted times, both included, and after the wanted
/// identifier.
pub proof fn law_read_logs_are_in_the_wanted_range(store: &LogStore, query: &LogQuery, rows: Vec<LogRow>, i: int)
    requires
        call_ensures(LogStore::query_logs, (store, query), Ok::<Vec<LogRow>, LogStoreError>(rows)),
        0 <= i < rows@.len(),
    ensures
        query.from_ts is Some ==> rows@[i].ts >= query.from_ts->0,
        query.to_ts is Some ==> rows@[i].ts <= query.to_ts->0,
        query.after_id is Some ==> rows@[i].id > query.after_id->0,
{
    let _ = lemma_queried(store@, *query, i);
}

/// Every log that is read has one of the wanted levels, is of a wanted thread (or of none, where
/// those are wanted), and holds the searched text.
pub proof fn law_read_logs_are_of_wanted_levels_and_threads(store: &LogStore, query: &LogQuery, rows: Vec<LogRow>, i: int)
    requires
        call_ensures(LogStore::query_logs, (store, query), Ok::<Vec<LogRow>, LogStoreError>(rows)),
        0 <= i < rows@.len(),
    ensures
        query.levels_upper@.len() > 0 ==> exists|j: int| {
            &&& 0 <= j < query.levels_upper@.len()
            &&& #[trigger] query.levels_upper@[j]@.len() == rows@[i].level@.len()
            &&& forall|p: int| #![trigger rows@[i].level@[p]] 0 <= p < rows@[i].level@.len() ==> same_letter(query.levels_upper@[j]@[p], rows@[i].level@[p])
                && !('a' <= query.levels_upper@[j]@[p] <= 'z')
        },
        query.thread_ids@.len() > 0 && !query.include_threadless ==> rows@[i].thread_id is Some,
        query.thread_ids@.len() > 0 && rows@[i].thread_id is Some ==> exists|j: int| 0 <= j < query.thread_ids@.len() && #[trigger] query.thread_ids@[j]@ == rows@[i].thread_id->0@,
        query.thread_ids@.len() == 0 && query.include_threadless ==> rows@[i].thread_id is None,
        query.search is Some && query.search->0@.len() > 0 ==> rows@[i].message is Some && exists|at: int|
            0 <= at <= rows@[i].message->0@.len() - query.search->0@.len() && #[trigger] rows@[i].message->0@.subrange(at, at + query.search->0@.len()) == query.search->0@,
{
    let k = lemma_queried(store@, *query, i);
    let row = store@.rows[k];
    let level = rows@[i].level@;
    if query.levels_upper@.len() > 0 {
        assert(holds_text(query.levels_upper@, upper_text(level)));
        let j = choose|j: int| 0 <= j < query.levels_upper@.len() && #[trigger] query.levels_upper@[j]@ == upper_text(level);
        assert(query.levels_upper@[j]@.len() == level.len());
        assert forall|p: int| #![trigger level[p]] 0 <= p < level.len() implies same_letter(query.levels_upper@[j]@[p], level[p]) && !('a' <= query.levels_upper@[j]@[p] <= 'z') by {
            lemma_upper_letter(level[p]);
        }
    }
    if query.search is Some && query.search->0@.len() > 0 {
        let body = if row.body is Some {
            row.body->0@
        } else {
            Seq::empty()
        };
        assert(has_part(body, query.search->0@));
        let at = choose|at: int| occurs_at(body, query.search->0@, at);
        assert(row.body is Some);
        assert(rows@[i].message->0@.subrange(at, at + query.search->0@.len()) == query.search->0@);
    }
}

proof fn lemma_upper_letter(c: char)
    ensures
        same_letter(ascii_upper(c), c),
        !('a' <= ascii_upper(c) <= 'z'),
{
    vstd::utf8::char_u32_cast(c, c as u32);
    if 'a' <= c <= 'z' {
        vstd::utf8::char_u32_cast(ascii_upper(c), (c as u32 - 32) as u32);
    }
}

/// Every log that is read comes from a wanted module and a wanted file: somewhere the name reads as
/// one of the filters does.
pub proof fn law_read_logs_are_of_wanted_modules_and_files(store: &LogStore, query: &LogQuery, rows: Vec<LogRow>, i: int)
    requires
        call_ensures(LogStore::query_logs, (store, query), Ok::<Vec<LogRow>, LogStoreError>(rows)),
        0 <= i < rows@.len(),
        forall|j: int| 0 <= j < query.module_like@.len() ==> is_plain_filter(#[trigger] query.module_like@[j]@, store@.backend is Postgresql),
        forall|j: int| 0 <= j < query.file_like@.len() ==> is_plain_filter(#[trigger] query.file_like@[j]@, store@.backend is Postgresql),
    ensures
        query.file_like@.len() > 0 ==> rows@[i].file is Some && exists|j: int, at: int|
            0 <= j < query.file_like@.len() && #[trigger] reads_like(rows@[i].file->0@, query.file_like@[j]@, at),
        query.module_like@.len() > 0 ==> exists|k: int, j: int, at: int| {
            &&& 0 <= k < store@.rows.len()
            &&& store@.rows[k].id == rows@[i].id
            &&& store@.rows[k].module is Some
            &&& 0 <= j < query.module_like@.len()
            &&& #[trigger] reads_like(store@.rows[k].module->0@, query.module_like@[j]@, at)
        },
{
    let k = lemma_queried(store@, *query, i);
    let row = store@.rows[k];
    let escapes = escapes_patterns(store@.backend);
    if query.file_like@.len() > 0 {
        let j = choose|j: int| 0 <= j < query.file_like@.len() && like_part(row.file->0@, #[trigger] query.file_like@[j]@, escapes);
        lemma_like_part(row.file->0@, query.file_like@[j]@, escapes);
        let at = choose|at: int| reads_like(row.file->0@, query.file_like@[j]@, at);
        assert(reads_like(rows@[i].file->0@, query.file_like@[j]@, at));
    }
    if query.module_like@.len() > 0 {
        let j = choose|j: int| 0 <= j < query.module_like@.len() && like_part(row.module->0@, #[trigger] query.module_like@[j]@, escapes);
        lemma_like_part(row.module->0@, query.module_like@[j]@, escapes);
        let at = choose|at: int| reads_like(row.module->0@, query.module_like@[j]@, at);
        assert(reads_like(store@.rows[k].module->0@, query.module_like@[j]@, at));
    }
}

/// Logs are read in the order of their identifiers, or backwards where that is wanted, each once and
/// no more than wanted.
pub proof fn law_logs_are_read_in_order(store: &LogStore, query: &LogQuery, rows: Vec<LogRow>)
    requires
        call_ensures(LogStore::query_logs, (store, query), Ok::<Vec<LogRow>, LogStoreError>(rows)),
        forall|i: int, j: int| #![trigger store@.rows[i], store@.rows[j]] 0 <= i < j < store@.rows.len() ==> store@.rows[i].id < store@.rows[j].id,
    ensures
        query.limit is Some ==> rows@.len() <= query.limit->0,
        !query.descending ==> forall|i: int, j: int| #![trigger rows@[i], rows@[j]] 0 <= i < j < rows@.len() ==> rows@[i].id < rows@[j].id,
        query.descending ==> forall|i: int, j: int| #![trigger rows@[i], rows@[j]] 0 <= i < j < rows@.len() ==> rows@[i].id > rows@[j].id,
{
    lemma_matching_grow(store@.rows, |row: StoredLog| log_matches(store@.backend, *query, row));
    let matching = matching_logs(store@, *query);
    let queried = queried_logs(store@, *query);
    assert forall|i: int, j: int| #![trigger rows@[i], rows@[j]] 0 <= i < j < rows@.len() implies if query.descending {
        rows@[i].id > rows@[j].id
    } else {
        rows@[i].id < rows@[j].id
    } by {
        if query.descending {
            assert(queried[i] == matching[matching.len() - 1 - i]);
            assert(queried[j] == matching[matching.len() - 1 - j]);
        } else {
            assert(queried[i] == matching[i] && queried[j] == matching[j]);
        }
    }
}

proof fn lemma_matching_grow(rows: Seq<StoredLog>, keep: spec_fn(StoredLog) -> bool)
    requires
        super::ids_grow(rows),
    ensures
        super::ids_grow(rows.filter(keep)),
    decreases rows.len(),
{
    reveal(Seq::filter);
    if rows.len() > 0 {
        let rest = rows.drop_last();
        assert(super::ids_grow(rest));
        lemma_matching_grow(rest, keep);
        let kept = rest.filter(keep);
        assert forall|i: int| 0 <= i < kept.len() implies (#[trigger] kept[i]).id < rows.last().id by {
            assert(kept.contains(kept[i]));
            lemma_filter_members(rest, keep, kept[i]);
            let k = choose|k: int| 0 <= k < rest.len() && rest[k] == kept[i];
            assert(rows[k] == kept[i]);
        }
    }
}

/// A recorded log that nothing in the query stands against is read, unless as many logs are read as
/// are wanted and all of them come before it.
pub proof fn law_wanted_log_is_read(store: &LogStore, query: &LogQuery, rows: Vec<LogRow>, k: int)
    requires
        call_ensures(LogStore::query_logs, (store, query), Ok::<Vec<LogRow>, LogStoreError>(rows)),
        forall|i: int, j: int| #![trigger store@.rows[i], store@.rows[j]] 0 <= i < j < store@.rows.len() ==> store@.rows[i].id < store@.rows[j].id,
        0 <= k < store@.rows.len(),
        query.from_ts is Some ==> query.from_ts->0 <= store@.rows[k].ts,
        query.to_ts is Some ==> store@.rows[k].ts <= query.to_ts->0,
        query.after_id is Some ==> query.after_id->0 < store@.rows[k].id,
        query.levels_upper@.len() == 0 || exists|j: int| {
            &&& 0 <= j < query.levels_upper@.len()
            &&& #[trigger] query.levels_upper@[j]@.len() == store@.rows[k].level@.len()
            &&& forall|p: int| #![trigger store@.rows[k].level@[p]] 0 <= p < store@.rows[k].level@.len() ==> same_letter(query.levels_upper@[j]@[p], store@.rows[k].level@[p])
                && !('a' <= query.levels_upper@[j]@[p] <= 'z')
        },
        query.module_like@.len() == 0 || store@.rows[k].module is Some && exists|j: int, at: int| {
            &&& 0 <= j < query.module_like@.len()
            &&& is_plain_filter(query.module_like@[j]@, store@.backend is Postgresql)
            &&& #[trigger] reads_like(store@.rows[k].module->0@, query.module_like@[j]@, at)
        },
        query.file_like@.len() == 0 || store@.rows[k].file is Some && exists|j: int, at: int| {
            &&& 0 <= j < query.file_like@.len()
            &&& is_plain_filter(query.file_like@[j]@, store@.backend is Postgresql)
            &&& #[trigger] reads_like(store@.rows[k].file->0@, query.file_like@[j]@, at)
        },
        query.search is None || query.search->0@.len() == 0 || store@.rows[k].body is Some && exists|at: int|
            0 <= at <= store@.rows[k].body->0@.len() - query.search->0@.len() && #[trigger] store@.rows[k].body->0@.subrange(at, at + query.search->0@.len()) == query.search->0@,
        ({
            ||| query.thread_ids@.len() == 0 && !query.include_threadless
            ||| store@.rows[k].thread_id is None && query.include_threadless
            ||| store@.rows[k].thread_id is Some && exists|j: int|
                0 <= j < query.thread_ids@.len() && #[trigger] query.thread_ids@[j]@ == store@.rows[k].thread_id->0@
        }),
    ensures
        ({
            ||| exists|i: int| 0 <= i < rows@.len() && (#[trigger] rows@[i]).id == store@.rows[k].id
            ||| query.limit == Some(rows@.len() as usize) && forall|i: int|
                0 <= i < rows@.len() ==> if query.descending {
                    (#[trigger] rows@[i]).id > store@.rows[k].id
                } else {
                    rows@[i].id < store@.rows[k].id
                }
        }),
{
    let row = store@.rows[k];
    let escapes = escapes_patterns(store@.backend);
    let wanted = |row: StoredLog| log_matches(store@.backend, *query, row);
    if query.levels_upper@.len() > 0 {
        let j = choose|j: int| {
            &&& 0 <= j < query.levels_upper@.len()
            &&& #[trigger] query.levels_upper@[j]@.len() == row.level@.len()
            &&& forall|p: int| #![trigger row.level@[p]] 0 <= p < row.level@.len() ==> same_letter(query.levels_upper@[j]@[p], row.level@[p])
                && !('a' <= query.levels_upper@[j]@[p] <= 'z')
        };
        let level = query.levels_upper@[j]@;
        assert forall|p: int| 0 <= p < level.len() implies level[p] == upper_text(row.level@)[p] by {
            assert(same_letter(level[p], row.level@[p]));
            lemma_same_letter(level[p], row.level@[p]);
        }
        assert(query.levels_upper@[j]@ =~= upper_text(row.level@));
    }
    if query.module_like@.len() > 0 {
        let (j, at) = choose|j: int, at: int| {
            &&& 0 <= j < query.module_like@.len()
            &&& is_plain_filter(query.module_like@[j]@, store@.backend is Postgresql)
            &&& #[trigger] reads_like(row.module->0@, query.module_like@[j]@, at)
        };
        lemma_like_part(row.module->0@, query.module_like@[j]@, escapes);
    }
    if query.file_like@.len() > 0 {
        let (j, at) = choose|j: int, at: int| {
            &&& 0 <= j < query.file_like@.len()
            &&& is_plain_filter(query.file_like@[j]@, store@.backend is Postgresql)
            &&& #[trigger] reads_like(row.file->0@, query.file_like@[j]@, at)
        };
        lemma_like_part(row.file->0@, query.file_like@[j]@, escapes);
    }
    if query.search is Some {
        let part = query.search->0@;
        if part.len() == 0 {
            let body = if row.body is Some {
                row.body->0@
            } else {
                Seq::empty()
            };
            assert(body.subrange(0, 0) =~= part);
            assert(occurs_at(body, part, 0));
        } else {
            let at = choose|at: int| 0 <= at <= row.body->0@.len() - part.len() && #[trigger] row.body->0@.subrange(at, at + part.len()) == part;
            assert(occurs_at(row.body->0@, part, at));
        }
    }
    assert(wanted(row));
    lemma_filter_members(store@.rows, wanted, row);
    lemma_matching_grow(store@.rows, wanted);
    let matching = matching_logs(store@, *query);
    let queried = queried_logs(store@, *query);
    let m = choose|m: int| 0 <= m < matching.len() && matching[m] == row;
    let place = if query.descending {
        matching.len() - 1 - m
    } else {
        m
    };
    if place < queried.len() {
        assert(queried[place] == row);
        assert(rows@[place].id == row.id);
    } else {
        assert forall|i: int| 0 <= i < rows@.len() implies if query.descending {
            (#[trigger] rows@[i]).id > row.id
        } else {
            rows@[i].id < row.id
        } by {
            if query.descending {
                assert(queried[i] == matching[matching.len() - 1 - i]);
            } else {
                assert(queried[i] == matching[i]);
            }
        }
    }
}

/// The greatest identifier of the wanted logs is the greatest that an unlimited read of them shows;
/// it is 0 where there are none.
pub proof fn law_greatest_identifier_is_read(store: &LogStore, query: &LogQuery, rows: Vec<LogRow>, id: i64)
    requires
        call_ensures(LogStore::query_logs, (store, query), Ok::<Vec<LogRow>, LogStoreError>(rows)),
        call_ensures(LogStore::max_log_id, (store, query), Ok::<i64, LogStoreError>(id)),
        query.limit is None,
    ensures
        rows@.len() == 0 ==> id == 0,
        rows@.len() > 0 ==> exists|i: int| 0 <= i < rows@.len() && (#[trigger] rows@[i]).id == id,
        forall|i: int| 0 <= i < rows@.len() ==> (#[trigger] rows@[i]).id <= id,
{
    let matching = matching_logs(store@, *query);
    let queried = queried_logs(store@, *query);
    assert(queried.len() == matching.len());
    if rows@.len() > 0 {
        let m = choose|m: int| 0 <= m < matching.len() && (#[trigger] matching[m]).id == id;
        let place = if query.descending {
            matching.len() - 1 - m
        } else {
            m
        };
        assert(queried[place] == matching[m]);
        assert(rows@[place].id == id);
        assert forall|i: int| 0 <= i < rows@.len() implies (#[trigger] rows@[i]).id <= id by {
            if query.descending {
                assert(queried[i] == matching[matching.len() - 1 - i]);
            } else {
                assert(queried[i] == matching[i]);
            }
        }
    }
}

/// Logs can be read unless the store was closed.
pub proof fn law_open_store_reads_logs(store: &LogStore, query: &LogQuery, read: Result<Vec<LogRow>, LogStoreError>, greatest: Result<i64, LogStoreError>)
    requires
        call_ensures(LogStore::query_logs, (store, query), read),
        call_ensures(LogStore::max_log_id, (store, query), greatest),
    ensures
        read is Err <==> store@.closed,
        greatest is Err <==> store@.closed,
{
}

} // verus!
