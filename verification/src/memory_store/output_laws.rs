//! Laws of the stage-one outputs: which are listed, selected, counted and dropped, told in their
//! fields.

use super::job_laws::runs_for;
use super::outputs::all_joined;
use super::outputs::first_bad_time;
use super::outputs::in_thread_order;
use super::outputs::is_among;
use super::outputs::known_entries;
use super::outputs::lists_for_global;
use super::outputs::occurrences;
use super::outputs::output_views;
use super::outputs::reads_outputs;
use super::outputs::retention;
use super::outputs::selects_for_phase2;
use super::outputs::threads_of;
use super::outputs::LeastRecentlyUsed;
use super::outputs::MostUsed;
use super::outputs::NewestSource;
use super::outputs::RecentOutputs;
use super::outputs::StaleOutputs;
use super::outputs::UsableOutputs;
use super::MemoryJobStatus;
use super::MemoryStore;
use super::MemoryStoreError;
use super::MemoryStoreView;
use super::Stage1Output;
use super::Stage1OutputRow;
use super::Stage1OutputRowView;
use crate::table::is_listing;
use crate::table::row_selected;
use crate::table::Table;
use crate::thread_id::ThreadId;
use crate::threads::ThreadRow;
use vstd::prelude::*;

verus! {

/// The output says something, and memory may be drawn from its thread: the thread is known, its mode
/// is `enabled`, and it was not polluted after that was recorded.
pub open spec fn may_be_used(output: Stage1OutputRowView, threads: Map<ThreadId, ThreadRow>) -> bool {
    &&& {
        ||| exists|i: int| 0 <= i < output.raw_memory.len() && #[trigger] output.raw_memory[i] != ' '
        ||| exists|i: int| 0 <= i < output.rollout_summary.len() && #[trigger] output.rollout_summary[i] != ' '
    }
    &&& threads.contains_key(output.thread_id)
    &&& threads[output.thread_id].memory_mode@ == "enabled"@
    &&& threads[output.thread_id].polluted_at_stream_version is None || threads[output.thread_id].polluted_at_stream_version->0
        <= threads[output.thread_id].memory_mode_ordinal
}

/// How often the output was used.
pub open spec fn times_used(output: Stage1OutputRowView) -> int {
    if output.usage_count is Some {
        output.usage_count->0 as int
    } else {
        0
    }
}

/// When the output was last used or, if it never was, when its source changed.
pub open spec fn fresh_as_of(output: Stage1OutputRowView) -> int {
    if output.last_usage is Some {
        output.last_usage->0 as int
    } else {
        output.source_updated_at as int
    }
}

/// The time that lies the given number of days back; negative days count as none.
pub open spec fn days_before(now: i64, days: i64) -> int {
    if days > 0 {
        now - days * 24 * 60 * 60
    } else {
        now as int
    }
}

/// What is listed is the output with the given row, told together with its thread.
pub open spec fn tells_of(output: Stage1Output, row: Stage1OutputRowView, thread: ThreadRow) -> bool {
    &&& output.thread_id == row.thread_id
    &&& output.source_updated_at == row.source_updated_at
    &&& output.raw_memory@ == row.raw_memory
    &&& output.rollout_summary@ == row.rollout_summary
    &&& output.rollout_slug is Some <==> row.rollout_slug is Some
    &&& output.rollout_slug is Some ==> output.rollout_slug->0@ == row.rollout_slug->0
    &&& output.generated_at == row.generated_at
    &&& output.rollout_path@ == thread.metadata.rollout_path@
    &&& output.cwd@ == thread.metadata.cwd@
    &&& output.git_branch is Some <==> thread.metadata.git_branch is Some
    &&& output.git_branch is Some ==> output.git_branch->0@ == thread.metadata.git_branch->0@
}

proof fn lemma_read(rows: Seq<Stage1OutputRowView>, threads: Map<ThreadId, ThreadRow>, outputs: Vec<Stage1Output>, i: int)
    requires
        reads_outputs(rows, threads, Ok::<Vec<Stage1Output>, MemoryStoreError>(outputs)),
        0 <= i < outputs@.len(),
    ensures
        rows.len() == outputs@.len(),
        tells_of(outputs@[i], rows[i], threads[rows[i].thread_id]),
{
    assert(output_views(outputs@).len() == all_joined(rows, threads).len());
    assert(output_views(outputs@)[i] == all_joined(rows, threads)[i]);
    assert(output_views(outputs@)[i] == outputs@[i]@);
}

proof fn lemma_usable(threads: &Table<ThreadRow>, row: Stage1OutputRowView)
    ensures
        crate::table::Condition::<Stage1OutputRow>::holds(&UsableOutputs { threads }, row) <==> may_be_used(row, threads@),
{
}

proof fn lemma_cutoff(now: i64, days: i64)
    requires
        days * 24 * 60 * 60 <= i64::MAX,
    ensures
        days_before(now, days) == now - retention(days),
{
}

/// Every listed output is a stored one that may be used, told with its thread; no more are listed than
/// were asked for, the newest source first.
pub proof fn law_listed_outputs_may_be_used(store: &MemoryStore, threads: &Table<ThreadRow>, n: usize, outputs: Vec<Stage1Output>)
    requires
        call_ensures(MemoryStore::list_stage1_outputs_for_global, (store, threads, n), Ok::<Vec<Stage1Output>, MemoryStoreError>(outputs)),
        store@.keyed(),
    ensures
        outputs@.len() <= n,
        forall|i: int|
            #![trigger outputs@[i]]
            0 <= i < outputs@.len() ==> {
                let thread_id = outputs@[i].thread_id;
                &&& store@.outputs.contains_key(thread_id)
                &&& may_be_used(store@.outputs[thread_id], threads@)
                &&& tells_of(outputs@[i], store@.outputs[thread_id], threads@[thread_id])
            },
        forall|i: int, j: int|
            #![trigger outputs@[i], outputs@[j]]
            0 <= i < j < outputs@.len() ==> outputs@[i].source_updated_at > outputs@[j].source_updated_at || outputs@[i].source_updated_at == outputs@[j].source_updated_at
                && outputs@[i].thread_id.value > outputs@[j].thread_id.value,
{
    lemma_listed(store@, threads, n, outputs);
}

pub(crate) proof fn lemma_listed(state: MemoryStoreView, threads: &Table<ThreadRow>, n: usize, outputs: Vec<Stage1Output>)
    requires
        lists_for_global(state, threads, n, Ok::<Vec<Stage1Output>, MemoryStoreError>(outputs)),
        state.keyed(),
    ensures
        outputs@.len() <= n,
        forall|i: int|
            #![trigger outputs@[i]]
            0 <= i < outputs@.len() ==> {
                let thread_id = outputs@[i].thread_id;
                &&& state.outputs.contains_key(thread_id)
                &&& may_be_used(state.outputs[thread_id], threads@)
                &&& tells_of(outputs@[i], state.outputs[thread_id], threads@[thread_id])
            },
        forall|i: int, j: int|
            #![trigger outputs@[i], outputs@[j]]
            0 <= i < j < outputs@.len() ==> outputs@[i].source_updated_at > outputs@[j].source_updated_at || outputs@[i].source_updated_at == outputs@[j].source_updated_at
                && outputs@[i].thread_id.value > outputs@[j].thread_id.value,
{
    if n > 0 {
        let listed = choose|listed: Seq<Stage1OutputRowView>| {
            &&& #[trigger] is_listing::<Stage1OutputRow, UsableOutputs, NewestSource>(state.outputs, UsableOutputs { threads }, NewestSource {  }, n as nat, listed)
            &&& reads_outputs(listed, threads@, Ok::<Vec<Stage1Output>, MemoryStoreError>(outputs))
        };
        assert(output_views(outputs@).len() == listed.len());
        assert forall|i: int| #![trigger outputs@[i]] 0 <= i < outputs@.len() implies {
            let thread_id = outputs@[i].thread_id;
            &&& state.outputs.contains_key(thread_id)
            &&& may_be_used(state.outputs[thread_id], threads@)
            &&& tells_of(outputs@[i], state.outputs[thread_id], threads@[thread_id])
        } by {
            lemma_read(listed, threads@, outputs, i);
            assert(row_selected::<Stage1OutputRow, UsableOutputs>(state.outputs, UsableOutputs { threads }, listed[i]));
            lemma_usable(threads, listed[i]);
        }
        assert forall|i: int, j: int| #![trigger outputs@[i], outputs@[j]] 0 <= i < j < outputs@.len() implies outputs@[i].source_updated_at
            > outputs@[j].source_updated_at || outputs@[i].source_updated_at == outputs@[j].source_updated_at && outputs@[i].thread_id.value > outputs@[j].thread_id.value by {
            lemma_read(listed, threads@, outputs, i);
            lemma_read(listed, threads@, outputs, j);
            assert(row_selected::<Stage1OutputRow, UsableOutputs>(state.outputs, UsableOutputs { threads }, listed[i]));
            assert(row_selected::<Stage1OutputRow, UsableOutputs>(state.outputs, UsableOutputs { threads }, listed[j]));
        }
    }
}

/// An output that may be used is listed, unless as many are listed as were asked for and its source is
/// no newer than any of theirs.
pub proof fn law_unlisted_outputs_are_older(store: &MemoryStore, threads: &Table<ThreadRow>, n: usize, outputs: Vec<Stage1Output>, thread_id: ThreadId)
    requires
        call_ensures(MemoryStore::list_stage1_outputs_for_global, (store, threads, n), Ok::<Vec<Stage1Output>, MemoryStoreError>(outputs)),
        store@.keyed(),
        store@.outputs.contains_key(thread_id),
        may_be_used(store@.outputs[thread_id], threads@),
        forall|i: int| #![trigger outputs@[i]] 0 <= i < outputs@.len() ==> outputs@[i].thread_id != thread_id,
    ensures
        outputs@.len() == n,
        forall|i: int| #![trigger outputs@[i]] 0 <= i < outputs@.len() ==> outputs@[i].source_updated_at >= store@.outputs[thread_id].source_updated_at,
{
    if n > 0 {
        let listed = choose|listed: Seq<Stage1OutputRowView>| {
            &&& #[trigger] is_listing::<Stage1OutputRow, UsableOutputs, NewestSource>(store@.outputs, UsableOutputs { threads }, NewestSource {  }, n as nat, listed)
            &&& reads_outputs(listed, threads@, Ok::<Vec<Stage1Output>, MemoryStoreError>(outputs))
        };
        let row = store@.outputs[thread_id];
        assert(output_views(outputs@).len() == listed.len());
        lemma_usable(threads, row);
        assert(row_selected::<Stage1OutputRow, UsableOutputs>(store@.outputs, UsableOutputs { threads }, row));
        if listed.contains(row) {
            let k = choose|k: int| 0 <= k < listed.len() && listed[k] == row;
            lemma_read(listed, threads@, outputs, k);
            assert(outputs@[k].thread_id == thread_id);
        }
        assert forall|i: int| #![trigger outputs@[i]] 0 <= i < outputs@.len() implies outputs@[i].source_updated_at >= row.source_updated_at by {
            lemma_read(listed, threads@, outputs, i);
            assert(!crate::table::Ranking::<Stage1OutputRow>::before(&NewestSource {  }, row, listed[i]));
        }
    }
}

/// Every output selected for phase two is a stored one that may be used and that was used, or else
/// changed, within the given days. It is told with its thread. No more are selected than were asked
/// for, and they come in the order of their threads.
pub proof fn law_selected_outputs_are_usable_and_recent(
    store: &MemoryStore,
    threads: &Table<ThreadRow>,
    n: usize,
    max_unused_days: i64,
    now: i64,
    outputs: Vec<Stage1Output>,
)
    requires
        call_ensures(
            MemoryStore::get_phase2_input_selection,
            (store, threads, n, max_unused_days, now),
            Ok::<Vec<Stage1Output>, MemoryStoreError>(outputs),
        ),
        store@.keyed(),
        days_before(now, max_unused_days) >= i64::MIN,
        max_unused_days * 24 * 60 * 60 <= i64::MAX,
    ensures
        outputs@.len() <= n,
        forall|i: int|
            #![trigger outputs@[i]]
            0 <= i < outputs@.len() ==> {
                let thread_id = outputs@[i].thread_id;
                &&& store@.outputs.contains_key(thread_id)
                &&& may_be_used(store@.outputs[thread_id], threads@)
                &&& fresh_as_of(store@.outputs[thread_id]) >= days_before(now, max_unused_days)
                &&& tells_of(outputs@[i], store@.outputs[thread_id], threads@[thread_id])
            },
        forall|i: int, j: int| #![trigger outputs@[i], outputs@[j]] 0 <= i < j < outputs@.len() ==> outputs@[i].thread_id.value < outputs@[j].thread_id.value,
{
    lemma_selected(store@, threads, n, max_unused_days, now, outputs);
}

pub(crate) proof fn lemma_selected(
    state: MemoryStoreView,
    threads: &Table<ThreadRow>,
    n: usize,
    max_unused_days: i64,
    now: i64,
    outputs: Vec<Stage1Output>,
)
    requires
        selects_for_phase2(state, threads, n, max_unused_days, now, Ok::<Vec<Stage1Output>, MemoryStoreError>(outputs)),
        state.keyed(),
        days_before(now, max_unused_days) >= i64::MIN,
        max_unused_days * 24 * 60 * 60 <= i64::MAX,
    ensures
        outputs@.len() <= n,
        forall|i: int|
            #![trigger outputs@[i]]
            0 <= i < outputs@.len() ==> {
                let thread_id = outputs@[i].thread_id;
                &&& state.outputs.contains_key(thread_id)
                &&& may_be_used(state.outputs[thread_id], threads@)
                &&& fresh_as_of(state.outputs[thread_id]) >= days_before(now, max_unused_days)
                &&& tells_of(outputs@[i], state.outputs[thread_id], threads@[thread_id])
            },
        forall|i: int, j: int| #![trigger outputs@[i], outputs@[j]] 0 <= i < j < outputs@.len() ==> outputs@[i].thread_id.value < outputs@[j].thread_id.value,
{
    if n > 0 {
        let (ranked, ordered) = lemma_selection(state, threads, n, max_unused_days, now, outputs);
        lemma_cutoff(now, max_unused_days);
        let recent = RecentOutputs { usable: UsableOutputs { threads }, cutoff: (now - retention(max_unused_days)) as i64 };
        assert forall|i: int| #![trigger outputs@[i]] 0 <= i < outputs@.len() implies {
            let thread_id = outputs@[i].thread_id;
            &&& state.outputs.contains_key(thread_id)
            &&& may_be_used(state.outputs[thread_id], threads@)
            &&& fresh_as_of(state.outputs[thread_id]) >= days_before(now, max_unused_days)
            &&& tells_of(outputs@[i], state.outputs[thread_id], threads@[thread_id])
        } by {
            lemma_read(ordered, threads@, outputs, i);
            assert(ordered.contains(ordered[i]));
            assert(ranked.contains(ordered[i]));
            let k = choose|k: int| 0 <= k < ranked.len() && ranked[k] == ordered[i];
            assert(row_selected::<Stage1OutputRow, RecentOutputs>(state.outputs, recent, ranked[k]));
            lemma_usable(threads, ranked[k]);
        }
        assert forall|i: int, j: int| #![trigger outputs@[i], outputs@[j]] 0 <= i < j < outputs@.len() implies outputs@[i].thread_id.value < outputs@[j].thread_id.value by {
            lemma_read(ordered, threads@, outputs, i);
            lemma_read(ordered, threads@, outputs, j);
        }
        lemma_no_longer(ranked, ordered);
    }
}

proof fn lemma_selection(state: MemoryStoreView, threads: &Table<ThreadRow>, n: usize, max_unused_days: i64, now: i64, outputs: Vec<Stage1Output>) -> (lists: (
    Seq<Stage1OutputRowView>,
    Seq<Stage1OutputRowView>,
))
    requires
        selects_for_phase2(state, threads, n, max_unused_days, now, Ok::<Vec<Stage1Output>, MemoryStoreError>(outputs)),
        n > 0,
    ensures
        is_listing::<Stage1OutputRow, RecentOutputs, MostUsed>(
            state.outputs,
            RecentOutputs { usable: UsableOutputs { threads }, cutoff: (now - retention(max_unused_days)) as i64 },
            MostUsed {  },
            n as nat,
            lists.0,
        ),
        in_thread_order(lists.0, lists.1),
        reads_outputs(lists.1, threads@, Ok::<Vec<Stage1Output>, MemoryStoreError>(outputs)),
        lists.1.len() == outputs@.len(),
        now - retention(max_unused_days) >= i64::MIN,
{
    let lists = choose|ranked: Seq<Stage1OutputRowView>, ordered: Seq<Stage1OutputRowView>| {
        &&& #[trigger] is_listing::<Stage1OutputRow, RecentOutputs, MostUsed>(
            state.outputs,
            RecentOutputs { usable: UsableOutputs { threads }, cutoff: (now - retention(max_unused_days)) as i64 },
            MostUsed {  },
            n as nat,
            ranked,
        )
        &&& #[trigger] in_thread_order(ranked, ordered)
        &&& reads_outputs(ordered, threads@, Ok::<Vec<Stage1Output>, MemoryStoreError>(outputs))
    };
    assert(output_views(outputs@).len() == lists.1.len());
    lists
}

proof fn lemma_same_length(ranked: Seq<Stage1OutputRowView>, ordered: Seq<Stage1OutputRowView>)
    requires
        in_thread_order(ranked, ordered),
        ranked.no_duplicates(),
    ensures
        ranked.len() == ordered.len(),
{
    assert(ordered.no_duplicates());
    assert(ranked.to_set() =~= ordered.to_set());
    ranked.unique_seq_to_set();
    ordered.unique_seq_to_set();
}

proof fn lemma_no_longer(ranked: Seq<Stage1OutputRowView>, ordered: Seq<Stage1OutputRowView>)
    requires
        in_thread_order(ranked, ordered),
    ensures
        ordered.len() <= ranked.len(),
{
    assert(ordered.no_duplicates());
    assert(ranked.to_set() =~= ordered.to_set());
    ordered.unique_seq_to_set();
    ranked.lemma_cardinality_of_set();
}

/// The most used outputs are selected and, of those used as often, the ones used (or else changed) last.
/// Where one output is selected and another is not that may be used and is recent enough, as many are
/// selected as were asked for and the other one was not used more often; if it was used as often, it was
/// not used (or else changed) later; if that was at the same time, its source did not change later.
pub proof fn law_selection_prefers_what_is_used_most_and_last(
    store: &MemoryStore,
    threads: &Table<ThreadRow>,
    n: usize,
    max_unused_days: i64,
    now: i64,
    outputs: Vec<Stage1Output>,
    i: int,
    other: ThreadId,
)
    requires
        call_ensures(
            MemoryStore::get_phase2_input_selection,
            (store, threads, n, max_unused_days, now),
            Ok::<Vec<Stage1Output>, MemoryStoreError>(outputs),
        ),
        store@.keyed(),
        days_before(now, max_unused_days) >= i64::MIN,
        0 <= i < outputs@.len(),
        store@.outputs.contains_key(other),
        may_be_used(store@.outputs[other], threads@),
        fresh_as_of(store@.outputs[other]) >= days_before(now, max_unused_days),
        max_unused_days * 24 * 60 * 60 <= i64::MAX,
        forall|k: int| #![trigger outputs@[k]] 0 <= k < outputs@.len() ==> outputs@[k].thread_id != other,
    ensures
        outputs@.len() == n,
        ({
            let chosen = store@.outputs[outputs@[i].thread_id];
            let left = store@.outputs[other];
            &&& times_used(chosen) >= times_used(left)
            &&& times_used(chosen) == times_used(left) ==> fresh_as_of(chosen) >= fresh_as_of(left)
            &&& times_used(chosen) == times_used(left) && fresh_as_of(chosen) == fresh_as_of(left) ==> chosen.source_updated_at >= left.source_updated_at
            &&& times_used(chosen) == times_used(left) && fresh_as_of(chosen) == fresh_as_of(left) && chosen.source_updated_at == left.source_updated_at
                ==> chosen.thread_id.value > left.thread_id.value
        }),
{
    lemma_preferred(store@, threads, n, max_unused_days, now, outputs, i, other);
}

pub(crate) proof fn lemma_preferred(
    state: MemoryStoreView,
    threads: &Table<ThreadRow>,
    n: usize,
    max_unused_days: i64,
    now: i64,
    outputs: Vec<Stage1Output>,
    i: int,
    other: ThreadId,
)
    requires
        selects_for_phase2(state, threads, n, max_unused_days, now, Ok::<Vec<Stage1Output>, MemoryStoreError>(outputs)),
        state.keyed(),
        days_before(now, max_unused_days) >= i64::MIN,
        0 <= i < outputs@.len(),
        state.outputs.contains_key(other),
        may_be_used(state.outputs[other], threads@),
        fresh_as_of(state.outputs[other]) >= days_before(now, max_unused_days),
        max_unused_days * 24 * 60 * 60 <= i64::MAX,
        forall|k: int| #![trigger outputs@[k]] 0 <= k < outputs@.len() ==> outputs@[k].thread_id != other,
    ensures
        outputs@.len() == n,
        ({
            let chosen = state.outputs[outputs@[i].thread_id];
            let left = state.outputs[other];
            &&& times_used(chosen) >= times_used(left)
            &&& times_used(chosen) == times_used(left) ==> fresh_as_of(chosen) >= fresh_as_of(left)
            &&& times_used(chosen) == times_used(left) && fresh_as_of(chosen) == fresh_as_of(left) ==> chosen.source_updated_at >= left.source_updated_at
            &&& times_used(chosen) == times_used(left) && fresh_as_of(chosen) == fresh_as_of(left) && chosen.source_updated_at == left.source_updated_at
                ==> chosen.thread_id.value > left.thread_id.value
        }),
{
    assert(n > 0);
    let (ranked, ordered) = lemma_selection(state, threads, n, max_unused_days, now, outputs);
    lemma_cutoff(now, max_unused_days);
    let recent = RecentOutputs { usable: UsableOutputs { threads }, cutoff: (now - retention(max_unused_days)) as i64 };
    let left = state.outputs[other];
    lemma_usable(threads, left);
    assert(row_selected::<Stage1OutputRow, RecentOutputs>(state.outputs, recent, left));
    if ranked.contains(left) {
        assert(ordered.contains(left));
        let k = choose|k: int| 0 <= k < ordered.len() && ordered[k] == left;
        lemma_read(ordered, threads@, outputs, k);
        assert(outputs@[k].thread_id == other);
    }
    lemma_read(ordered, threads@, outputs, i);
    assert(ordered.contains(ordered[i]));
    assert(ranked.contains(ordered[i]));
    let k = choose|k: int| 0 <= k < ranked.len() && ranked[k] == ordered[i];
    assert(row_selected::<Stage1OutputRow, RecentOutputs>(state.outputs, recent, ranked[k]));
    assert(!crate::table::Ranking::<Stage1OutputRow>::before(&MostUsed {  }, left, ranked[k]));
    assert(ranked[k].thread_id != other);
    assert(ranked.no_duplicates());
    lemma_same_length(ranked, ordered);
}

/// A selection succeeds unless the store was closed, a time names no date, or the days reach back too
/// far. Nothing is asked of the store where nothing is wanted.
pub proof fn law_selection_succeeds(
    store: &MemoryStore,
    threads: &Table<ThreadRow>,
    n: usize,
    max_unused_days: i64,
    now: i64,
    result: Result<Vec<Stage1Output>, MemoryStoreError>,
)
    requires
        call_ensures(MemoryStore::get_phase2_input_selection, (store, threads, n, max_unused_days, now), result),
        store@.keyed(),
        now >= 0,
    ensures
        n == 0 ==> result is Ok,
        n > 0 && store@.closed ==> result == Err::<Vec<Stage1Output>, MemoryStoreError>(MemoryStoreError::Closed),
        !store@.closed && (forall|thread_id: ThreadId| #[trigger]
            store@.outputs.contains_key(thread_id) ==> 0 <= store@.outputs[thread_id].source_updated_at <= 8_210_266_876_799 && 0
                <= store@.outputs[thread_id].generated_at <= 8_210_266_876_799) ==> result is Ok,
{
    if n > 0 && !store@.closed {
        let (ranked, ordered) = choose|ranked: Seq<Stage1OutputRowView>, ordered: Seq<Stage1OutputRowView>| {
            &&& #[trigger] is_listing::<Stage1OutputRow, RecentOutputs, MostUsed>(
                store@.outputs,
                RecentOutputs { usable: UsableOutputs { threads }, cutoff: (now - retention(max_unused_days)) as i64 },
                MostUsed {  },
                n as nat,
                ranked,
            )
            &&& #[trigger] in_thread_order(ranked, ordered)
            &&& reads_outputs(ordered, threads@, result)
        };
        if result is Err {
            let k = lemma_bad_row(ordered);
            assert(ordered.contains(ordered[k]));
            assert(ranked.contains(ordered[k]));
            let m = choose|m: int| 0 <= m < ranked.len() && ranked[m] == ordered[k];
            assert(row_selected::<Stage1OutputRow, RecentOutputs>(
                store@.outputs,
                RecentOutputs { usable: UsableOutputs { threads }, cutoff: (now - retention(max_unused_days)) as i64 },
                ranked[m],
            ));
        }
    }
}

proof fn lemma_bad_row(rows: Seq<Stage1OutputRowView>) -> (k: int)
    requires
        first_bad_time(rows) is Some,
    ensures
        0 <= k < rows.len(),
        rows[k].source_updated_at < 0 || rows[k].source_updated_at > 8_210_266_876_799 || rows[k].generated_at < 0 || rows[k].generated_at > 8_210_266_876_799,
    decreases rows.len(),
{
    if first_bad_time(rows.drop_last()) is Some {
        lemma_bad_row(rows.drop_last())
    } else {
        rows.len() - 1
    }
}

/// Pruning drops outputs that no consolidation rests on and that were not used (or else changed) within
/// the given days, those least recently used first, and no more than was allowed. Fewer are dropped only
/// where no more are left. What stays is unchanged, and the answer is how many were dropped.
pub proof fn law_pruning_drops_what_is_stale(store: &mut MemoryStore, max_unused_days: i64, limit: usize, now: i64, count: usize)
    requires
        call_ensures(MemoryStore::prune_stage1_outputs_for_retention, (store, max_unused_days, limit, now), Ok::<usize, MemoryStoreError>(count)),
        old(store)@.keyed(),
        days_before(now, max_unused_days) >= i64::MIN,
        max_unused_days * 24 * 60 * 60 <= i64::MAX,
    ensures
        count <= limit,
        final(store)@.outputs.dom().subset_of(old(store)@.outputs.dom()),
        count == old(store)@.outputs.dom().difference(final(store)@.outputs.dom()).len(),
        forall|kept: ThreadId| #[trigger] final(store)@.outputs.contains_key(kept) ==> final(store)@.outputs[kept] == old(store)@.outputs[kept],
        forall|dropped: ThreadId|
            #![trigger old(store)@.outputs.contains_key(dropped)]
            old(store)@.outputs.contains_key(dropped) && !final(store)@.outputs.contains_key(dropped) ==> {
                &&& !old(store)@.outputs[dropped].selected_for_phase2
                &&& fresh_as_of(old(store)@.outputs[dropped]) < days_before(now, max_unused_days)
            },
        forall|dropped: ThreadId, kept: ThreadId|
            #![trigger old(store)@.outputs.contains_key(dropped), final(store)@.outputs.contains_key(kept)]
            old(store)@.outputs.contains_key(dropped) && !final(store)@.outputs.contains_key(dropped) && final(store)@.outputs.contains_key(kept)
                && !final(store)@.outputs[kept].selected_for_phase2 && fresh_as_of(final(store)@.outputs[kept]) < days_before(now, max_unused_days)
                ==> fresh_as_of(old(store)@.outputs[dropped]) <= fresh_as_of(final(store)@.outputs[kept]),
        count < limit ==> forall|kept: ThreadId| #[trigger]
            final(store)@.outputs.contains_key(kept) ==> final(store)@.outputs[kept].selected_for_phase2 || fresh_as_of(final(store)@.outputs[kept]) >= days_before(
                now,
                max_unused_days,
            ),
        final(store)@.jobs == old(store)@.jobs,
        final(store)@.global_job == old(store)@.global_job,
        final(store)@.generations == old(store)@.generations,
{
    let before = old(store)@;
    let after = final(store)@;
    if limit == 0 {
        assert(before.outputs.dom().difference(after.outputs.dom()) =~= Set::empty());
    } else {
        let stale = StaleOutputs { cutoff: (now - retention(max_unused_days)) as i64 };
        let ranking = LeastRecentlyUsed {  };
        lemma_cutoff(now, max_unused_days);
        let victims = choose|victims: Seq<Stage1OutputRowView>| {
            &&& #[trigger] is_listing::<Stage1OutputRow, StaleOutputs, LeastRecentlyUsed>(before.outputs, stale, ranking, limit as nat, victims)
            &&& count == victims.len()
            &&& after == (MemoryStoreView { outputs: before.outputs.remove_keys(threads_of(victims)), ..before })
        };
        let gone = victims.map_values(|row: Stage1OutputRowView| row.thread_id);
        assert forall|i: int| 0 <= i < victims.len() implies before.outputs.contains_key(#[trigger] victims[i].thread_id) && before.outputs[victims[i].thread_id] == victims[i] by {
            assert(row_selected::<Stage1OutputRow, StaleOutputs>(before.outputs, stale, victims[i]));
        }
        assert(gone.no_duplicates());
        gone.unique_seq_to_set();
        assert(before.outputs.dom().difference(after.outputs.dom()) =~= gone.to_set()) by {
            assert forall|thread_id: ThreadId| before.outputs.dom().difference(after.outputs.dom()).contains(thread_id) implies gone.to_set().contains(thread_id) by {
                assert(threads_of(victims).contains(thread_id));
                let i = choose|i: int| 0 <= i < victims.len() && #[trigger] victims[i].thread_id == thread_id;
                assert(gone[i] == thread_id);
            }
            assert forall|thread_id: ThreadId| gone.to_set().contains(thread_id) implies before.outputs.dom().difference(after.outputs.dom()).contains(thread_id) by {
                let i = choose|i: int| 0 <= i < gone.len() && gone[i] == thread_id;
                assert(victims[i].thread_id == thread_id);
                assert(threads_of(victims).contains(thread_id));
            }
        }
        assert forall|dropped: ThreadId| #![trigger before.outputs.contains_key(dropped)] before.outputs.contains_key(dropped) && !after.outputs.contains_key(dropped) implies {
            &&& !before.outputs[dropped].selected_for_phase2
            &&& fresh_as_of(before.outputs[dropped]) < days_before(now, max_unused_days)
        } by {
            assert(threads_of(victims).contains(dropped));
            let i = choose|i: int| 0 <= i < victims.len() && #[trigger] victims[i].thread_id == dropped;
            assert(row_selected::<Stage1OutputRow, StaleOutputs>(before.outputs, stale, victims[i]));
        }
        assert forall|kept: ThreadId| #[trigger] after.outputs.contains_key(kept) && !after.outputs[kept].selected_for_phase2 && fresh_as_of(after.outputs[kept]) < days_before(
            now,
            max_unused_days,
        ) implies {
            &&& count == limit
            &&& forall|i: int| #![trigger victims[i]] 0 <= i < victims.len() ==> fresh_as_of(victims[i]) <= fresh_as_of(after.outputs[kept])
        } by {
            let row = before.outputs[kept];
            assert(row_selected::<Stage1OutputRow, StaleOutputs>(before.outputs, stale, row));
            assert(!threads_of(victims).contains(kept));
            if victims.contains(row) {
                let i = choose|i: int| 0 <= i < victims.len() && victims[i] == row;
                assert(victims[i].thread_id == kept);
            }
            assert forall|i: int| #![trigger victims[i]] 0 <= i < victims.len() implies fresh_as_of(victims[i]) <= fresh_as_of(after.outputs[kept]) by {
                assert(!crate::table::Ranking::<Stage1OutputRow>::before(&ranking, row, victims[i]));
            }
        }
        assert forall|dropped: ThreadId, kept: ThreadId|
            #![trigger before.outputs.contains_key(dropped), after.outputs.contains_key(kept)]
            before.outputs.contains_key(dropped) && !after.outputs.contains_key(dropped) && after.outputs.contains_key(kept) && !after.outputs[kept].selected_for_phase2
                && fresh_as_of(after.outputs[kept]) < days_before(now, max_unused_days) implies fresh_as_of(before.outputs[dropped]) <= fresh_as_of(after.outputs[kept]) by {
            assert(threads_of(victims).contains(dropped));
            let i = choose|i: int| 0 <= i < victims.len() && #[trigger] victims[i].thread_id == dropped;
            assert(before.outputs[dropped] == victims[i]);
        }
    }
}

/// Days are counted in seconds, negative ones as none, and as many as there are where they are too many.
pub proof fn law_days_are_counted_in_seconds(days: i64, seconds: i64)
    requires
        call_ensures(super::outputs::retention_seconds, (days,), seconds),
    ensures
        days <= 0 ==> seconds == 0,
        days > 0 && days * 24 * 60 * 60 <= i64::MAX ==> seconds == days * 24 * 60 * 60,
        days * 24 * 60 * 60 > i64::MAX ==> seconds == i64::MAX,
{
}

proof fn lemma_occurrences(thread_ids: Seq<ThreadId>, thread_id: ThreadId)
    ensures
        occurrences(thread_ids, thread_id) == thread_ids.filter(|named: ThreadId| named == thread_id).len(),
    decreases thread_ids.len(),
{
    reveal(Seq::filter);
    if thread_ids.len() > 0 {
        lemma_occurrences(thread_ids.drop_last(), thread_id);
    }
}

proof fn lemma_known_entries(thread_ids: Seq<ThreadId>, outputs: Map<ThreadId, Stage1OutputRowView>)
    ensures
        known_entries(thread_ids, outputs) == thread_ids.filter(|named: ThreadId| outputs.contains_key(named)).len(),
    decreases thread_ids.len(),
{
    reveal(Seq::filter);
    if thread_ids.len() > 0 {
        lemma_known_entries(thread_ids.drop_last(), outputs);
    }
}

/// Every time that a thread is named counts as one use of its output, at the given time. Outputs that
/// are not named stay as they are. The answer is how many names have an output.
pub proof fn law_every_name_counts_as_a_use(store: &mut MemoryStore, thread_ids: &[ThreadId], now: i64, count: usize, thread_id: ThreadId)
    requires
        call_ensures(MemoryStore::record_stage1_output_usage, (store, thread_ids, now), Ok::<usize, MemoryStoreError>(count)),
        old(store)@.keyed(),
        old(store)@.outputs.contains_key(thread_id),
    ensures
        count == thread_ids@.filter(|named: ThreadId| old(store)@.outputs.contains_key(named)).len(),
        final(store)@.outputs.dom() == old(store)@.outputs.dom(),
        times_used(final(store)@.outputs[thread_id]) == times_used(old(store)@.outputs[thread_id]) + thread_ids@.filter(|named: ThreadId| named == thread_id).len(),
        thread_ids@.contains(thread_id) ==> final(store)@.outputs[thread_id].last_usage == Some(now),
        !thread_ids@.contains(thread_id) ==> final(store)@.outputs[thread_id] == old(store)@.outputs[thread_id],
        final(store)@.outputs[thread_id].thread_id == thread_id,
        final(store)@.outputs[thread_id].source_updated_at == old(store)@.outputs[thread_id].source_updated_at,
        final(store)@.outputs[thread_id].raw_memory == old(store)@.outputs[thread_id].raw_memory,
        final(store)@.outputs[thread_id].rollout_summary == old(store)@.outputs[thread_id].rollout_summary,
        final(store)@.outputs[thread_id].selected_for_phase2 == old(store)@.outputs[thread_id].selected_for_phase2,
        final(store)@.jobs == old(store)@.jobs,
        final(store)@.global_job == old(store)@.global_job,
{
    lemma_occurrences(thread_ids@, thread_id);
    lemma_known_entries(thread_ids@, old(store)@.outputs);
    let named = |named: ThreadId| named == thread_id;
    if thread_ids@.contains(thread_id) {
        crate::sequences::lemma_filter_members(thread_ids@, named, thread_id);
        assert(thread_ids@.filter(named).contains(thread_id));
    } else if thread_ids@.filter(named).len() > 0 {
        let first = thread_ids@.filter(named)[0];
        assert(thread_ids@.filter(named).contains(first));
        crate::sequences::lemma_filter_members(thread_ids@, named, first);
    }
    assert(old(store)@.outputs.contains_key(thread_id));
    assert(final(store)@.outputs.dom() =~= old(store)@.outputs.dom());
}

/// Only the holder of the running lease completes the global job. It is done then, up to the completed
/// watermark or what was completed before. An output counts as selected exactly if it is among those
/// that were given, with the source it has now.
pub proof fn law_consolidation_marks_its_outputs(
    store: &mut MemoryStore,
    token: &str,
    completed_watermark: i64,
    selected: &[Stage1Output],
    now: i64,
    result: Result<bool, MemoryStoreError>,
)
    requires
        call_ensures(MemoryStore::mark_global_phase2_job_succeeded, (store, token, completed_watermark, selected, now), result),
        !old(store)@.closed,
    ensures
        ({
            let before = old(store)@;
            let after = final(store)@;
            let held = before.global_job is Some && runs_for(before.global_job->0, token@, now);
            &&& result == Ok::<bool, MemoryStoreError>(held)
            &&& !held ==> after == before
            &&& held ==> {
                let job = after.global_job->0;
                let done = before.global_job->0.last_success_watermark;
                &&& after.global_job is Some
                &&& job.status == MemoryJobStatus::Done
                &&& job.finished_at == Some(now)
                &&& job.lease_until is None
                &&& job.last_error is None
                &&& job.input_watermark == before.global_job->0.input_watermark
                &&& job.ownership_token == before.global_job->0.ownership_token
                &&& job.worker_id == before.global_job->0.worker_id
                &&& job.retry_remaining == before.global_job->0.retry_remaining
                &&& job.last_success_watermark is Some
                &&& done is Some ==> job.last_success_watermark->0 == (if completed_watermark > done->0 {
                    completed_watermark
                } else {
                    done->0
                })
                &&& done is None ==> job.last_success_watermark->0 == (if completed_watermark > 0 {
                    completed_watermark
                } else {
                    0
                })
                &&& after.outputs.dom() == before.outputs.dom()
                &&& after.jobs == before.jobs
                &&& after.generations == before.generations
            }
        }),
        forall|thread_id: ThreadId|
            #![trigger old(store)@.outputs[thread_id]]
            old(store)@.keyed() && result == Ok::<bool, MemoryStoreError>(true) && old(store)@.outputs.contains_key(thread_id) ==> {
                let before = old(store)@.outputs[thread_id];
                let after = final(store)@.outputs[thread_id];
                &&& after.selected_for_phase2 <==> exists|i: int|
                    0 <= i < selected@.len() && #[trigger] selected@[i].thread_id == thread_id && selected@[i].source_updated_at == before.source_updated_at
                &&& after.selected_for_phase2 ==> after.selected_for_phase2_source_updated_at == Some(before.source_updated_at)
                &&& !after.selected_for_phase2 ==> after.selected_for_phase2_source_updated_at is None
                &&& after.source_updated_at == before.source_updated_at
                &&& after.raw_memory == before.raw_memory
                &&& after.rollout_summary == before.rollout_summary
                &&& after.rollout_slug == before.rollout_slug
                &&& after.usage_count == before.usage_count
                &&& after.last_usage == before.last_usage
            },
{
    assert(final(store)@.outputs.dom() =~= old(store)@.outputs.dom());
    let chosen = output_views(selected@);
    assert forall|thread_id: ThreadId| #![trigger old(store)@.outputs[thread_id]] old(store)@.keyed() && old(store)@.outputs.contains_key(thread_id) implies (is_among(
        old(store)@.outputs[thread_id],
        chosen,
    ) <==> exists|i: int|
        0 <= i < selected@.len() && #[trigger] selected@[i].thread_id == thread_id && selected@[i].source_updated_at == old(store)@.outputs[thread_id].source_updated_at) by {
        let row = old(store)@.outputs[thread_id];
        if is_among(row, chosen) {
            let i = choose|i: int| 0 <= i < chosen.len() && #[trigger] chosen[i].thread_id == row.thread_id && chosen[i].source_updated_at == row.source_updated_at;
            assert(selected@[i].thread_id == thread_id);
        }
        if exists|i: int| 0 <= i < selected@.len() && #[trigger] selected@[i].thread_id == thread_id && selected@[i].source_updated_at == row.source_updated_at {
            let i = choose|i: int| 0 <= i < selected@.len() && #[trigger] selected@[i].thread_id == thread_id && selected@[i].source_updated_at == row.source_updated_at;
            assert(chosen[i].thread_id == row.thread_id);
        }
    }
}

/// Memory may be drawn from a thread whose mode is `enabled` and that was not polluted after that was recorded.
pub proof fn law_enabled_threads(thread: &ThreadRow, enabled: bool)
    requires
        call_ensures(super::outputs::is_enabled_thread, (thread,), enabled),
    ensures
        enabled <==> thread.memory_mode@ == "enabled"@ && (thread.polluted_at_stream_version is None || thread.polluted_at_stream_version->0 <= thread.memory_mode_ordinal),
{
}

/// As many outputs are selected as were asked for, unless all that may be used and are recent enough are.
pub proof fn law_selection_is_full(
    store: &MemoryStore,
    threads: &Table<ThreadRow>,
    n: usize,
    max_unused_days: i64,
    now: i64,
    outputs: Vec<Stage1Output>,
    other: ThreadId,
)
    requires
        call_ensures(
            MemoryStore::get_phase2_input_selection,
            (store, threads, n, max_unused_days, now),
            Ok::<Vec<Stage1Output>, MemoryStoreError>(outputs),
        ),
        store@.keyed(),
        days_before(now, max_unused_days) >= i64::MIN,
        max_unused_days * 24 * 60 * 60 <= i64::MAX,
        store@.outputs.contains_key(other),
        may_be_used(store@.outputs[other], threads@),
        fresh_as_of(store@.outputs[other]) >= days_before(now, max_unused_days),
        forall|k: int| #![trigger outputs@[k]] 0 <= k < outputs@.len() ==> outputs@[k].thread_id != other,
    ensures
        outputs@.len() == n,
{
    if n > 0 {
        let (ranked, ordered) = lemma_selection(store@, threads, n, max_unused_days, now, outputs);
        lemma_cutoff(now, max_unused_days);
        let recent = RecentOutputs { usable: UsableOutputs { threads }, cutoff: (now - retention(max_unused_days)) as i64 };
        let left = store@.outputs[other];
        lemma_usable(threads, left);
        assert(row_selected::<Stage1OutputRow, RecentOutputs>(store@.outputs, recent, left));
        if ranked.contains(left) {
            assert(ordered.contains(left));
            let k = choose|k: int| 0 <= k < ordered.len() && ordered[k] == left;
            lemma_read(ordered, threads@, outputs, k);
            assert(outputs@[k].thread_id == other);
        }
        assert(ranked.no_duplicates());
        lemma_same_length(ranked, ordered);
    }
}

} // verus!
