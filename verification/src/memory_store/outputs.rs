//! Stage-one outputs: which of them phase two sees, and which of them are kept.

use super::job::duration;
use super::job::duration_of;
use super::phase2::owns_phase2;
use super::MemoryJobView;
use super::unless_closed;
use super::MemoryStore;
use super::MemoryStoreError;
use super::MemoryStoreView;
use super::Stage1OutputRow;
use super::Stage1OutputRowView;
use crate::outside::fits_timestamp;
use crate::table::distinct_keys;
use crate::table::is_listing;
use crate::table::keyed_at;
use crate::table::lemma_rows;
use crate::table::row_selected;
use crate::table::views;
use crate::table::Change;
use crate::table::Condition;
use crate::table::Ranking;
use crate::table::Row;
use crate::table::Table;
use crate::text::chars_of;
use crate::text::same_text;
use crate::thread_id::opt_view;
use crate::thread_id::ThreadId;
use crate::threads::clone_text;
use crate::threads::ThreadRow;
use crate::time::is_time;
use vstd::prelude::*;

verus! {

/// An output together with what is known of its thread. Times are seconds since the Unix epoch.
#[derive(Debug, PartialEq, Eq)]
pub struct Stage1Output {
    pub thread_id: ThreadId,
    pub rollout_path: String,
    pub source_updated_at: i64,
    pub raw_memory: String,
    pub rollout_summary: String,
    pub rollout_slug: Option<String>,
    pub cwd: String,
    pub git_branch: Option<String>,
    pub generated_at: i64,
}

#[verifier::ext_equal]
pub struct Stage1OutputView {
    pub thread_id: ThreadId,
    pub rollout_path: Seq<char>,
    pub source_updated_at: i64,
    pub raw_memory: Seq<char>,
    pub rollout_summary: Seq<char>,
    pub rollout_slug: Option<Seq<char>>,
    pub cwd: Seq<char>,
    pub git_branch: Option<Seq<char>>,
    pub generated_at: i64,
}

impl View for Stage1Output {
    type V = Stage1OutputView;

    open spec fn view(&self) -> Stage1OutputView {
        Stage1OutputView {
            thread_id: self.thread_id,
            rollout_path: self.rollout_path@,
            source_updated_at: self.source_updated_at,
            raw_memory: self.raw_memory@,
            rollout_summary: self.rollout_summary@,
            rollout_slug: opt_view(self.rollout_slug),
            cwd: self.cwd@,
            git_branch: opt_view(self.git_branch),
            generated_at: self.generated_at,
        }
    }
}

impl Clone for Stage1Output {
    fn clone(&self) -> (copy: Self)
        ensures
            copy == *self,
    {
        Stage1Output {
            thread_id: self.thread_id,
            rollout_path: self.rollout_path.clone(),
            source_updated_at: self.source_updated_at,
            raw_memory: self.raw_memory.clone(),
            rollout_summary: self.rollout_summary.clone(),
            rollout_slug: clone_text(&self.rollout_slug),
            cwd: self.cwd.clone(),
            git_branch: clone_text(&self.git_branch),
            generated_at: self.generated_at,
        }
    }
}

/// Memory may be drawn from the thread: its recorded mode says so, and pollution was not detected
/// after that record.
pub open spec fn is_enabled(thread: ThreadRow) -> bool {
    &&& thread.memory_mode@ == "enabled"@
    &&& !(thread.polluted_at_stream_version is Some && thread.polluted_at_stream_version->0 > thread.memory_mode_ordinal)
}

pub fn is_enabled_thread(thread: &ThreadRow) -> (enabled: bool)
    ensures
        enabled == is_enabled(*thread),
{
    let polluted = match thread.polluted_at_stream_version {
        Some(version) => version > thread.memory_mode_ordinal,
        None => false,
    };
    !polluted && same_text(thread.memory_mode.as_str(), "enabled")
}

/// The text has something in it besides spaces.
pub open spec fn has_content(text: Seq<char>) -> bool {
    exists|i: int| 0 <= i < text.len() && #[trigger] text[i] != ' '
}

fn is_filled(text: &str) -> (filled: bool)
    ensures
        filled == has_content(text@),
{
    let chars = chars_of(text);
    let mut i: usize = 0;
    while i < chars.len()
        invariant
            chars@ == text@,
            i <= chars@.len(),
            forall|j: int| 0 <= j < i ==> #[trigger] text@[j] == ' ',
        decreases chars@.len() - i,
    {
        if chars[i] != ' ' {
            assert(text@[i as int] != ' ');
            return true;
        }
        i += 1;
    }
    false
}

/// Outputs with content whose threads memory may be drawn from.
pub struct UsableOutputs<'a> {
    pub threads: &'a Table<ThreadRow>,
}

impl<'a> Condition<Stage1OutputRow> for UsableOutputs<'a> {
    open spec fn holds(&self, row: Stage1OutputRowView) -> bool {
        &&& has_content(row.raw_memory) || has_content(row.rollout_summary)
        &&& self.threads@.contains_key(row.thread_id)
        &&& is_enabled(self.threads@[row.thread_id])
    }

    fn test(&self, row: &Stage1OutputRow) -> (held: bool) {
        if !is_filled(row.raw_memory.as_str()) && !is_filled(row.rollout_summary.as_str()) {
            return false;
        }
        match self.threads.get(&row.thread_id) {
            Some(thread) => is_enabled_thread(thread),
            None => false,
        }
    }
}

/// Newest source first.
pub struct NewestSource {}

impl Ranking<Stage1OutputRow> for NewestSource {
    open spec fn before(&self, a: Stage1OutputRowView, b: Stage1OutputRowView) -> bool {
        a.source_updated_at > b.source_updated_at || a.source_updated_at == b.source_updated_at && a.thread_id.value > b.thread_id.value
    }

    fn is_before(&self, a: &Stage1OutputRow, b: &Stage1OutputRow) -> (r: bool) {
        a.source_updated_at > b.source_updated_at || (a.source_updated_at == b.source_updated_at && a.thread_id.value > b.thread_id.value)
    }

    proof fn asymmetric(&self, a: Stage1OutputRowView, b: Stage1OutputRowView) {
    }

    proof fn negatively_transitive(&self, a: Stage1OutputRowView, b: Stage1OutputRowView, c: Stage1OutputRowView) {
    }
}

/// When an output was last used; its source counts if it never was.
pub open spec fn last_use(row: Stage1OutputRowView) -> i64 {
    match row.last_usage {
        Some(time) => time,
        None => row.source_updated_at,
    }
}

fn last_use_of(row: &Stage1OutputRow) -> (time: i64)
    ensures
        time == last_use(row@),
{
    match row.last_usage {
        Some(time) => time,
        None => row.source_updated_at,
    }
}

/// How often an output was used.
pub open spec fn uses(row: Stage1OutputRowView) -> i64 {
    match row.usage_count {
        Some(count) => count,
        None => 0,
    }
}

fn uses_of(row: &Stage1OutputRow) -> (count: i64)
    ensures
        count == uses(row@),
{
    match row.usage_count {
        Some(count) => count,
        None => 0,
    }
}

/// Usable outputs that were used, or changed, since `cutoff`.
pub struct RecentOutputs<'a> {
    pub usable: UsableOutputs<'a>,
    pub cutoff: i64,
}

impl<'a> Condition<Stage1OutputRow> for RecentOutputs<'a> {
    open spec fn holds(&self, row: Stage1OutputRowView) -> bool {
        self.usable.holds(row) && last_use(row) >= self.cutoff
    }

    fn test(&self, row: &Stage1OutputRow) -> (held: bool) {
        last_use_of(row) >= self.cutoff && self.usable.test(row)
    }
}

/// Most used first, then most recently used.
pub struct MostUsed {}

impl Ranking<Stage1OutputRow> for MostUsed {
    open spec fn before(&self, a: Stage1OutputRowView, b: Stage1OutputRowView) -> bool {
        if uses(a) != uses(b) {
            uses(a) > uses(b)
        } else if last_use(a) != last_use(b) {
            last_use(a) > last_use(b)
        } else if a.source_updated_at != b.source_updated_at {
            a.source_updated_at > b.source_updated_at
        } else {
            a.thread_id.value > b.thread_id.value
        }
    }

    fn is_before(&self, a: &Stage1OutputRow, b: &Stage1OutputRow) -> (r: bool) {
        if uses_of(a) != uses_of(b) {
            uses_of(a) > uses_of(b)
        } else if last_use_of(a) != last_use_of(b) {
            last_use_of(a) > last_use_of(b)
        } else if a.source_updated_at != b.source_updated_at {
            a.source_updated_at > b.source_updated_at
        } else {
            a.thread_id.value > b.thread_id.value
        }
    }

    proof fn asymmetric(&self, a: Stage1OutputRowView, b: Stage1OutputRowView) {
    }

    proof fn negatively_transitive(&self, a: Stage1OutputRowView, b: Stage1OutputRowView, c: Stage1OutputRowView) {
    }
}

/// Outputs that no consolidation rests on and that were not used since `cutoff`.
pub struct StaleOutputs {
    pub cutoff: i64,
}

impl Condition<Stage1OutputRow> for StaleOutputs {
    open spec fn holds(&self, row: Stage1OutputRowView) -> bool {
        !row.selected_for_phase2 && last_use(row) < self.cutoff
    }

    fn test(&self, row: &Stage1OutputRow) -> (held: bool) {
        !row.selected_for_phase2 && last_use_of(row) < self.cutoff
    }
}

/// Least recently used first.
pub struct LeastRecentlyUsed {}

impl Ranking<Stage1OutputRow> for LeastRecentlyUsed {
    open spec fn before(&self, a: Stage1OutputRowView, b: Stage1OutputRowView) -> bool {
        if last_use(a) != last_use(b) {
            last_use(a) < last_use(b)
        } else if a.source_updated_at != b.source_updated_at {
            a.source_updated_at < b.source_updated_at
        } else {
            a.thread_id.value < b.thread_id.value
        }
    }

    fn is_before(&self, a: &Stage1OutputRow, b: &Stage1OutputRow) -> (r: bool) {
        if last_use_of(a) != last_use_of(b) {
            last_use_of(a) < last_use_of(b)
        } else if a.source_updated_at != b.source_updated_at {
            a.source_updated_at < b.source_updated_at
        } else {
            a.thread_id.value < b.thread_id.value
        }
    }

    proof fn asymmetric(&self, a: Stage1OutputRowView, b: Stage1OutputRowView) {
    }

    proof fn negatively_transitive(&self, a: Stage1OutputRowView, b: Stage1OutputRowView, c: Stage1OutputRowView) {
    }
}

/// Every row.
pub struct EveryOutput {}

impl Condition<Stage1OutputRow> for EveryOutput {
    open spec fn holds(&self, row: Stage1OutputRowView) -> bool {
        true
    }

    fn test(&self, row: &Stage1OutputRow) -> (held: bool) {
        true
    }
}

/// By thread.
pub struct ByThread {}

impl Ranking<Stage1OutputRow> for ByThread {
    open spec fn before(&self, a: Stage1OutputRowView, b: Stage1OutputRowView) -> bool {
        a.thread_id.value < b.thread_id.value
    }

    fn is_before(&self, a: &Stage1OutputRow, b: &Stage1OutputRow) -> (r: bool) {
        a.thread_id.value < b.thread_id.value
    }

    proof fn asymmetric(&self, a: Stage1OutputRowView, b: Stage1OutputRowView) {
    }

    proof fn negatively_transitive(&self, a: Stage1OutputRowView, b: Stage1OutputRowView, c: Stage1OutputRowView) {
    }
}

/// An output together with what is known of its thread.
pub open spec fn joined(row: Stage1OutputRowView, thread: ThreadRow) -> Stage1OutputView {
    Stage1OutputView {
        thread_id: row.thread_id,
        rollout_path: thread.metadata.rollout_path@,
        source_updated_at: row.source_updated_at,
        raw_memory: row.raw_memory,
        rollout_summary: row.rollout_summary,
        rollout_slug: row.rollout_slug,
        cwd: thread.metadata.cwd@,
        git_branch: opt_view(thread.metadata.git_branch),
        generated_at: row.generated_at,
    }
}

/// The outputs, each with its thread.
pub open spec fn all_joined(rows: Seq<Stage1OutputRowView>, threads: Map<ThreadId, ThreadRow>) -> Seq<Stage1OutputView> {
    Seq::new(rows.len(), |i: int| joined(rows[i], threads[rows[i].thread_id]))
}

/// The views of outputs.
pub open spec fn output_views(outputs: Seq<Stage1Output>) -> Seq<Stage1OutputView> {
    Seq::new(outputs.len(), |i: int| outputs[i]@)
}

/// A stored time of the output that names no date, if there is one.
pub open spec fn bad_time(row: Stage1OutputRowView) -> Option<i64> {
    if !is_time(row.source_updated_at, 0) {
        Some(row.source_updated_at)
    } else if !is_time(row.generated_at, 0) {
        Some(row.generated_at)
    } else {
        None
    }
}

/// The first stored time that names no date.
pub open spec fn first_bad_time(rows: Seq<Stage1OutputRowView>) -> Option<i64>
    decreases rows.len(),
{
    if rows.len() == 0 {
        None
    } else if first_bad_time(rows.drop_last()) is Some {
        first_bad_time(rows.drop_last())
    } else {
        bad_time(rows.last())
    }
}

/// The outputs are read, each with its thread, unless a stored time names no date.
pub open spec fn reads_outputs(
    rows: Seq<Stage1OutputRowView>,
    threads: Map<ThreadId, ThreadRow>,
    result: Result<Vec<Stage1Output>, MemoryStoreError>,
) -> bool {
    match result {
        Ok(outputs) => first_bad_time(rows) is None && output_views(outputs@) == all_joined(rows, threads),
        Err(error) => first_bad_time(rows) is Some && error == MemoryStoreError::Timestamp(first_bad_time(rows)->0),
    }
}

/// Nothing is wrong with the times of a shorter list if nothing is with those of a longer one.
proof fn lemma_first_bad_time(rows: Seq<Stage1OutputRowView>, n: int)
    requires
        0 <= n <= rows.len(),
        first_bad_time(rows.take(n)) is Some,
    ensures
        first_bad_time(rows) == first_bad_time(rows.take(n)),
    decreases rows.len() - n,
{
    if n < rows.len() {
        let longer = rows.take(n + 1);
        assert(longer.drop_last() =~= rows.take(n));
        lemma_first_bad_time(rows, n + 1);
    } else {
        assert(rows.take(n) =~= rows);
    }
}

/// Put each output together with its thread.
fn join_threads(rows: Vec<Stage1OutputRow>, threads: &Table<ThreadRow>) -> (result: Result<Vec<Stage1Output>, MemoryStoreError>)
    requires
        forall|i: int| 0 <= i < rows@.len() ==> threads@.contains_key(#[trigger] views(rows@)[i].thread_id),
    ensures
        reads_outputs(views(rows@), threads@, result),
{
    let ghost all = views(rows@);
    let mut outputs: Vec<Stage1Output> = Vec::new();
    let mut i: usize = 0;
    assert(first_bad_time(all.take(0)) is None);
    while i < rows.len()
        invariant
            all == views(rows@),
            i <= rows@.len(),
            outputs@.len() == i,
            first_bad_time(all.take(i as int)) is None,
            forall|j: int| 0 <= j < rows@.len() ==> threads@.contains_key(#[trigger] all[j].thread_id),
            forall|j: int| 0 <= j < i ==> #[trigger] outputs@[j]@ == joined(all[j], threads@[all[j].thread_id]),
        decreases rows@.len() - i,
    {
        let row = &rows[i];
        assert(all[i as int] == row@);
        assert(threads@.contains_key(all[i as int].thread_id));
        proof {
            let longer = all.take(i + 1);
            assert(longer.drop_last() =~= all.take(i as int));
            assert(longer.last() == row@);
            assert(first_bad_time(longer) == bad_time(row@));
        }
        if !fits_timestamp(row.source_updated_at) {
            proof {
                lemma_first_bad_time(all, i + 1);
            }
            return Err(MemoryStoreError::Timestamp(row.source_updated_at));
        }
        if !fits_timestamp(row.generated_at) {
            proof {
                lemma_first_bad_time(all, i + 1);
            }
            return Err(MemoryStoreError::Timestamp(row.generated_at));
        }
        if let Some(thread) = threads.get(&row.thread_id) {
            outputs.push(Stage1Output {
                thread_id: row.thread_id,
                rollout_path: thread.metadata.rollout_path.clone(),
                source_updated_at: row.source_updated_at,
                raw_memory: row.raw_memory.clone(),
                rollout_summary: row.rollout_summary.clone(),
                rollout_slug: clone_text(&row.rollout_slug),
                cwd: thread.metadata.cwd.clone(),
                git_branch: clone_text(&thread.metadata.git_branch),
                generated_at: row.generated_at,
            });
        }
        i += 1;
    }
    assert(all.take(i as int) =~= all);
    assert(output_views(outputs@) =~= all_joined(all, threads@));
    Ok(outputs)
}

/// How long an unused output is kept.
pub open spec fn retention(max_unused_days: i64) -> i64 {
    if duration(max_unused_days) * 86_400 > i64::MAX {
        i64::MAX
    } else {
        (duration(max_unused_days) * 86_400) as i64
    }
}

pub fn retention_seconds(max_unused_days: i64) -> (seconds: i64)
    ensures
        seconds == retention(max_unused_days),
{
    match duration_of(max_unused_days).checked_mul(86_400) {
        Some(seconds) => seconds,
        None => i64::MAX,
    }
}

/// How often `thread_id` occurs.
pub open spec fn occurrences(thread_ids: Seq<ThreadId>, thread_id: ThreadId) -> nat
    decreases thread_ids.len(),
{
    if thread_ids.len() == 0 {
        0
    } else {
        occurrences(thread_ids.drop_last(), thread_id) + if thread_ids.last() == thread_id { 1nat } else { 0 }
    }
}

/// How many entries name a thread with an output.
pub open spec fn known_entries(thread_ids: Seq<ThreadId>, outputs: Map<ThreadId, Stage1OutputRowView>) -> nat
    decreases thread_ids.len(),
{
    if thread_ids.len() == 0 {
        0
    } else {
        known_entries(thread_ids.drop_last(), outputs) + if outputs.contains_key(thread_ids.last()) { 1nat } else { 0 }
    }
}

proof fn lemma_occurrences_bound(thread_ids: Seq<ThreadId>, thread_id: ThreadId)
    ensures
        occurrences(thread_ids, thread_id) <= thread_ids.len(),
    decreases thread_ids.len(),
{
    if thread_ids.len() > 0 {
        lemma_occurrences_bound(thread_ids.drop_last(), thread_id);
    }
}

fn count_occurrences(thread_ids: &[ThreadId], thread_id: ThreadId) -> (count: usize)
    ensures
        count == occurrences(thread_ids@, thread_id),
{
    let mut count: usize = 0;
    let mut i: usize = 0;
    while i < thread_ids.len()
        invariant
            i <= thread_ids@.len(),
            count <= i,
            count == occurrences(thread_ids@.take(i as int), thread_id),
        decreases thread_ids@.len() - i,
    {
        assert(thread_ids@.take(i + 1).drop_last() =~= thread_ids@.take(i as int));
        if thread_ids[i] == thread_id {
            count += 1;
        }
        i += 1;
    }
    assert(thread_ids@.take(i as int) =~= thread_ids@);
    count
}

/// The output with the uses of the given threads counted in.
pub open spec fn used(row: Stage1OutputRowView, thread_ids: Seq<ThreadId>, now: i64) -> Stage1OutputRowView {
    if occurrences(thread_ids, row.thread_id) == 0 {
        row
    } else {
        Stage1OutputRowView {
            usage_count: Some((uses(row) + occurrences(thread_ids, row.thread_id)) as i64),
            last_usage: Some(now),
            ..row
        }
    }
}

/// The counters can hold the uses.
pub open spec fn uses_fit(outputs: Map<ThreadId, Stage1OutputRowView>, thread_ids: Seq<ThreadId>) -> bool {
    forall|thread_id: ThreadId| #[trigger] outputs.contains_key(thread_id) ==> uses(outputs[thread_id]) + occurrences(thread_ids, thread_id) <= i64::MAX
}

/// Counts uses in.
struct CountUses<'a> {
    thread_ids: &'a [ThreadId],
    now: i64,
}

impl<'a> Change<Stage1OutputRow> for CountUses<'a> {
    closed spec fn changed(&self, row: Stage1OutputRowView) -> Stage1OutputRowView {
        if uses(row) + occurrences(self.thread_ids@, row.thread_id) <= i64::MAX {
            used(row, self.thread_ids@, self.now)
        } else {
            row
        }
    }

    fn apply(&self, row: &Stage1OutputRow) -> (after: Stage1OutputRow) {
        let mut after = row.duplicate();
        let count: usize = count_occurrences(self.thread_ids, row.thread_id);
        if count > 0 {
            match added_uses(uses_of(row), count) {
                Some(total) => {
                    after.usage_count = Some(total);
                    after.last_usage = Some(self.now);
                },
                None => {},
            }
        }
        after
    }

    proof fn keeps_key(&self, row: Stage1OutputRowView) {
    }
}

/// The counter with more uses, if it can hold them.
fn added_uses(uses: i64, more: usize) -> (total: Option<i64>)
    ensures
        match total {
            Some(total) => total == uses + more,
            None => uses + more > i64::MAX,
        },
{
    let sum: i128 = uses as i128 + more as i128;
    if sum > i64::MAX as i128 {
        None
    } else {
        Some(sum as i64)
    }
}

/// The output is among the selected ones, in the version that was selected.
pub open spec fn is_among(row: Stage1OutputRowView, chosen: Seq<Stage1OutputView>) -> bool {
    exists|i: int| 0 <= i < chosen.len() && #[trigger] chosen[i].thread_id == row.thread_id && chosen[i].source_updated_at == row.source_updated_at
}

/// The output marked as selected or not.
pub open spec fn marked(row: Stage1OutputRowView, chosen: Seq<Stage1OutputView>) -> Stage1OutputRowView {
    Stage1OutputRowView {
        selected_for_phase2: is_among(row, chosen),
        selected_for_phase2_source_updated_at: if is_among(row, chosen) {
            Some(row.source_updated_at)
        } else {
            None
        },
        ..row
    }
}

/// Marks the outputs that a consolidation rests on.
struct MarkSelection<'a> {
    chosen: &'a [Stage1Output],
}

impl<'a> Change<Stage1OutputRow> for MarkSelection<'a> {
    closed spec fn changed(&self, row: Stage1OutputRowView) -> Stage1OutputRowView {
        marked(row, output_views(self.chosen@))
    }

    fn apply(&self, row: &Stage1OutputRow) -> (after: Stage1OutputRow) {
        let ghost chosen = output_views(self.chosen@);
        let mut after = row.duplicate();
        after.selected_for_phase2 = false;
        after.selected_for_phase2_source_updated_at = None;
        let mut i: usize = 0;
        while i < self.chosen.len()
            invariant
                chosen == output_views(self.chosen@),
                i <= self.chosen@.len(),
                !is_among(row@, chosen.take(i as int)),
                after@ == marked(row@, chosen.take(i as int)),
            decreases self.chosen@.len() - i,
        {
            assert(chosen[i as int] == self.chosen@[i as int]@);
            if self.chosen[i].thread_id == row.thread_id && self.chosen[i].source_updated_at == row.source_updated_at {
                after.selected_for_phase2 = true;
                after.selected_for_phase2_source_updated_at = Some(row.source_updated_at);
                assert(is_among(row@, chosen)) by {
                    assert(chosen[i as int].thread_id == row@.thread_id);
                }
                return after;
            }
            proof {
                let later = chosen.take(i + 1);
                if is_among(row@, later) {
                    let k = choose|k: int| 0 <= k < later.len() && #[trigger] later[k].thread_id == row@.thread_id && later[k].source_updated_at == row@.source_updated_at;
                    assert(k != i);
                    assert(chosen.take(i as int)[k].thread_id == row@.thread_id);
                }
            }
            i += 1;
        }
        assert(chosen.take(i as int) =~= chosen);
        after
    }

    proof fn keeps_key(&self, row: Stage1OutputRowView) {
    }
}

/// The larger of a watermark and what was completed before.
pub open spec fn success_watermark(job: MemoryJobView, completed_watermark: i64) -> i64 {
    let before = match job.last_success_watermark {
        Some(watermark) => watermark,
        None => 0,
    };
    if completed_watermark > before {
        completed_watermark
    } else {
        before
    }
}

/// The state once the global job is completed: the outputs it rests on are marked.
pub open spec fn completed_phase2(
    state: MemoryStoreView,
    completed_watermark: i64,
    chosen: Seq<Stage1OutputView>,
    now: i64,
) -> MemoryStoreView {
    let job = state.global_job->0;
    MemoryStoreView {
        outputs: state.outputs.map_values(|row: Stage1OutputRowView| marked(row, chosen)),
        ..state.with_global_job(job.finished(Some(success_watermark(job, completed_watermark)), now))
    }
}

/// What completing the global job returns, and the state it leaves.
pub open spec fn succeeding_phase2(
    state: MemoryStoreView,
    token: Seq<char>,
    completed_watermark: i64,
    chosen: Seq<Stage1OutputView>,
    now: i64,
) -> (MemoryStoreView, bool) {
    if owns_phase2(state, token, now) {
        (completed_phase2(state, completed_watermark, chosen, now), true)
    } else {
        (state, false)
    }
}

/// The threads of the listed outputs.
pub open spec fn threads_of(rows: Seq<Stage1OutputRowView>) -> Set<ThreadId> {
    Set::new(|thread_id: ThreadId| exists|i: int| 0 <= i < rows.len() && #[trigger] rows[i].thread_id == thread_id)
}

/// `ordered` holds the rows of `ranked` in thread order.
pub open spec fn in_thread_order(ranked: Seq<Stage1OutputRowView>, ordered: Seq<Stage1OutputRowView>) -> bool {
    &&& forall|row: Stage1OutputRowView| #[trigger] ranked.contains(row) <==> ordered.contains(row)
    &&& forall|i: int, j: int| #![trigger ordered[i], ordered[j]] 0 <= i < j < ordered.len() ==> ordered[i].thread_id.value < ordered[j].thread_id.value
}

/// What listing the newest `n` usable outputs returns.
pub open spec fn lists_for_global(
    state: MemoryStoreView,
    threads: &Table<ThreadRow>,
    n: usize,
    result: Result<Vec<Stage1Output>, MemoryStoreError>,
) -> bool {
    if n == 0 {
        result is Ok && result->Ok_0@.len() == 0
    } else if state.closed {
        result == Err::<Vec<Stage1Output>, MemoryStoreError>(MemoryStoreError::Closed)
    } else {
        exists|listed: Seq<Stage1OutputRowView>| {
            &&& #[trigger] is_listing::<Stage1OutputRow, UsableOutputs, NewestSource>(
                state.outputs,
                UsableOutputs { threads },
                NewestSource {  },
                n as nat,
                listed,
            )
            &&& reads_outputs(listed, threads@, result)
        }
    }
}

/// What choosing the `n` outputs that phase two should rest on returns.
pub open spec fn selects_for_phase2(
    state: MemoryStoreView,
    threads: &Table<ThreadRow>,
    n: usize,
    max_unused_days: i64,
    now: i64,
    result: Result<Vec<Stage1Output>, MemoryStoreError>,
) -> bool {
    if n == 0 {
        result is Ok && result->Ok_0@.len() == 0
    } else if state.closed {
        result == Err::<Vec<Stage1Output>, MemoryStoreError>(MemoryStoreError::Closed)
    } else if now - retention(max_unused_days) < i64::MIN {
        result == Err::<Vec<Stage1Output>, MemoryStoreError>(MemoryStoreError::OutOfRange)
    } else {
        exists|ranked: Seq<Stage1OutputRowView>, ordered: Seq<Stage1OutputRowView>| {
            &&& #[trigger] is_listing::<Stage1OutputRow, RecentOutputs, MostUsed>(
                state.outputs,
                RecentOutputs { usable: UsableOutputs { threads }, cutoff: (now - retention(max_unused_days)) as i64 },
                MostUsed {  },
                n as nat,
                ranked,
            )
            &&& #[trigger] in_thread_order(ranked, ordered)
            &&& reads_outputs(ordered, threads@, result)
        }
    }
}

impl MemoryStore {
    /// Complete the global job, and mark the outputs that it rests on.
    pub fn mark_global_phase2_job_succeeded(
        &mut self,
        ownership_token: &str,
        completed_watermark: i64,
        selected_outputs: &[Stage1Output],
        now: i64,
    ) -> (result: Result<bool, MemoryStoreError>)
        ensures
            ({
                let (after, completed) = succeeding_phase2(
                    old(self)@,
                    ownership_token@,
                    completed_watermark,
                    output_views(selected_outputs@),
                    now,
                );
                (final(self)@, result) == unless_closed(old(self)@, (after, Ok(completed)))
            }),
    {
        if self.closed {
            return Err(MemoryStoreError::Closed);
        }
        let job = match self.owned_global_job(ownership_token, now) {
            Some(job) => job,
            None => {
                return Ok(false);
            },
        };
        let before: i64 = match job.last_success_watermark {
            Some(watermark) => watermark,
            None => 0,
        };
        let watermark: i64 = if completed_watermark > before { completed_watermark } else { before };
        self.global_job = Some(job.finished(Some(watermark), now));
        let mark = MarkSelection { chosen: selected_outputs };
        self.outputs.rewrite(&mark);
        assert(self@.outputs =~= old(self)@.outputs.map_values(|row: Stage1OutputRowView| marked(row, output_views(selected_outputs@))));
        Ok(true)
    }

    /// Count one use of the output of a thread for every entry, and say how many entries have one.
    pub fn record_stage1_output_usage(&mut self, thread_ids: &[ThreadId], now: i64) -> (result: Result<usize, MemoryStoreError>)
        ensures
            match result {
                Ok(count) => {
                    &&& thread_ids@.len() > 0 ==> !old(self)@.closed
                    &&& uses_fit(old(self)@.outputs, thread_ids@)
                    &&& count == known_entries(thread_ids@, old(self)@.outputs)
                    &&& final(self)@ == (MemoryStoreView {
                        outputs: old(self)@.outputs.map_values(|row: Stage1OutputRowView| used(row, thread_ids@, now)),
                        ..old(self)@
                    })
                },
                Err(error) => {
                    &&& thread_ids@.len() > 0
                    &&& final(self)@ == old(self)@
                    &&& if old(self)@.closed {
                        error == MemoryStoreError::Closed
                    } else {
                        !uses_fit(old(self)@.outputs, thread_ids@) && error == MemoryStoreError::OutOfRange
                    }
                },
            },
    {
        if thread_ids.len() > 0 && self.closed {
            return Err(MemoryStoreError::Closed);
        }
        let size: usize = self.outputs.len();
        let ghost rows = self.outputs.rows();
        proof {
            lemma_rows(self.outputs);
        }
        let mut i: usize = 0;
        while i < size
            invariant
                *self == *old(self),
                thread_ids@.len() > 0 ==> !old(self)@.closed,
                rows == self.outputs.rows(),
                size == rows.len(),
                distinct_keys::<Stage1OutputRow>(rows),
                i <= size,
                forall|j: int| 0 <= j < i ==> uses(rows[j]) + occurrences(thread_ids@, #[trigger] rows[j].thread_id) <= i64::MAX,
            decreases size - i,
        {
            let row = self.outputs.at(i);
            let count: usize = count_occurrences(thread_ids, row.thread_id);
            if added_uses(uses_of(row), count).is_none() {
                proof {
                    lemma_rows(self.outputs);
                    assert(self@.outputs.contains_key(rows[i as int].thread_id));
                    assert(thread_ids@.len() == 0 ==> occurrences(thread_ids@, rows[i as int].thread_id) == 0);
                }
                return Err(MemoryStoreError::OutOfRange);
            }
            i += 1;
        }
        proof {
            lemma_rows(self.outputs);
            assert forall|thread_id: ThreadId| #[trigger] self@.outputs.contains_key(thread_id) implies uses(self@.outputs[thread_id]) + occurrences(thread_ids@, thread_id) <= i64::MAX by {
                let k = choose|k: int| #[trigger] keyed_at::<Stage1OutputRow>(rows, thread_id, k) && rows[k] == self.outputs@[thread_id];
                assert(rows[k].thread_id == thread_id);
            }
        }
        let mut known: usize = 0;
        let mut k: usize = 0;
        while k < thread_ids.len()
            invariant
                *self == *old(self),
                thread_ids@.len() > 0 ==> !old(self)@.closed,
                k <= thread_ids@.len(),
                known <= k,
                known == known_entries(thread_ids@.take(k as int), self@.outputs),
                uses_fit(self@.outputs, thread_ids@),
            decreases thread_ids@.len() - k,
        {
            assert(thread_ids@.take(k + 1).drop_last() =~= thread_ids@.take(k as int));
            if self.outputs.contains(&thread_ids[k]) {
                known += 1;
            }
            k += 1;
        }
        assert(thread_ids@.take(k as int) =~= thread_ids@);
        let count_uses = CountUses { thread_ids, now };
        self.outputs.rewrite(&count_uses);
        proof {
            old(self).lemma_keyed();
            assert(self@.outputs =~= old(self)@.outputs.map_values(|row: Stage1OutputRowView| used(row, thread_ids@, now)));
        }
        Ok(known)
    }

    /// The newest `n` usable outputs.
    pub fn list_stage1_outputs_for_global(&self, threads: &Table<ThreadRow>, n: usize) -> (result: Result<Vec<Stage1Output>, MemoryStoreError>)
        ensures
            lists_for_global(self@, threads, n, result),
    {
        if n == 0 {
            return Ok(Vec::new());
        }
        if self.closed {
            return Err(MemoryStoreError::Closed);
        }
        let usable = UsableOutputs { threads };
        let ranking = NewestSource {  };
        let rows = self.outputs.select(&usable, &ranking, n);
        proof {
            assert forall|i: int| 0 <= i < rows@.len() implies threads@.contains_key(#[trigger] views(rows@)[i].thread_id) by {
                assert(row_selected::<Stage1OutputRow, UsableOutputs>(self.outputs@, usable, views(rows@)[i]));
            }
            assert(is_listing::<Stage1OutputRow, UsableOutputs, NewestSource>(self@.outputs, UsableOutputs { threads }, NewestSource {  }, n as nat, views(rows@)));
        }
        join_threads(rows, threads)
    }

    /// The `n` usable outputs that phase two should rest on, in thread order.
    pub fn get_phase2_input_selection(
        &self,
        threads: &Table<ThreadRow>,
        n: usize,
        max_unused_days: i64,
        now: i64,
    ) -> (result: Result<Vec<Stage1Output>, MemoryStoreError>)
        ensures
            selects_for_phase2(self@, threads, n, max_unused_days, now, result),
    {
        if n == 0 {
            return Ok(Vec::new());
        }
        if self.closed {
            return Err(MemoryStoreError::Closed);
        }
        let cutoff: i64 = match now.checked_sub(retention_seconds(max_unused_days)) {
            Some(cutoff) => cutoff,
            None => {
                return Err(MemoryStoreError::OutOfRange);
            },
        };
        let recent = RecentOutputs { usable: UsableOutputs { threads }, cutoff };
        let most_used = MostUsed {  };
        let ranked = self.outputs.select(&recent, &most_used, n);
        let ghost ranked_views = views(ranked@);
        let rows = sort_by_thread(ranked);
        let ghost ordered = views(rows@);
        proof {
            assert forall|i: int| 0 <= i < rows@.len() implies threads@.contains_key(#[trigger] views(rows@)[i].thread_id) by {
                assert(ordered.contains(ordered[i]));
                assert(ranked_views.contains(ordered[i]));
                let k = choose|k: int| 0 <= k < ranked_views.len() && ranked_views[k] == ordered[i];
                assert(row_selected::<Stage1OutputRow, RecentOutputs>(self.outputs@, recent, ranked_views[k]));
            }
            assert(in_thread_order(ranked_views, ordered));
            assert(is_listing::<Stage1OutputRow, RecentOutputs, MostUsed>(
                self@.outputs,
                RecentOutputs { usable: UsableOutputs { threads }, cutoff: (now - retention(max_unused_days)) as i64 },
                MostUsed {  },
                n as nat,
                ranked_views,
            ));
        }
        join_threads(rows, threads)
    }

    /// Drop at most `limit` outputs that were not used for too long, and say how many.
    pub fn prune_stage1_outputs_for_retention(
        &mut self,
        max_unused_days: i64,
        limit: usize,
        now: i64,
    ) -> (result: Result<usize, MemoryStoreError>)
        ensures
            match result {
                Ok(count) => if limit == 0 {
                    count == 0 && final(self)@ == old(self)@
                } else {
                    &&& !old(self)@.closed
                    &&& now - retention(max_unused_days) >= i64::MIN
                    &&& exists|victims: Seq<Stage1OutputRowView>| {
                        &&& #[trigger] is_listing::<Stage1OutputRow, StaleOutputs, LeastRecentlyUsed>(
                            old(self)@.outputs,
                            StaleOutputs { cutoff: (now - retention(max_unused_days)) as i64 },
                            LeastRecentlyUsed {  },
                            limit as nat,
                            victims,
                        )
                        &&& count == victims.len()
                        &&& final(self)@ == (MemoryStoreView {
                            outputs: old(self)@.outputs.remove_keys(threads_of(victims)),
                            ..old(self)@
                        })
                    }
                },
                Err(error) => {
                    &&& limit > 0
                    &&& final(self)@ == old(self)@
                    &&& if old(self)@.closed {
                        error == MemoryStoreError::Closed
                    } else {
                        now - retention(max_unused_days) < i64::MIN && error == MemoryStoreError::OutOfRange
                    }
                },
            },
    {
        if limit == 0 {
            return Ok(0);
        }
        if self.closed {
            return Err(MemoryStoreError::Closed);
        }
        let cutoff: i64 = match now.checked_sub(retention_seconds(max_unused_days)) {
            Some(cutoff) => cutoff,
            None => {
                return Err(MemoryStoreError::OutOfRange);
            },
        };
        let stale = StaleOutputs { cutoff };
        let ranking = LeastRecentlyUsed {  };
        let victims = self.outputs.select(&stale, &ranking, limit);
        let ghost gone = views(victims@);
        let mut i: usize = 0;
        assert(self@.outputs.remove_keys(threads_of(gone.take(0))) =~= self@.outputs);
        while i < victims.len()
            invariant
                gone == views(victims@),
                i <= victims@.len(),
                self@ == (MemoryStoreView { outputs: old(self)@.outputs.remove_keys(threads_of(gone.take(i as int))), ..old(self)@ }),
            decreases victims@.len() - i,
        {
            assert(gone[i as int] == victims@[i as int]@);
            self.outputs.remove(&victims[i].thread_id);
            proof {
                let later = gone.take(i + 1);
                let earlier = gone.take(i as int);
                assert forall|t: ThreadId| threads_of(later).contains(t) <==> threads_of(earlier).contains(t) || t == gone[i as int].thread_id by {
                    if threads_of(later).contains(t) {
                        let k = choose|k: int| 0 <= k < later.len() && #[trigger] later[k].thread_id == t;
                        if k < i {
                            assert(earlier[k].thread_id == t);
                        }
                    }
                    if threads_of(earlier).contains(t) {
                        let k = choose|k: int| 0 <= k < earlier.len() && #[trigger] earlier[k].thread_id == t;
                        assert(later[k].thread_id == t);
                    }
                    if t == gone[i as int].thread_id {
                        assert(later[i as int].thread_id == t);
                    }
                }
                assert(self@.outputs =~= old(self)@.outputs.remove_keys(threads_of(later)));
            }
            i += 1;
        }
        assert(gone.take(i as int) =~= gone);
        Ok(victims.len())
    }
}

/// The rows in thread order.
fn sort_by_thread(ranked: Vec<Stage1OutputRow>) -> (ordered: Vec<Stage1OutputRow>)
    requires
        distinct_keys::<Stage1OutputRow>(views(ranked@)),
    ensures
        in_thread_order(views(ranked@), views(ordered@)),
{
    let ghost all = views(ranked@);
    let mut table: Table<Stage1OutputRow> = Table::new();
    let mut i: usize = 0;
    while i < ranked.len()
        invariant
            all == views(ranked@),
            distinct_keys::<Stage1OutputRow>(all),
            i <= ranked@.len(),
            forall|thread_id: ThreadId| #[trigger] table@.contains_key(thread_id) ==> exists|k: int| 0 <= k < i && #[trigger] all[k] == table@[thread_id] && all[k].thread_id == thread_id,
            forall|k: int| 0 <= k < i ==> table@.contains_key(#[trigger] all[k].thread_id) && table@[all[k].thread_id] == all[k],
        decreases ranked@.len() - i,
    {
        assert(all[i as int] == ranked@[i as int]@);
        let ghost before = table@;
        table.put(ranked[i].duplicate());
        proof {
            assert forall|k: int| 0 <= k < i + 1 implies table@.contains_key(#[trigger] all[k].thread_id) && table@[all[k].thread_id] == all[k] by {
                if k < i {
                    assert(Stage1OutputRow::key_of(all[k]) != Stage1OutputRow::key_of(all[i as int]));
                }
            }
            assert forall|thread_id: ThreadId| #[trigger] table@.contains_key(thread_id) implies exists|k: int| 0 <= k < i + 1 && #[trigger] all[k] == table@[thread_id] && all[k].thread_id == thread_id by {
                if thread_id == all[i as int].thread_id {
                    assert(all[i as int] == table@[thread_id]);
                } else {
                    assert(before.contains_key(thread_id));
                }
            }
        }
        i += 1;
    }
    let every = EveryOutput {  };
    let by_thread = ByThread {  };
    let ordered = table.select_all(&every, &by_thread);
    proof {
        let out = views(ordered@);
        assert forall|row: Stage1OutputRowView| #[trigger] all.contains(row) <==> out.contains(row) by {
            if all.contains(row) {
                let k = choose|k: int| 0 <= k < all.len() && all[k] == row;
                assert(row_selected::<Stage1OutputRow, EveryOutput>(table@, every, row));
            }
            if out.contains(row) {
                let k = choose|k: int| 0 <= k < out.len() && out[k] == row;
                assert(row_selected::<Stage1OutputRow, EveryOutput>(table@, every, out[k]));
                assert(table@.contains_key(row.thread_id));
            }
        }
        assert forall|a: int, b: int| #![trigger out[a], out[b]] 0 <= a < b < out.len() implies out[a].thread_id.value < out[b].thread_id.value by {
            assert(Stage1OutputRow::key_of(out[a]) != Stage1OutputRow::key_of(out[b]));
            assert(!by_thread.before(out[b], out[a]));
        }
    }
    ordered
}

} // verus!
