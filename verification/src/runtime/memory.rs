//! What memory takes from the threads.

use super::StateRuntime;
use super::StateRuntimeView;
use crate::memory_store::outputs::lists_for_global;
use crate::memory_store::outputs::selects_for_phase2;
use crate::memory_store::phase2::enqueued;
use crate::memory_store::startup::claims_at_startup;
use crate::memory_store::startup::is_pollution_news;
use crate::memory_store::startup::is_selected;
use crate::memory_store::startup::polluted_threads;
use crate::memory_store::MemoryStoreError;
use crate::memory_store::Stage1JobClaim;
use crate::memory_store::Stage1Output;
use crate::memory_store::Stage1StartupClaimParams;
use crate::table::Table;
use crate::thread_id::ThreadId;
use crate::threads::ThreadRow;
use vstd::prelude::*;

verus! {

impl StateRuntime {
    /// The newest `n` usable outputs.
    pub fn list_stage1_outputs_for_global(&self, n: usize) -> (result: Result<Vec<Stage1Output>, MemoryStoreError>)
        ensures
            exists|threads: &Table<ThreadRow>| threads@ == self@.threads && #[trigger] lists_for_global(self@.memories, threads, n, result),
    {
        self.memories.list_stage1_outputs_for_global(&self.threads, n)
    }

    /// The `n` usable outputs that phase two should rest on, in thread order.
    pub fn get_phase2_input_selection(&self, n: usize, max_unused_days: i64, now: i64) -> (result: Result<Vec<Stage1Output>, MemoryStoreError>)
        ensures
            exists|threads: &Table<ThreadRow>|
                threads@ == self@.threads && #[trigger] selects_for_phase2(self@.memories, threads, n, max_unused_days, now, result),
    {
        self.memories.get_phase2_input_selection(&self.threads, n, max_unused_days, now)
    }

    /// Claim the jobs of idle threads, at most `max_claimed` of them, each under a fresh token.
    pub fn claim_stage1_jobs_for_startup(
        &mut self,
        current_thread_id: ThreadId,
        params: Stage1StartupClaimParams<'_>,
        now_ms: i64,
    ) -> (result: Result<Vec<Stage1JobClaim>, MemoryStoreError>)
        ensures
            final(self)@ == (StateRuntimeView { memories: final(self)@.memories, ..old(self)@ }),
            claims_at_startup(
                old(self)@.memories,
                old(self)@.threads,
                current_thread_id,
                params,
                now_ms,
                final(self)@.memories,
                result,
            ),
    {
        self.memories.claim_stage1_jobs_for_startup(&self.threads, current_thread_id, params, now_ms)
    }

    /// Records that the memory of a thread is polluted. Says whether that is news.
    pub fn mark_thread_memory_mode_polluted(&mut self, thread_id: ThreadId, now: i64) -> (result: Result<bool, MemoryStoreError>)
        ensures
            ({
                let before = old(self)@;
                let after = final(self)@;
                &&& after == (StateRuntimeView { memories: after.memories, threads: after.threads, ..before })
                &&& match result {
                    Ok(changed) => {
                        &&& !before.memories.closed
                        &&& changed == (before.threads.contains_key(thread_id) && is_pollution_news(before.threads[thread_id]))
                        &&& polluted_threads(before.memories.backend, before.threads, thread_id, after.threads)
                        &&& if before.threads.contains_key(thread_id) && is_selected(before.memories, thread_id) {
                            &&& enqueued(before.memories.global_job, now) is Some
                            &&& after.memories == before.memories.with_global_job(enqueued(before.memories.global_job, now)->0)
                        } else {
                            after.memories == before.memories
                        }
                    },
                    Err(error) => {
                        &&& after == before
                        &&& if before.memories.closed {
                            error == MemoryStoreError::Closed
                        } else {
                            &&& error == MemoryStoreError::OutOfRange
                            &&& before.threads.contains_key(thread_id)
                            &&& is_selected(before.memories, thread_id)
                            &&& enqueued(before.memories.global_job, now) is None
                        }
                    },
                }
            }),
    {
        self.memories.mark_thread_memory_mode_polluted(&mut self.threads, thread_id, now)
    }
}

} // verus!
