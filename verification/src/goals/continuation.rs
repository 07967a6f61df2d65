//! Continuations of a goal that wait for an explicit turn.

use super::unavailable;
use super::GoalStore;
use super::GoalStoreError;
use super::GoalStoreFailure;
use super::GoalStoreOperation;
use super::GoalStoreResult;
use super::GoalStoreView;
use super::ThreadGoal;
use crate::thread_id::ThreadId;
use vstd::prelude::*;

verus! {

impl GoalStore {
    /// Store a goal exactly as given, and defer its continuation.
    pub fn replace_thread_goal_snapshot(&mut self, goal: &ThreadGoal) -> (result: GoalStoreResult<()>)
        ensures
            match result {
                Ok(_) => {
                    &&& !old(self)@.closed
                    &&& final(self)@ == (GoalStoreView {
                        goals: old(self)@.goals.insert(goal@.thread_id, goal@),
                        deferrals: old(self)@.deferrals.insert(goal@.thread_id),
                        ..old(self)@
                    })
                },
                Err(error) => {
                    &&& old(self)@.closed
                    &&& error@ == unavailable(GoalStoreOperation::ReplaceThreadGoalSnapshot)
                    &&& final(self)@ == old(self)@
                },
            },
    {
        if self.closed {
            return Err(GoalStoreError::from_source(GoalStoreOperation::ReplaceThreadGoalSnapshot, GoalStoreFailure::Unavailable));
        }
        let thread_id = goal.thread_id;
        self.goals.put(goal.clone());
        self.deferrals.put(thread_id);
        assert(self@.deferrals =~= old(self)@.deferrals.insert(thread_id));
        Ok(())
    }

    pub fn has_thread_goal_continuation_deferral(&self, thread_id: ThreadId) -> (result: GoalStoreResult<bool>)
        ensures
            match result {
                Ok(deferred) => !self@.closed && deferred == self@.deferrals.contains(thread_id),
                Err(error) => {
                    &&& self@.closed
                    &&& error@ == unavailable(GoalStoreOperation::HasThreadGoalContinuationDeferral)
                },
            },
    {
        if self.closed {
            return Err(GoalStoreError::from_source(GoalStoreOperation::HasThreadGoalContinuationDeferral, GoalStoreFailure::Unavailable));
        }
        Ok(self.deferrals.contains(&thread_id))
    }

    pub fn clear_thread_goal_continuation_deferral(&mut self, thread_id: ThreadId) -> (result: GoalStoreResult<()>)
        ensures
            match result {
                Ok(_) => {
                    &&& !old(self)@.closed
                    &&& final(self)@ == (GoalStoreView {
                        deferrals: old(self)@.deferrals.remove(thread_id),
                        ..old(self)@
                    })
                },
                Err(error) => {
                    &&& old(self)@.closed
                    &&& error@ == unavailable(GoalStoreOperation::ClearThreadGoalContinuationDeferral)
                    &&& final(self)@ == old(self)@
                },
            },
    {
        if self.closed {
            return Err(GoalStoreError::from_source(GoalStoreOperation::ClearThreadGoalContinuationDeferral, GoalStoreFailure::Unavailable));
        }
        self.deferrals.remove(&thread_id);
        assert(self@.deferrals =~= old(self)@.deferrals.remove(thread_id));
        Ok(())
    }
}

} // verus!
