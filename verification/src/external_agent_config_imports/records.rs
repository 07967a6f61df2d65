//! What is recorded of a completed import.

use crate::threads::clone_text;
use vstd::prelude::*;

verus! {

/// Something that was imported.
#[derive(Debug, PartialEq, Eq)]
pub struct ExternalAgentConfigImportSuccessRecord {
    pub item_type: String,
    pub cwd: Option<String>,
    pub source: Option<String>,
    pub target: Option<String>,
    pub title: Option<String>,
}

impl Clone for ExternalAgentConfigImportSuccessRecord {
    fn clone(&self) -> (copy: Self)
        ensures
            copy == *self,
    {
        ExternalAgentConfigImportSuccessRecord {
            item_type: self.item_type.clone(),
            cwd: clone_text(&self.cwd),
            source: clone_text(&self.source),
            target: clone_text(&self.target),
            title: clone_text(&self.title),
        }
    }
}

/// Something that could not be imported.
#[derive(Debug, PartialEq, Eq)]
pub struct ExternalAgentConfigImportFailureRecord {
    pub item_type: String,
    pub error_type: Option<String>,
    pub sub_error_type: Option<String>,
    pub failure_stage: String,
    pub message: String,
    pub cwd: Option<String>,
    pub source: Option<String>,
}

impl Clone for ExternalAgentConfigImportFailureRecord {
    fn clone(&self) -> (copy: Self)
        ensures
            copy == *self,
    {
        ExternalAgentConfigImportFailureRecord {
            item_type: self.item_type.clone(),
            error_type: clone_text(&self.error_type),
            sub_error_type: clone_text(&self.sub_error_type),
            failure_stage: self.failure_stage.clone(),
            message: self.message.clone(),
            cwd: clone_text(&self.cwd),
            source: clone_text(&self.source),
        }
    }
}

/// The outcome of an import.
#[derive(Debug, PartialEq, Eq)]
pub struct ExternalAgentConfigImportDetailsRecord {
    pub successes: Vec<ExternalAgentConfigImportSuccessRecord>,
    pub failures: Vec<ExternalAgentConfigImportFailureRecord>,
}

impl Clone for ExternalAgentConfigImportDetailsRecord {
    fn clone(&self) -> (copy: Self)
        ensures
            copy.successes@ == self.successes@,
            copy.failures@ == self.failures@,
    {
        ExternalAgentConfigImportDetailsRecord {
            successes: copy_successes(self.successes.as_slice()),
            failures: copy_failures(self.failures.as_slice()),
        }
    }
}

/// A completed import.
#[derive(Debug, PartialEq, Eq)]
pub struct ExternalAgentConfigImportHistoryRecord {
    pub import_id: String,
    pub provider_id: Option<String>,
    pub completed_at_ms: i64,
    pub successes: Vec<ExternalAgentConfigImportSuccessRecord>,
    pub failures: Vec<ExternalAgentConfigImportFailureRecord>,
}

impl Clone for ExternalAgentConfigImportHistoryRecord {
    fn clone(&self) -> (copy: Self)
        ensures
            copy.import_id == self.import_id,
            copy.provider_id == self.provider_id,
            copy.completed_at_ms == self.completed_at_ms,
            copy.successes@ == self.successes@,
            copy.failures@ == self.failures@,
    {
        ExternalAgentConfigImportHistoryRecord {
            import_id: self.import_id.clone(),
            provider_id: clone_text(&self.provider_id),
            completed_at_ms: self.completed_at_ms,
            successes: copy_successes(self.successes.as_slice()),
            failures: copy_failures(self.failures.as_slice()),
        }
    }
}

pub(super) fn copy_successes(items: &[ExternalAgentConfigImportSuccessRecord]) -> (copy: Vec<ExternalAgentConfigImportSuccessRecord>)
    ensures
        copy@ == items@,
{
    let mut copy: Vec<ExternalAgentConfigImportSuccessRecord> = Vec::new();
    let mut i: usize = 0;
    while i < items.len()
        invariant
            i <= items@.len(),
            copy@ == items@.take(i as int),
        decreases items@.len() - i,
    {
        copy.push(items[i].clone());
        assert(items@.take(i + 1) =~= items@.take(i as int).push(items@[i as int]));
        i += 1;
    }
    assert(items@.take(i as int) =~= items@);
    copy
}

pub(super) fn copy_failures(items: &[ExternalAgentConfigImportFailureRecord]) -> (copy: Vec<ExternalAgentConfigImportFailureRecord>)
    ensures
        copy@ == items@,
{
    let mut copy: Vec<ExternalAgentConfigImportFailureRecord> = Vec::new();
    let mut i: usize = 0;
    while i < items.len()
        invariant
            i <= items@.len(),
            copy@ == items@.take(i as int),
        decreases items@.len() - i,
    {
        copy.push(items[i].clone());
        assert(items@.take(i + 1) =~= items@.take(i as int).push(items@[i as int]));
        i += 1;
    }
    assert(items@.take(i as int) =~= items@);
    copy
}

} // verus!
