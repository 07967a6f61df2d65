//! The memory mode that the history of a thread records.

use crate::outside::thread_id_text;
use crate::outside::uuid_text;
use crate::text::is_text;
use crate::text::same_text;
use crate::thread_id::opt_view;
use crate::thread_id::ThreadId;
use vstd::prelude::*;
use vstd::string::*;

verus! {

/// What matters of an item in the history of a thread.
#[derive(Debug, PartialEq, Eq)]
pub struct HistoryItem {
    pub ordinal: i64,
    /// What the item is.
    pub item_type: String,
    /// The thread that the item speaks of.
    pub payload_id: Option<String>,
    pub memory_mode: Option<String>,
}

/// The item records the memory mode of the thread.
pub open spec fn records_mode(item: HistoryItem, thread_id: ThreadId) -> bool {
    &&& item.item_type@ == "session_meta"@
    &&& opt_view(item.payload_id) == Some(uuid_text(thread_id.value))
    &&& item.memory_mode is Some
}

/// The item is the last one that records the memory mode of the thread.
pub open spec fn is_canonical(items: Seq<HistoryItem>, thread_id: ThreadId, i: int) -> bool {
    &&& 0 <= i < items.len()
    &&& records_mode(items[i], thread_id)
    &&& forall|j: int| 0 <= j < items.len() && records_mode(#[trigger] items[j], thread_id) ==> items[j].ordinal <= items[i].ordinal
}

/// The recorded mode and the position of its record: of the last record, or the mode of threads
/// without one.
pub open spec fn is_canonical_mode(items: Seq<HistoryItem>, thread_id: ThreadId, mode: Seq<char>, ordinal: i64) -> bool {
    if exists|i: int| #[trigger] is_canonical(items, thread_id, i) {
        exists|i: int| #[trigger] is_canonical(items, thread_id, i) && mode == items[i].memory_mode->0@ && ordinal == items[i].ordinal
    } else {
        mode == "enabled"@ && ordinal == -1
    }
}

/// The memory mode that the history of a thread records, and the position of its record.
pub fn canonical_memory_mode(items: &[HistoryItem], thread_id: ThreadId) -> (recorded: (String, i64))
    ensures
        is_canonical_mode(items@, thread_id, recorded.0@, recorded.1),
{
    let text = thread_id_text(thread_id);
    let mut found: Option<usize> = None;
    let mut i: usize = 0;
    while i < items.len()
        invariant
            text@ == uuid_text(thread_id.value),
            i <= items@.len(),
            match found {
                Some(k) => {
                    &&& k < i
                    &&& records_mode(items@[k as int], thread_id)
                    &&& forall|j: int| 0 <= j < i && records_mode(#[trigger] items@[j], thread_id) ==> items@[j].ordinal <= items@[k as int].ordinal
                },
                None => forall|j: int| 0 <= j < i ==> !records_mode(#[trigger] items@[j], thread_id),
            },
        decreases items@.len() - i,
    {
        let item = &items[i];
        let records = same_text(item.item_type.as_str(), "session_meta") && is_text(&item.payload_id, text.as_str()) && item.memory_mode.is_some();
        assert(records == records_mode(items@[i as int], thread_id));
        if records {
            let later = match found {
                Some(k) => items[k].ordinal <= item.ordinal,
                None => true,
            };
            if later {
                found = Some(i);
            }
        }
        i += 1;
    }
    match found {
        Some(k) => {
            assert(is_canonical(items@, thread_id, k as int));
            match &items[k].memory_mode {
                Some(mode) => (mode.clone(), items[k].ordinal),
                None => ("enabled".to_owned(), -1),
            }
        },
        None => ("enabled".to_owned(), -1),
    }
}

/// Items that do not record the memory mode of the thread change nothing.
pub proof fn law_other_items_do_not_decide(items: Seq<HistoryItem>, item: HistoryItem, thread_id: ThreadId, mode: Seq<char>, ordinal: i64)
    requires
        !records_mode(item, thread_id),
        is_canonical_mode(items, thread_id, mode, ordinal),
    ensures
        is_canonical_mode(items.push(item), thread_id, mode, ordinal),
{
    let longer = items.push(item);
    assert forall|i: int| #[trigger] is_canonical(items, thread_id, i) implies is_canonical(longer, thread_id, i) by {
        assert forall|j: int| 0 <= j < longer.len() && records_mode(#[trigger] longer[j], thread_id) implies longer[j].ordinal <= longer[i].ordinal by {
            assert(j < items.len());
            assert(items[j] == longer[j]);
        }
    }
    assert forall|i: int| #[trigger] is_canonical(longer, thread_id, i) implies is_canonical(items, thread_id, i) by {
        assert(i < items.len());
        assert forall|j: int| 0 <= j < items.len() && records_mode(#[trigger] items[j], thread_id) implies items[j].ordinal <= items[i].ordinal by {
            assert(items[j] == longer[j]);
        }
    }
}

/// A record at the end of the history decides the memory mode.
pub proof fn law_last_record_decides(items: Seq<HistoryItem>, item: HistoryItem, thread_id: ThreadId, mode: Seq<char>, ordinal: i64)
    requires
        records_mode(item, thread_id),
        forall|j: int| 0 <= j < items.len() ==> (#[trigger] items[j]).ordinal < item.ordinal,
        is_canonical_mode(items.push(item), thread_id, mode, ordinal),
    ensures
        mode == item.memory_mode->0@,
        ordinal == item.ordinal,
{
    let longer = items.push(item);
    let last = items.len() as int;
    assert(longer[last] == item);
    assert(is_canonical(longer, thread_id, last));
    let i = choose|i: int| #[trigger] is_canonical(longer, thread_id, i) && mode == longer[i].memory_mode->0@ && ordinal == longer[i].ordinal;
    if i != last {
        assert(longer[i] == items[i]);
        assert(longer[last].ordinal <= longer[i].ordinal);
    }
}

} // verus!
