//! Thread identifiers.

pub mod laws;

use crate::outside::parse_thread_id;
use crate::outside::parsed_uuid;
use crate::outside::thread_id_text;
use crate::outside::uuid_text;
use crate::table::Row;
use vstd::prelude::*;

verus! {

/// Identifier of a thread: the 128 bits of its UUID.
///
/// The order of two identifiers is that of their hyphenated lower-case texts.
#[derive(Clone, Copy, Debug, PartialEq, Eq, PartialOrd, Ord, Hash, Structural)]
pub struct ThreadId {
    pub value: u128,
}

impl ThreadId {
    /// The hyphenated text of the identifier, as the databases store it.
    pub fn text(self) -> (text: String)
        ensures
            text@ == uuid_text(self.value),
    {
        thread_id_text(self)
    }

    /// Reads the text of an identifier.
    pub fn from_text(text: &str) -> (id: Option<ThreadId>)
        ensures
            match id {
                Some(id) => parsed_uuid(text@) == Some(id.value),
                None => parsed_uuid(text@) is None,
            },
            forall|value: u128| text@ == #[trigger] uuid_text(value) ==> id == Some(ThreadId { value }),
    {
        parse_thread_id(text)
    }
}

impl View for ThreadId {
    type V = ThreadId;

    open spec fn view(&self) -> ThreadId {
        *self
    }
}

impl Row for ThreadId {
    type Key = ThreadId;

    open spec fn key_of(row: ThreadId) -> ThreadId {
        row
    }

    fn has_key(&self, key: &ThreadId) -> (found: bool) {
        *self == *key
    }

    fn same_key(&self, other: &ThreadId) -> (same: bool) {
        *self == *other
    }

    fn duplicate(&self) -> (copy: ThreadId) {
        *self
    }
}

/// The value behind an optional view.
pub open spec fn opt_view<T: View>(value: Option<T>) -> Option<T::V> {
    match value {
        Some(inner) => Some(inner@),
        None => None,
    }
}

} // verus!
