//! Sections of threads.

use super::StateRuntime;
use super::StateRuntimeView;
use crate::table::is_listing;
use crate::table::views;
use crate::table::Change;
use crate::table::Condition;
use crate::table::Ranking;
use crate::text::is_text_before;
use crate::text::lemma_text_before_asymmetric;
use crate::text::lemma_text_before_total;
use crate::text::lemma_text_before_transitive;
use crate::text::same_text;
use crate::text::text_before;
use crate::thread_id::opt_view;
use crate::threads::ThreadMetadata;
use crate::threads::ThreadRow;
use crate::threads::ThreadSection;
use crate::threads::ThreadSectionAppearance;
use vstd::prelude::*;
use vstd::string::*;

verus! {

/// One page of sections.
#[derive(Debug, PartialEq, Eq)]
pub struct ThreadSectionsPage {
    pub sections: Vec<ThreadSection>,
    /// Where the next page goes on, if there is one.
    pub next_cursor: Option<String>,
}

/// The thread is in the section.
pub open spec fn in_section(row: ThreadRow, section: Seq<char>) -> bool {
    row.metadata.section is Some && row.metadata.section->0.id@ == section
}

pub(super) fn is_in_section(row: &ThreadRow, section: &str) -> (r: bool)
    ensures
        r == in_section(*row, section@),
{
    match &row.metadata.section {
        Some(held) => same_text(held.id.as_str(), section),
        None => false,
    }
}

/// The thread in the given section at the given place.
pub open spec fn placed(row: ThreadRow, section: Option<ThreadSection>, position: Option<i64>, entered_at: Option<i64>) -> ThreadRow {
    ThreadRow {
        metadata: ThreadMetadata { section, section_position: position, section_entered_at: entered_at, ..row.metadata },
        ..row
    }
}

/// Sets the section of those threads that are in it.
pub struct RefreshSection {
    pub section: ThreadSection,
}

impl Change<ThreadRow> for RefreshSection {
    open spec fn changed(&self, row: ThreadRow) -> ThreadRow {
        if in_section(row, self.section.id@) {
            placed(row, Some(self.section), row.metadata.section_position, row.metadata.section_entered_at)
        } else {
            row
        }
    }

    fn apply(&self, row: &ThreadRow) -> (after: ThreadRow) {
        let mut after = row.clone();
        if is_in_section(row, self.section.id.as_str()) {
            after.metadata.section = Some(self.section.clone());
        }
        after
    }

    proof fn keeps_key(&self, row: ThreadRow) {
    }
}

/// Takes those threads out of the section that are in it.
pub struct ClearSection<'a> {
    pub id: &'a str,
}

impl<'a> Change<ThreadRow> for ClearSection<'a> {
    open spec fn changed(&self, row: ThreadRow) -> ThreadRow {
        if in_section(row, self.id@) {
            placed(row, None, None, None)
        } else {
            row
        }
    }

    fn apply(&self, row: &ThreadRow) -> (after: ThreadRow) {
        let mut after = row.clone();
        if is_in_section(row, self.id) {
            after.metadata.section = None;
            after.metadata.section_position = None;
            after.metadata.section_entered_at = None;
        }
        after
    }

    proof fn keeps_key(&self, row: ThreadRow) {
    }
}

/// Sections whose identifier follows the cursor.
pub struct AfterCursor<'a> {
    pub cursor: Option<&'a str>,
}

impl<'a> Condition<ThreadSection> for AfterCursor<'a> {
    open spec fn holds(&self, row: ThreadSection) -> bool {
        self.cursor is Some ==> text_before(self.cursor->0@, row.id@)
    }

    fn test(&self, row: &ThreadSection) -> (held: bool) {
        match self.cursor {
            Some(cursor) => is_text_before(cursor, row.id.as_str()),
            None => true,
        }
    }
}

/// By identifier.
pub struct BySectionId {}

impl Ranking<ThreadSection> for BySectionId {
    open spec fn before(&self, a: ThreadSection, b: ThreadSection) -> bool {
        text_before(a.id@, b.id@)
    }

    fn is_before(&self, a: &ThreadSection, b: &ThreadSection) -> (r: bool) {
        is_text_before(a.id.as_str(), b.id.as_str())
    }

    proof fn asymmetric(&self, a: ThreadSection, b: ThreadSection) {
        lemma_text_before_asymmetric(a.id@, b.id@);
    }

    proof fn negatively_transitive(&self, a: ThreadSection, b: ThreadSection, c: ThreadSection) {
        if text_before(c.id@, a.id@) && a.id@ != b.id@ && b.id@ != c.id@ {
            lemma_text_before_total(a.id@, b.id@);
            lemma_text_before_total(b.id@, c.id@);
            lemma_text_before_transitive(a.id@, b.id@, c.id@);
            lemma_text_before_asymmetric(a.id@, c.id@);
        }
    }
}

/// The size of a page: at least one section.
pub open spec fn section_page_size(limit: usize) -> nat {
    if limit == 0 {
        1
    } else {
        limit as nat
    }
}

/// How many sections are read for a page: one more than it holds, where that can be counted.
pub open spec fn section_fetch_size(limit: usize) -> nat {
    if limit == usize::MAX {
        usize::MAX as nat
    } else {
        section_page_size(limit) + 1
    }
}

/// `page` holds the first sections after the cursor, and names the last of them if more follow.
pub open spec fn is_section_page(
    sections: Map<Seq<char>, ThreadSection>,
    cursor: Option<&str>,
    limit: usize,
    page: ThreadSectionsPage,
) -> bool {
    let size = section_page_size(limit);
    exists|fetched: Seq<ThreadSection>| {
        &&& #[trigger] is_listing::<ThreadSection, AfterCursor, BySectionId>(
            sections,
            AfterCursor { cursor },
            BySectionId {  },
            section_fetch_size(limit),
            fetched,
        )
        &&& if fetched.len() > size {
            &&& page.sections@ == fetched.take(size as int)
            &&& opt_view(page.next_cursor) == Some(fetched[size - 1].id@)
        } else {
            &&& page.sections@ == fetched
            &&& page.next_cursor is None
        }
    }
}

/// Why a section could not be changed, read or moved to.
#[derive(Debug, PartialEq, Eq)]
pub enum ThreadSectionError {
    /// There is a section with the identifier already.
    Exists(String),
    /// The page is too large to be asked for.
    LimitOutOfRange,
}

impl ThreadSectionError {
    pub open spec fn text(self) -> Seq<char> {
        match self {
            ThreadSectionError::Exists(id) => "section "@ + id@ + " already exists"@,
            ThreadSectionError::LimitOutOfRange => "section page limit exceeds supported range"@,
        }
    }

    pub fn message(&self) -> (text: String)
        ensures
            text@ == self.text(),
    {
        match self {
            ThreadSectionError::Exists(id) => {
                let mut text = "section ".to_owned();
                text.append(id.as_str());
                text.append(" already exists");
                text
            },
            ThreadSectionError::LimitOutOfRange => "section page limit exceeds supported range".to_owned(),
        }
    }
}

impl StateRuntime {
    /// Creates a section.
    pub fn create_thread_section(&mut self, section: ThreadSection) -> (result: Result<ThreadSection, ThreadSectionError>)
        ensures
            match result {
                Ok(created) => {
                    &&& !old(self)@.sections.contains_key(section.id@)
                    &&& created == section
                    &&& final(self)@ == (StateRuntimeView { sections: old(self)@.sections.insert(section.id@, section), ..old(self)@ })
                },
                Err(error) => {
                    &&& old(self)@.sections.contains_key(section.id@)
                    &&& error == ThreadSectionError::Exists(section.id)
                    &&& final(self)@ == old(self)@
                },
            },
    {
        if self.sections.contains(&section.id) {
            return Err(ThreadSectionError::Exists(section.id));
        }
        self.sections.put(section.clone());
        Ok(section)
    }

    /// Renames a section, and replaces its appearance if one is given. The threads in the section
    /// see the change.
    pub fn rename_thread_section(
        &mut self,
        id: &str,
        name: &str,
        appearance: Option<Option<ThreadSectionAppearance>>,
    ) -> (renamed: Option<ThreadSection>)
        ensures
            match renamed {
                Some(section) => {
                    &&& old(self)@.sections.contains_key(id@)
                    &&& section.id == old(self)@.sections[id@].id
                    &&& section.id@ == id@
                    &&& section.name@ == name@
                    &&& section.appearance == match appearance {
                        Some(appearance) => appearance,
                        None => old(self)@.sections[id@].appearance,
                    }
                    &&& final(self)@ == (StateRuntimeView {
                        sections: old(self)@.sections.insert(id@, section),
                        threads: old(self)@.threads.map_values(|row: ThreadRow| (RefreshSection { section }).changed(row)),
                        ..old(self)@
                    })
                },
                None => !old(self)@.sections.contains_key(id@) && final(self)@ == old(self)@,
            },
    {
        let key = id.to_owned();
        let mut section = match self.sections.get(&key) {
            Some(section) => section.clone(),
            None => return None,
        };
        section.name = name.to_owned();
        if let Some(appearance) = appearance {
            section.appearance = appearance;
        }
        self.sections.put(section.clone());
        let change = RefreshSection { section };
        self.threads.rewrite(&change);
        Some(change.section)
    }

    /// Deletes a section. The threads in it are in none from then on.
    pub fn delete_thread_section(&mut self, id: &str) -> (deleted: bool)
        ensures
            deleted == old(self)@.sections.contains_key(id@),
            final(self)@ == (StateRuntimeView {
                sections: old(self)@.sections.remove(id@),
                threads: old(self)@.threads.map_values(|row: ThreadRow| (ClearSection { id }).changed(row)),
                ..old(self)@
            }),
    {
        let key = id.to_owned();
        self.threads.rewrite(&ClearSection { id });
        self.sections.remove(&key).is_some()
    }

    pub fn get_thread_section(&self, id: &str) -> (section: Option<ThreadSection>)
        ensures
            section == if self@.sections.contains_key(id@) {
                Some(self@.sections[id@])
            } else {
                None::<ThreadSection>
            },
    {
        let key = id.to_owned();
        match self.sections.get(&key) {
            Some(section) => Some(section.clone()),
            None => None,
        }
    }

    /// One page of the sections, in the order of their identifiers.
    pub fn list_thread_sections(&self, cursor: Option<&str>, limit: usize) -> (result: Result<ThreadSectionsPage, ThreadSectionError>)
        ensures
            match result {
                Ok(page) => {
                    &&& section_fetch_size(limit) <= i64::MAX
                    &&& is_section_page(self@.sections, cursor, limit, page)
                },
                Err(error) => {
                    &&& section_fetch_size(limit) > i64::MAX
                    &&& error == ThreadSectionError::LimitOutOfRange
                },
            },
    {
        let size: usize = if limit == 0 {
            1
        } else {
            limit
        };
        let fetch_size: usize = if size == usize::MAX {
            usize::MAX
        } else {
            size + 1
        };
        if fetch_size as u128 > i64::MAX as u128 {
            return Err(ThreadSectionError::LimitOutOfRange);
        }
        let condition = AfterCursor { cursor };
        let mut sections = self.sections.select(&condition, &BySectionId {  }, fetch_size);
        let ghost fetched = sections@;
        assert(views(fetched) =~= fetched);
        assert(is_listing::<ThreadSection, AfterCursor, BySectionId>(self@.sections, condition, BySectionId {  }, fetch_size as nat, fetched));
        let mut next_cursor: Option<String> = None;
        if sections.len() > size {
            sections.truncate(size);
            next_cursor = Some(sections[size - 1].id.clone());
            assert(sections@ =~= fetched.take(size as int));
        }
        Ok(ThreadSectionsPage { sections, next_cursor })
    }
}

} // verus!
