//! The order of the threads in a section.
//!
//! Each thread in a section has a position, with gaps between the positions. A thread is moved
//! by giving it a position in the right gap; when a gap is used up, the positions of the section
//! are spread out again.

use super::sections::in_section;
use super::sections::is_in_section;
use super::sections::placed;
use super::StateRuntime;
use super::StateRuntimeView;
use crate::outside::now_millis;
use crate::outside::thread_id_text;
use crate::outside::uuid_text;
use crate::table::is_full_listing;
use crate::table::row_selected;
use crate::table::views;
use crate::table::Condition;
use crate::table::Ranking;
use crate::table::Row;
use crate::table::Table;
use crate::thread_id::ThreadId;
use crate::threads::ThreadRow;
use crate::threads::ThreadSection;
use vstd::prelude::*;
use vstd::string::*;

verus! {

/// Distance between positions that were spread out.
pub const SECTION_POSITION_GAP: i64 = 1000000;

/// The members of a section, but for one thread.
pub struct SectionMembers<'a> {
    pub section: &'a str,
    pub excluded: ThreadId,
}

pub open spec fn is_member(row: ThreadRow, section: Seq<char>, excluded: ThreadId) -> bool {
    in_section(row, section) && row.metadata.id != excluded
}

impl<'a> Condition<ThreadRow> for SectionMembers<'a> {
    open spec fn holds(&self, row: ThreadRow) -> bool {
        is_member(row, self.section@, self.excluded)
    }

    fn test(&self, row: &ThreadRow) -> (held: bool) {
        is_in_section(row, self.section) && row.metadata.id != self.excluded
    }
}

/// The members of a section that have a position, below a bound if there is one.
pub struct PositionedMembers<'a> {
    pub section: &'a str,
    pub excluded: ThreadId,
    pub bound: Option<i64>,
}

impl<'a> Condition<ThreadRow> for PositionedMembers<'a> {
    open spec fn holds(&self, row: ThreadRow) -> bool {
        &&& is_member(row, self.section@, self.excluded)
        &&& row.metadata.section_position is Some
        &&& self.bound is Some ==> row.metadata.section_position->0 < self.bound->0
    }

    fn test(&self, row: &ThreadRow) -> (held: bool) {
        if !is_in_section(row, self.section) || row.metadata.id == self.excluded {
            return false;
        }
        match (row.metadata.section_position, self.bound) {
            (Some(position), Some(bound)) => position < bound,
            (Some(_), None) => true,
            (None, _) => false,
        }
    }
}

/// Highest position first; without a position last.
pub struct HighestPosition {}

impl Ranking<ThreadRow> for HighestPosition {
    open spec fn before(&self, a: ThreadRow, b: ThreadRow) -> bool {
        match (a.metadata.section_position, b.metadata.section_position) {
            (Some(a), Some(b)) => a > b,
            (Some(_), None) => true,
            (None, _) => false,
        }
    }

    fn is_before(&self, a: &ThreadRow, b: &ThreadRow) -> (r: bool) {
        match (a.metadata.section_position, b.metadata.section_position) {
            (Some(a), Some(b)) => a > b,
            (Some(_), None) => true,
            (None, _) => false,
        }
    }

    proof fn asymmetric(&self, a: ThreadRow, b: ThreadRow) {
    }

    proof fn negatively_transitive(&self, a: ThreadRow, b: ThreadRow, c: ThreadRow) {
    }
}

/// Lowest position first and without a position last, then by identifier.
pub struct ByPosition {}

/// `a` comes before `b` in a section.
pub open spec fn position_before(a: Option<i64>, a_id: ThreadId, b: Option<i64>, b_id: ThreadId) -> bool {
    match (a, b) {
        (Some(a), Some(b)) => a < b || a == b && a_id.value < b_id.value,
        (Some(_), None) => true,
        (None, Some(_)) => false,
        (None, None) => a_id.value < b_id.value,
    }
}

impl Ranking<ThreadRow> for ByPosition {
    open spec fn before(&self, a: ThreadRow, b: ThreadRow) -> bool {
        position_before(a.metadata.section_position, a.metadata.id, b.metadata.section_position, b.metadata.id)
    }

    fn is_before(&self, a: &ThreadRow, b: &ThreadRow) -> (r: bool) {
        match (a.metadata.section_position, b.metadata.section_position) {
            (Some(left), Some(right)) => left < right || left == right && a.metadata.id.value < b.metadata.id.value,
            (Some(_), None) => true,
            (None, Some(_)) => false,
            (None, None) => a.metadata.id.value < b.metadata.id.value,
        }
    }

    proof fn asymmetric(&self, a: ThreadRow, b: ThreadRow) {
    }

    proof fn negatively_transitive(&self, a: ThreadRow, b: ThreadRow, c: ThreadRow) {
    }
}

/// Why a thread could not be moved.
#[derive(Debug, PartialEq, Eq)]
pub enum SectionMoveError {
    NoSection(String),
    BeforeItself(ThreadId),
    BeforeElsewhere { before: ThreadId, section: String },
    NoPositions(String),
}

pub enum SectionMoveErrorView {
    NoSection(Seq<char>),
    BeforeItself(ThreadId),
    BeforeElsewhere { before: ThreadId, section: Seq<char> },
    NoPositions(Seq<char>),
}

impl View for SectionMoveError {
    type V = SectionMoveErrorView;

    open spec fn view(&self) -> SectionMoveErrorView {
        match self {
            SectionMoveError::NoSection(section) => SectionMoveErrorView::NoSection(section@),
            SectionMoveError::BeforeItself(thread) => SectionMoveErrorView::BeforeItself(*thread),
            SectionMoveError::BeforeElsewhere { before, section } => SectionMoveErrorView::BeforeElsewhere {
                before: *before,
                section: section@,
            },
            SectionMoveError::NoPositions(section) => SectionMoveErrorView::NoPositions(section@),
        }
    }
}

impl SectionMoveErrorView {
    pub open spec fn text(self) -> Seq<char> {
        match self {
            SectionMoveErrorView::NoSection(section) => "section "@ + section + " does not exist"@,
            SectionMoveErrorView::BeforeItself(thread) => "thread "@ + uuid_text(thread.value) + " cannot be moved before itself"@,
            SectionMoveErrorView::BeforeElsewhere { before, section } => "before thread "@ + uuid_text(before.value) + " is not in section "@ + section,
            SectionMoveErrorView::NoPositions(section) => "section "@ + section + " has no remaining thread positions"@,
        }
    }
}

impl SectionMoveError {
    pub fn message(&self) -> (text: String)
        ensures
            text@ == self@.text(),
    {
        match self {
            SectionMoveError::NoSection(section) => {
                let mut text = "section ".to_owned();
                text.append(section.as_str());
                text.append(" does not exist");
                text
            },
            SectionMoveError::BeforeItself(thread) => {
                let mut text = "thread ".to_owned();
                text.append(thread_id_text(*thread).as_str());
                text.append(" cannot be moved before itself");
                text
            },
            SectionMoveError::BeforeElsewhere { before, section } => {
                let mut text = "before thread ".to_owned();
                text.append(thread_id_text(*before).as_str());
                text.append(" is not in section ");
                text.append(section.as_str());
                text
            },
            SectionMoveError::NoPositions(section) => {
                let mut text = "section ".to_owned();
                text.append(section.as_str());
                text.append(" has no remaining thread positions");
                text
            },
        }
    }
}

/// `highest` is the highest position among the rows that satisfy the condition, if there is one.
pub open spec fn is_highest(threads: Map<ThreadId, ThreadRow>, condition: PositionedMembers, highest: Option<i64>) -> bool {
    match highest {
        Some(position) => {
            &&& exists|row: ThreadRow| #[trigger]
                row_selected::<ThreadRow, PositionedMembers>(threads, condition, row) && row.metadata.section_position == Some(position)
            &&& forall|row: ThreadRow| #[trigger]
                row_selected::<ThreadRow, PositionedMembers>(threads, condition, row) ==> row.metadata.section_position->0 <= position
        },
        None => forall|row: ThreadRow| !#[trigger] row_selected::<ThreadRow, PositionedMembers>(threads, condition, row),
    }
}

fn highest_position(threads: &Table<ThreadRow>, condition: &PositionedMembers) -> (highest: Option<i64>)
    ensures
        is_highest(threads@, *condition, highest),
{
    let rows = threads.select(condition, &HighestPosition {  }, 1);
    let ghost listed = views(rows@);
    assert(listed =~= rows@);
    if rows.len() == 0 {
        assert forall|row: ThreadRow| !#[trigger] row_selected::<ThreadRow, PositionedMembers>(threads@, *condition, row) by {
            if row_selected::<ThreadRow, PositionedMembers>(threads@, *condition, row) {
                assert(listed.contains(row));
            }
        }
        return None;
    }
    let first = &rows[0];
    proof {
        assert(listed[0] == *first);
        assert(row_selected::<ThreadRow, PositionedMembers>(threads@, *condition, *first));
        assert forall|row: ThreadRow| #[trigger]
            row_selected::<ThreadRow, PositionedMembers>(threads@, *condition, row) implies row.metadata.section_position->0 <= first.metadata.section_position->0 by {
            if listed.contains(row) {
                let i = choose|i: int| 0 <= i < listed.len() && listed[i] == row;
                assert(i == 0);
            } else {
                assert(!(HighestPosition {  }).before(row, listed[0]));
            }
        }
    }
    first.metadata.section_position
}

/// The position in the middle between `lower`, or the start, and `upper`; none if there is no
/// room.
pub open spec fn position_between(lower: Option<i64>, upper: i64) -> Option<i64> {
    match lower {
        Some(lower) => if upper - lower > 1 {
            Some((lower + (upper - lower) / 2) as i64)
        } else {
            None
        },
        None => if upper > 1 {
            Some((upper as int / 2) as i64)
        } else {
            None
        },
    }
}

/// The position behind the last one; none if it would leave the range.
pub open spec fn position_after(highest: Option<i64>) -> Option<i64> {
    let last = match highest {
        Some(position) => position as int,
        None => 0,
    };
    if last + SECTION_POSITION_GAP <= i64::MAX {
        Some((last + SECTION_POSITION_GAP) as i64)
    } else {
        None
    }
}

/// The position in the middle between `lower`, or the start, and `upper`.
pub fn middle_position(lower: Option<i64>, upper: i64) -> (position: Option<i64>)
    ensures
        position == position_between(lower, upper),
{
    match lower {
        Some(lower) => {
            let gap: i128 = upper as i128 - lower as i128;
            if gap > 1 {
                let middle: i128 = lower as i128 + gap / 2;
                Some(middle as i64)
            } else {
                None
            }
        },
        None => if upper > 1 {
            Some(upper / 2)
        } else {
            None
        },
    }
}

/// The position behind the last one.
pub fn next_position(highest: Option<i64>) -> (position: Option<i64>)
    ensures
        position == position_after(highest),
{
    let last: i64 = match highest {
        Some(position) => position,
        None => 0,
    };
    last.checked_add(SECTION_POSITION_GAP)
}

/// `found` is the position for the thread in front of `before`, or at the end of the section.
pub open spec fn is_free_position(
    threads: Map<ThreadId, ThreadRow>,
    section: &str,
    thread_id: ThreadId,
    before: Option<ThreadId>,
    found: Option<i64>,
) -> bool {
    match before {
        Some(before) => {
            let upper = threads[before].metadata.section_position->0;
            exists|lower: Option<i64>| #[trigger]
                is_highest(threads, PositionedMembers { section, excluded: thread_id, bound: Some(upper) }, lower) && found == position_between(lower, upper)
        },
        None => exists|last: Option<i64>| #[trigger]
            is_highest(threads, PositionedMembers { section, excluded: thread_id, bound: None }, last) && found == position_after(last),
    }
}

fn free_position(threads: &Table<ThreadRow>, section: &str, thread_id: ThreadId, upper: Option<i64>, Ghost(before): Ghost<Option<ThreadId>>) -> (found: Option<i64>)
    requires
        before is Some == upper is Some,
        before is Some ==> threads@[before->0].metadata.section_position == upper,
    ensures
        is_free_position(threads@, section, thread_id, before, found),
{
    match upper {
        Some(upper) => {
            let condition = PositionedMembers { section, excluded: thread_id, bound: Some(upper) };
            let lower = highest_position(threads, &condition);
            middle_position(lower, upper)
        },
        None => {
            let condition = PositionedMembers { section, excluded: thread_id, bound: None };
            let last = highest_position(threads, &condition);
            next_position(last)
        },
    }
}

/// The thread at another position of its section.
pub open spec fn repositioned(row: ThreadRow, position: i64) -> ThreadRow {
    placed(row, row.metadata.section, Some(position), row.metadata.section_entered_at)
}

/// The table with the listed threads at positions that are spread out.
pub open spec fn spread_out(threads: Map<ThreadId, ThreadRow>, listed: Seq<ThreadRow>) -> Map<ThreadId, ThreadRow>
    decreases listed.len(),
{
    if listed.len() == 0 {
        threads
    } else {
        spread_out(threads, listed.drop_last()).insert(
            listed.last().metadata.id,
            repositioned(listed.last(), (listed.len() * SECTION_POSITION_GAP) as i64),
        )
    }
}

/// The members of a section in order, but for one thread.
pub open spec fn is_section_order(threads: Map<ThreadId, ThreadRow>, section: &str, excluded: ThreadId, listed: Seq<ThreadRow>) -> bool {
    is_full_listing::<ThreadRow, SectionMembers, ByPosition>(threads, SectionMembers { section, excluded }, ByPosition {  }, listed)
}

/// Spreads the positions of a section out. Changes nothing, and says so, if the positions would
/// leave the range.
fn renumber_section_positions(threads: &mut Table<ThreadRow>, section: &str, excluded: ThreadId) -> (renumbered: bool)
    ensures
        exists|listed: Seq<ThreadRow>| {
            &&& #[trigger] is_section_order(old(threads)@, section, excluded, listed)
            &&& renumbered == (listed.len() * SECTION_POSITION_GAP <= i64::MAX)
            &&& final(threads)@ == if renumbered {
                spread_out(old(threads)@, listed)
            } else {
                old(threads)@
            }
        },
{
    let condition = SectionMembers { section, excluded };
    let rows = threads.select_all(&condition, &ByPosition {  });
    let ghost before = threads@;
    let ghost listed = views(rows@);
    assert(listed =~= rows@);
    assert(is_section_order(before, section, excluded, listed));
    if rows.len() as u128 > 9223372036854u128 {
        assert(is_section_order(old(threads)@, section, excluded, listed));
        return false;
    }
    let mut i: usize = 0;
    assert(spread_out(before, listed.take(0)) == before);
    while i < rows.len()
        invariant
            i <= rows@.len(),
            rows@.len() <= 9223372036854,
            listed == rows@,
            threads@ == spread_out(before, listed.take(i as int)),
        decreases rows@.len() - i,
    {
        let mut row = rows[i].clone();
        let ghost unmoved = row;
        row.metadata.section_position = Some((i as i64 + 1) * SECTION_POSITION_GAP);
        proof {
            assert(row == repositioned(unmoved, ((i + 1) * SECTION_POSITION_GAP) as i64));
            assert(listed.take(i + 1).drop_last() =~= listed.take(i as int));
            assert(listed.take(i + 1).last() == unmoved);
        }
        threads.put(row);
        i += 1;
    }
    assert(listed.take(i as int) =~= listed);
    assert(is_section_order(old(threads)@, section, excluded, listed));
    true
}

/// The thread at its place in the section. The time when it entered the section changes only if
/// it was not there before.
pub open spec fn moved(row: ThreadRow, section: ThreadSection, position: i64, now: i64) -> ThreadRow {
    if in_section(row, section.id@) {
        repositioned(row, position)
    } else {
        placed(row, Some(section), Some(position), Some(now))
    }
}

/// `before` is a thread of the section that has a position.
pub open spec fn is_anchor(threads: Map<ThreadId, ThreadRow>, section: Seq<char>, before: ThreadId) -> bool {
    threads.contains_key(before) && in_section(threads[before], section) && threads[before].metadata.section_position is Some
}

/// What is wrong with a move of an existing thread into a section, if anything.
pub open spec fn move_error(
    state: StateRuntimeView,
    thread_id: ThreadId,
    section: Seq<char>,
    before: Option<ThreadId>,
) -> Option<SectionMoveErrorView> {
    if !state.sections.contains_key(section) {
        Some(SectionMoveErrorView::NoSection(section))
    } else {
        match before {
            Some(before) => if before == thread_id {
                Some(SectionMoveErrorView::BeforeItself(thread_id))
            } else if !is_anchor(state.threads, section, before) {
                Some(SectionMoveErrorView::BeforeElsewhere { before, section })
            } else {
                None
            },
            None => None,
        }
    }
}

/// What becomes of the threads when one of them is moved into a section: it gets a free position
/// there. Where there is none the positions are spread out first; where there is none even then,
/// nothing changes and there is no result.
pub open spec fn is_section_move(
    threads: Map<ThreadId, ThreadRow>,
    section: ThreadSection,
    name: &str,
    thread_id: ThreadId,
    before: Option<ThreadId>,
    now: i64,
    after: Option<Map<ThreadId, ThreadRow>>,
) -> bool {
    exists|found: Option<i64>| #[trigger] is_free_position(threads, name, thread_id, before, found) && match found {
        Some(position) => after == Some(threads.insert(thread_id, moved(threads[thread_id], section, position, now))),
        None => exists|listed: Seq<ThreadRow>| #[trigger] is_section_order(threads, name, thread_id, listed) && {
            let spread = spread_out(threads, listed);
            if listed.len() * SECTION_POSITION_GAP > i64::MAX {
                after is None
            } else {
                exists|found: Option<i64>| #[trigger] is_free_position(spread, name, thread_id, before, found) && match found {
                    Some(position) => after == Some(spread.insert(thread_id, moved(spread[thread_id], section, position, now))),
                    None => after is None,
                }
            }
        },
    }
}

/// What a move leads to.
pub open spec fn moving(
    state: StateRuntimeView,
    thread_id: ThreadId,
    section: Option<&str>,
    before: Option<ThreadId>,
    now: i64,
    after: StateRuntimeView,
    result: Result<bool, SectionMoveErrorView>,
) -> bool {
    if !state.threads.contains_key(thread_id) {
        after == state && result == Ok::<bool, SectionMoveErrorView>(false)
    } else {
        match section {
            None => {
                &&& result == Ok::<bool, SectionMoveErrorView>(true)
                &&& after == state.with_threads(state.threads.insert(thread_id, placed(state.threads[thread_id], None, None, None)))
            },
            Some(section) => match move_error(state, thread_id, section@, before) {
                Some(error) => after == state && result == Err::<bool, SectionMoveErrorView>(error),
                None => match result {
                    Ok(moved) => moved && after == state.with_threads(after.threads) && is_section_move(
                        state.threads,
                        state.sections[section@],
                        section,
                        thread_id,
                        before,
                        now,
                        Some(after.threads),
                    ),
                    Err(error) => after == state && error == SectionMoveErrorView::NoPositions(section@) && is_section_move(
                        state.threads,
                        state.sections[section@],
                        section,
                        thread_id,
                        before,
                        now,
                        None,
                    ),
                },
            },
        }
    }
}

/// The result with the view of the error.
pub open spec fn move_view(result: Result<bool, SectionMoveError>) -> Result<bool, SectionMoveErrorView> {
    match result {
        Ok(moved) => Ok(moved),
        Err(error) => Err(error@),
    }
}

fn move_row(row: &ThreadRow, section: &ThreadSection, position: i64, now: i64) -> (after: ThreadRow)
    ensures
        after == moved(*row, *section, position, now),
{
    let mut after = row.clone();
    after.metadata.section_position = Some(position);
    if !is_in_section(row, section.id.as_str()) {
        after.metadata.section = Some(section.clone());
        after.metadata.section_entered_at = Some(now);
    }
    after
}

/// Where a thread is in its section.
#[derive(Clone, Copy, Debug, PartialEq, Eq)]
pub struct ThreadSectionPlace {
    pub thread_id: ThreadId,
    pub position: Option<i64>,
    pub entered_at: Option<i64>,
}

pub open spec fn place_of(row: ThreadRow) -> ThreadSectionPlace {
    ThreadSectionPlace {
        thread_id: row.metadata.id,
        position: row.metadata.section_position,
        entered_at: row.metadata.section_entered_at,
    }
}

/// The threads with the given identifiers.
pub struct ThreadsAmong<'a> {
    pub ids: &'a [ThreadId],
}

impl<'a> Condition<ThreadRow> for ThreadsAmong<'a> {
    open spec fn holds(&self, row: ThreadRow) -> bool {
        self.ids@.contains(row.metadata.id)
    }

    fn test(&self, row: &ThreadRow) -> (held: bool) {
        let mut i: usize = 0;
        while i < self.ids.len()
            invariant
                i <= self.ids@.len(),
                forall|j: int| 0 <= j < i ==> #[trigger] self.ids@[j] != row.metadata.id,
            decreases self.ids@.len() - i,
        {
            if self.ids[i] == row.metadata.id {
                assert(self.ids@[i as int] == row.metadata.id);
                return true;
            }
            i += 1;
        }
        false
    }
}

/// By identifier.
pub struct ByThreadId {}

impl Ranking<ThreadRow> for ByThreadId {
    open spec fn before(&self, a: ThreadRow, b: ThreadRow) -> bool {
        a.metadata.id.value < b.metadata.id.value
    }

    fn is_before(&self, a: &ThreadRow, b: &ThreadRow) -> (r: bool) {
        a.metadata.id.value < b.metadata.id.value
    }

    proof fn asymmetric(&self, a: ThreadRow, b: ThreadRow) {
    }

    proof fn negatively_transitive(&self, a: ThreadRow, b: ThreadRow, c: ThreadRow) {
    }
}

impl StateRuntime {
    /// Where the given threads are in their sections, for those that exist.
    pub fn get_thread_section_ordering(&self, thread_ids: &[ThreadId]) -> (places: Vec<ThreadSectionPlace>)
        ensures
            exists|listed: Seq<ThreadRow>| {
                &&& #[trigger] is_full_listing::<ThreadRow, ThreadsAmong, ByThreadId>(
                    self@.threads,
                    ThreadsAmong { ids: thread_ids },
                    ByThreadId {  },
                    listed,
                )
                &&& places@ == listed.map_values(|row: ThreadRow| place_of(row))
            },
    {
        let condition = ThreadsAmong { ids: thread_ids };
        let rows = self.threads.select_all(&condition, &ByThreadId {  });
        let ghost listed = views(rows@);
        assert(listed =~= rows@);
        assert(is_full_listing::<ThreadRow, ThreadsAmong, ByThreadId>(self@.threads, condition, ByThreadId {  }, listed));
        let ghost expected = listed.map_values(|row: ThreadRow| place_of(row));
        let mut places: Vec<ThreadSectionPlace> = Vec::new();
        let mut i: usize = 0;
        while i < rows.len()
            invariant
                i <= rows@.len(),
                expected.len() == rows@.len(),
                forall|k: int| 0 <= k < rows@.len() ==> #[trigger] expected[k] == place_of(rows@[k]),
                places@ == expected.take(i as int),
            decreases rows@.len() - i,
        {
            places.push(
                ThreadSectionPlace {
                    thread_id: rows[i].metadata.id,
                    position: rows[i].metadata.section_position,
                    entered_at: rows[i].metadata.section_entered_at,
                },
            );
            assert(expected[i as int] == place_of(rows@[i as int]));
            assert(expected.take(i + 1) =~= expected.take(i as int).push(expected[i as int]));
            i += 1;
        }
        assert(expected.take(i as int) =~= expected);
        places
    }

    /// Moves a thread into a section, in front of another thread or to the end, or out of its
    /// section.
    pub fn move_thread_to_section(
        &mut self,
        thread_id: ThreadId,
        section: Option<&str>,
        before_thread_id: Option<ThreadId>,
    ) -> (result: Result<bool, SectionMoveError>)
        ensures
            exists|now: i64| #[trigger] moving(old(self)@, thread_id, section, before_thread_id, now, final(self)@, move_view(result)),
    {
        let now: i64 = now_millis();
        self.move_thread_to_section_at(thread_id, section, before_thread_id, now)
    }

    /// Moves a thread into a section at the given time.
    pub fn move_thread_to_section_at(
        &mut self,
        thread_id: ThreadId,
        section: Option<&str>,
        before_thread_id: Option<ThreadId>,
        now: i64,
    ) -> (result: Result<bool, SectionMoveError>)
        ensures
            moving(old(self)@, thread_id, section, before_thread_id, now, final(self)@, move_view(result)),
    {
        let row = match self.threads.get(&thread_id) {
            Some(row) => row.clone(),
            None => return Ok(false),
        };
        let name = match section {
            Some(name) => name,
            None => {
                let mut cleared = row;
                cleared.metadata.section = None;
                cleared.metadata.section_position = None;
                cleared.metadata.section_entered_at = None;
                self.threads.put(cleared);
                return Ok(true);
            },
        };
        let key = name.to_owned();
        let target = match self.sections.get(&key) {
            Some(target) => target.clone(),
            None => return Err(SectionMoveError::NoSection(key)),
        };
        let mut upper: Option<i64> = None;
        if let Some(before) = before_thread_id {
            if before == thread_id {
                return Err(SectionMoveError::BeforeItself(thread_id));
            }
            upper = match self.threads.get(&before) {
                Some(anchor) => if is_in_section(anchor, name) {
                    anchor.metadata.section_position
                } else {
                    None
                },
                None => None,
            };
            if upper.is_none() {
                return Err(SectionMoveError::BeforeElsewhere { before, section: key });
            }
        }
        let ghost start = self@.threads;
        let found = free_position(&self.threads, name, thread_id, upper, Ghost(before_thread_id));
        if let Some(position) = found {
            self.threads.put(move_row(&row, &target, position, now));
            assert(is_section_move(start, target, name, thread_id, before_thread_id, now, Some(self@.threads)));
            return Ok(true);
        }
        let mut spread = self.threads.copy();
        let renumbered = renumber_section_positions(&mut spread, name, thread_id);
        let ghost listed = choose|listed: Seq<ThreadRow>| {
            &&& #[trigger] is_section_order(start, name, thread_id, listed)
            &&& renumbered == (listed.len() * SECTION_POSITION_GAP <= i64::MAX)
            &&& spread@ == if renumbered {
                spread_out(start, listed)
            } else {
                start
            }
        };
        assert(is_section_order(start, name, thread_id, listed));
        if !renumbered {
            assert(is_free_position(start, name, thread_id, before_thread_id, None));
            assert(is_section_move(start, target, name, thread_id, before_thread_id, now, None));
            return Err(SectionMoveError::NoPositions(key));
        }
        proof {
            crate::table::lemma_keyed(self.threads);
            lemma_spread_out(start, name, thread_id, listed);
            if let Some(before) = before_thread_id {
                let anchor = start[before];
                assert(row_selected::<ThreadRow, SectionMembers>(start, SectionMembers { section: name, excluded: thread_id }, anchor));
                assert(listed.contains(anchor));
                let i = choose|i: int| 0 <= i < listed.len() && listed[i] == anchor;
                assert(spread@[listed[i].metadata.id].metadata.section_position is Some);
            }
        }
        let upper = match before_thread_id {
            Some(before) => match spread.get(&before) {
                Some(anchor) => anchor.metadata.section_position,
                None => None,
            },
            None => None,
        };
        let found = free_position(&spread, name, thread_id, upper, Ghost(before_thread_id));
        match found {
            Some(position) => {
                spread.put(move_row(&row, &target, position, now));
                self.threads = spread;
                assert(is_section_move(start, target, name, thread_id, before_thread_id, now, Some(self@.threads)));
                Ok(true)
            },
            None => {
                assert(is_section_move(start, target, name, thread_id, before_thread_id, now, None));
                Err(SectionMoveError::NoPositions(key))
            },
        }
    }
}

/// Spreading positions out changes only positions, and only those of the listed threads.
pub proof fn lemma_spread_out(threads: Map<ThreadId, ThreadRow>, section: &str, excluded: ThreadId, listed: Seq<ThreadRow>)
    requires
        is_section_order(threads, section, excluded, listed),
        listed.len() * SECTION_POSITION_GAP <= i64::MAX,
        forall|id: ThreadId| #[trigger] threads.contains_key(id) ==> threads[id].metadata.id == id,
    ensures
        spread_out(threads, listed).dom() == threads.dom(),
        forall|i: int| #![trigger listed[i]] 0 <= i < listed.len() ==> spread_out(threads, listed)[listed[i].metadata.id] == repositioned(
            listed[i],
            ((i + 1) * SECTION_POSITION_GAP) as i64,
        ),
        forall|id: ThreadId| #[trigger] threads.contains_key(id) && !is_member(threads[id], section@, excluded) ==> spread_out(threads, listed)[id] == threads[id],
{
    lemma_spread_out_prefix(threads, section, excluded, listed, listed.len());
    assert(listed.take(listed.len() as int) =~= listed);
    let after = spread_out(threads, listed);
    assert forall|id: ThreadId| #[trigger] threads.contains_key(id) && !is_member(threads[id], section@, excluded) implies after[id] == threads[id] by {
        assert forall|i: int| 0 <= i < listed.len() implies (#[trigger] listed[i]).metadata.id != id by {
            assert(row_selected::<ThreadRow, SectionMembers>(threads, SectionMembers { section, excluded }, listed[i]));
        }
    }
}

proof fn lemma_spread_out_prefix(threads: Map<ThreadId, ThreadRow>, section: &str, excluded: ThreadId, listed: Seq<ThreadRow>, n: nat)
    requires
        is_section_order(threads, section, excluded, listed),
        n <= listed.len(),
        listed.len() * SECTION_POSITION_GAP <= i64::MAX,
    ensures
        spread_out(threads, listed.take(n as int)).dom() == threads.dom(),
        forall|i: int| #![trigger listed[i]] 0 <= i < n ==> spread_out(threads, listed.take(n as int))[listed[i].metadata.id] == repositioned(
            listed[i],
            ((i + 1) * SECTION_POSITION_GAP) as i64,
        ),
        forall|id: ThreadId| #[trigger] threads.contains_key(id) && (forall|i: int| 0 <= i < n ==> (#[trigger] listed[i]).metadata.id != id) ==> spread_out(
            threads,
            listed.take(n as int),
        )[id] == threads[id],
    decreases n,
{
    if n > 0 {
        let less = (n - 1) as nat;
        lemma_spread_out_prefix(threads, section, excluded, listed, less);
        let part = listed.take(n as int);
        assert(part.drop_last() =~= listed.take(less as int));
        assert(part.last() == listed[less as int]);
        assert(row_selected::<ThreadRow, SectionMembers>(threads, SectionMembers { section, excluded }, listed[less as int]));
        assert(spread_out(threads, part).dom() =~= threads.dom());
        assert forall|i: int| #![trigger listed[i]] 0 <= i < n implies spread_out(threads, part)[listed[i].metadata.id] == repositioned(
            listed[i],
            ((i + 1) * SECTION_POSITION_GAP) as i64,
        ) by {
            if i < less {
                assert(ThreadRow::key_of(listed[i]) != ThreadRow::key_of(listed[less as int]));
            }
        }
    } else {
        assert(listed.take(0).len() == 0);
    }
}

} // verus!
